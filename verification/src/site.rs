//! The address below which the pictures of the guide are found.

use vstd::prelude::*;
use vstd::string::StrSliceExecFns;

use crate::text::{chars_of, contains, find, first_occurrence};

verus! {

/// The word in an address that marks a development server.
pub open spec fn dev_marker() -> Seq<char> {
    "dev"@
}

/// The address without its fragment: what stands before the first hash
/// sign, or all of it where it has none.
pub open spec fn without_fragment(url: Seq<char>) -> Seq<char> {
    match first_occurrence(url, seq!['#']) {
        Some(i) => url.take(i),
        None => url,
    }
}

/// The address below which the pictures are found. On a development
/// server, one whose address holds `dev`, that is the origin of the page;
/// elsewhere it is the address of the page without its fragment.
pub open spec fn asset_base(url: Seq<char>, origin: Seq<char>) -> Seq<char> {
    if contains(url, dev_marker()) {
        origin
    } else {
        without_fragment(url)
    }
}

/// The address below which the pictures are found, from the address of the
/// page and its origin.
pub fn asset_origin(url: &str, origin: &str) -> (r: String)
    ensures
        r@ == asset_base(url@, origin@),
{
    let address = chars_of(url);
    if find(&address, &chars_of("dev")).is_some() {
        return origin.to_owned();
    }
    let hash = chars_of("#");
    proof {
        reveal_strlit("#");
        assert(hash@ =~= seq!['#']);
    }
    match find(&address, &hash) {
        Some(i) => {
            assert(url@.subrange(0, i as int) =~= url@.take(i as int));
            url.substring_char(0, i).to_owned()
        },
        None => url.to_owned(),
    }
}

} // verus!
