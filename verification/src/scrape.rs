//! What the scraper of unit pages decides: which links lead to a unit, how
//! a name is cleaned, where a file name starts, and which omicron an
//! ability of a page stands for.

use vstd::prelude::*;
use vstd::string::{StrSliceExecFns, StringExecFns};

use crate::teams::omicron::Omicron;
use crate::text::{
    chars_eq, chars_eq_ignore_case, chars_of, contains, find, first_occurrence, occurs_at,
    stands_at,
};

verus! {

/// The two sorts of unit that the scraper visits.
#[derive(Debug, Clone, Copy, PartialEq, Eq, Structural)]
pub enum Type {
    Character,
    Ship,
}

impl Type {
    /// The word by which the page marks a portrait of this sort.
    pub open spec fn portrait_text(self) -> Seq<char> {
        match self {
            Type::Character => "character"@,
            Type::Ship => "ship"@,
        }
    }

    /// The name of the list of all units of this sort.
    pub open spec fn list_text(self) -> Seq<char> {
        match self {
            Type::Character => "characters"@,
            Type::Ship => "ships"@,
        }
    }

    /// The word by which the page marks a portrait of this sort.
    pub fn portrait(&self) -> (r: String)
        ensures
            r@ == self.portrait_text(),
    {
        match self {
            Type::Character => "character".to_owned(),
            Type::Ship => "ship".to_owned(),
        }
    }

    /// The name of the list of all units of this sort.
    pub fn to_string(&self) -> (r: String)
        ensures
            r@ == self.list_text(),
    {
        match self {
            Type::Character => "characters".to_owned(),
            Type::Ship => "ships".to_owned(),
        }
    }
}

/// The beginning of every link that leads to the page of a unit.
pub open spec fn unit_link_prefix() -> Seq<char> {
    "/units/"@
}

/// Whether a link leads to the page of a unit.
pub fn is_unit_link(href: &str) -> (r: bool)
    ensures
        r == unit_link_prefix().is_prefix_of(href@),
{
    let link = chars_of(href);
    let prefix = chars_of("/units/");
    stands_at(&link, &prefix, 0)
}

/// The words that mark an ability as one for territory battles.
pub open spec fn territory_battle() -> Seq<char> {
    "Territory Battle"@
}

/// Whether the description of an ability speaks of territory battles.
pub fn mentions_territory_battle(description: &str) -> (r: bool)
    ensures
        r == contains(description@, territory_battle()),
{
    let text = chars_of(description);
    let words = chars_of("Territory Battle");
    find(&text, &words).is_some()
}

/// Where the last segment of a path starts: after its last slash, or at
/// its start where it has none.
pub open spec fn segment_start(path: Seq<char>) -> int
    decreases path.len(),
{
    if path.len() == 0 {
        0
    } else if path.last() == '/' {
        path.len() as int
    } else {
        segment_start(path.drop_last())
    }
}

/// What follows the last slash of a path: the whole path where it has no
/// slash, nothing where it ends in one.
pub open spec fn last_segment(path: Seq<char>) -> Seq<char> {
    path.skip(segment_start(path))
}

/// The last segment starts inside the path, holds no slash, and is
/// preceded by a slash unless it is the whole path.
pub proof fn lemma_last_segment(path: Seq<char>)
    ensures
        0 <= segment_start(path) <= path.len(),
        forall|i: int| segment_start(path) <= i < path.len() ==> path[i] != '/',
        segment_start(path) > 0 ==> path[segment_start(path) - 1] == '/',
    decreases path.len(),
{
    if path.len() > 0 && path.last() != '/' {
        let head = path.drop_last();
        lemma_last_segment(head);
        assert forall|i: int| segment_start(path) <= i < path.len() implies path[i] != '/' by {
            if i < head.len() {
                assert(head[i] == path[i]);
            }
        }
        if segment_start(path) > 0 {
            assert(head[segment_start(path) - 1] == path[segment_start(path) - 1]);
        }
    }
}

/// The file name at the end of an address: what follows its last slash.
pub fn file_name(url: &str) -> (r: String)
    ensures
        r@ == last_segment(url@),
{
    let path = chars_of(url);
    let mut start: usize = path.len();
    assert(path@.take(start as int) =~= path@);
    while start > 0 && path[start - 1] != '/'
        invariant
            start <= path.len(),
            path@ == url@,
            segment_start(path@) == segment_start(path@.take(start as int)),
        decreases start,
    {
        assert(path@.take(start as int).drop_last() =~= path@.take(start - 1));
        start -= 1;
    }
    proof {
        let head = path@.take(start as int);
        assert(start == path.len() ==> head =~= path@);
        assert(segment_start(head) == start);
    }
    url.substring_char(start, path.len()).to_owned()
}

/// Where the cut of [`enclosed_substring`] begins: one past the first
/// place where `from` stands, or at the start where it stands nowhere.
pub open spec fn cut_start(s: Seq<char>, from: Seq<char>) -> int {
    match first_occurrence(s, from) {
        Some(i) => i + 1,
        None => 0,
    }
}

/// Where the cut of [`enclosed_substring`] ends: at the first place where
/// `to` stands, or at the end where it stands nowhere.
pub open spec fn cut_end(s: Seq<char>, to: Seq<char>) -> int {
    match first_occurrence(s, to) {
        Some(i) => i,
        None => s.len() as int,
    }
}

/// The cut can be made: it does not end before it begins, and where
/// `from` was found, the one character that is stepped over is a plain
/// ASCII character.
pub open spec fn cut_defined(s: Seq<char>, from: Seq<char>, to: Seq<char>) -> bool {
    &&& cut_start(s, from) <= cut_end(s, to)
    &&& first_occurrence(s, from) matches Some(i) ==> (s[i] as u32) < 128
}

/// What stands in `s` between the first `from` and the first `to`. The
/// cut begins one character after the place where `from` begins, so `from`
/// is meant to be a single ASCII character. Gives nothing where the cut
/// cannot be made.
pub fn enclosed_substring(s: &str, from: &str, to: &str) -> (r: Option<String>)
    ensures
        r is Some <==> cut_defined(s@, from@, to@),
        r matches Some(cut) ==> cut@ == s@.subrange(cut_start(s@, from@), cut_end(s@, to@)),
{
    let text = chars_of(s);
    let open = chars_of(from);
    let close = chars_of(to);
    let found = find(&text, &open);
    let end: usize = match find(&text, &close) {
        Some(i) => i,
        None => text.len(),
    };
    let begin: usize = match found {
        Some(i) => {
            if i >= text.len() {
                return None;
            }
            let code: u32 = text[i] as u32;
            if code >= 128 {
                return None;
            }
            i + 1
        },
        None => 0,
    };
    if begin > end {
        return None;
    }
    Some(s.substring_char(begin, end).to_owned())
}

/// The characters that count as white space.
pub open spec fn is_space(c: char) -> bool {
    let n = c as u32;
    ||| 0x09 <= n <= 0x0d
    ||| n == 0x20
    ||| n == 0x85
    ||| n == 0xa0
    ||| n == 0x1680
    ||| 0x2000 <= n <= 0x200a
    ||| n == 0x2028
    ||| n == 0x2029
    ||| n == 0x202f
    ||| n == 0x205f
    ||| n == 0x3000
}

/// The text without the white space at its start.
pub open spec fn trim_start(s: Seq<char>) -> Seq<char>
    decreases s.len(),
{
    if s.len() > 0 && is_space(s[0]) {
        trim_start(s.drop_first())
    } else {
        s
    }
}

/// The text without the white space at its end.
pub open spec fn trim_end(s: Seq<char>) -> Seq<char>
    decreases s.len(),
{
    if s.len() > 0 && is_space(s.last()) {
        trim_end(s.drop_last())
    } else {
        s
    }
}

/// The text without the white space at its start and at its end.
pub open spec fn trim(s: Seq<char>) -> Seq<char> {
    trim_end(trim_start(s))
}

/// The text with every `from` replaced by `to`, going from left to right
/// and never looking again at what was replaced. `from` is not empty.
pub open spec fn replace(s: Seq<char>, from: Seq<char>, to: Seq<char>) -> Seq<char>
    recommends
        from.len() > 0,
    decreases s.len(),
{
    if from.len() == 0 || s.len() < from.len() {
        s
    } else if occurs_at(s, from, 0) {
        to + replace(s.skip(from.len() as int), from, to)
    } else {
        seq![s[0]] + replace(s.drop_first(), from, to)
    }
}

/// A name as the page holds it, made fit to show: without the white space
/// around it and with the escaped ampersand written out.
pub open spec fn cleaned(s: Seq<char>) -> Seq<char> {
    replace(trim(s), "&amp;"@, "&"@)
}

/// Whether a character counts as white space.
pub fn is_whitespace(c: char) -> (r: bool)
    ensures
        r == is_space(c),
{
    let n: u32 = c as u32;
    (0x09 <= n && n <= 0x0d) || n == 0x20 || n == 0x85 || n == 0xa0 || n == 0x1680 || (0x2000 <= n
        && n <= 0x200a) || n == 0x2028 || n == 0x2029 || n == 0x202f || n == 0x205f || n == 0x3000
}

/// Where the first `k` characters are white space and the next one is
/// not, trimming the start leaves what follows position `k`.
proof fn lemma_trim_start(s: Seq<char>, k: int)
    requires
        0 <= k <= s.len(),
        forall|j: int| 0 <= j < k ==> is_space(s[j]),
        k == s.len() || !is_space(s[k]),
    ensures
        trim_start(s) == s.skip(k),
    decreases k,
{
    if k == 0 {
        assert(s.skip(0) =~= s);
    } else {
        let rest = s.drop_first();
        assert forall|j: int| 0 <= j < k - 1 implies is_space(rest[j]) by {
            assert(rest[j] == s[j + 1]);
        }
        lemma_trim_start(rest, k - 1);
        assert(rest.skip(k - 1) =~= s.skip(k));
    }
}

/// Where everything from position `m` on is white space and the character
/// before is not, trimming the end leaves the first `m` characters.
proof fn lemma_trim_end(s: Seq<char>, m: int)
    requires
        0 <= m <= s.len(),
        forall|j: int| m <= j < s.len() ==> is_space(s[j]),
        m == 0 || !is_space(s[m - 1]),
    ensures
        trim_end(s) == s.take(m),
    decreases s.len() - m,
{
    if m == s.len() {
        assert(s.take(m) =~= s);
    } else {
        let rest = s.drop_last();
        lemma_trim_end(rest, m);
        assert(rest.take(m) =~= s.take(m));
    }
}

/// The text with every `from` replaced by `to`.
fn replace_all(s: &str, from: &str, to: &str) -> (r: String)
    requires
        from@.len() > 0,
    ensures
        r@ == replace(s@, from@, to@),
{
    let text = chars_of(s);
    let needle = chars_of(from);
    let mut out = String::new();
    let mut seg: usize = 0;
    let mut i: usize = 0;
    assert(out@ + text@.subrange(0, 0) + replace(text@.skip(0), from@, to@) =~= replace(
        text@,
        from@,
        to@,
    )) by {
        assert(text@.skip(0) =~= text@);
    }
    while i < text.len()
        invariant
            seg <= i <= text.len(),
            text@ == s@,
            needle@ == from@,
            from@.len() > 0,
            out@ + text@.subrange(seg as int, i as int) + replace(
                text@.skip(i as int),
                from@,
                to@,
            ) == replace(s@, from@, to@),
        decreases text.len() - i,
    {
        let ghost rest = text@.skip(i as int);
        let ghost pending = text@.subrange(seg as int, i as int);
        let ghost before = out@;
        if stands_at(&text, &needle, i) {
            proof {
                assert(rest.subrange(0, from@.len() as int) =~= text@.subrange(
                    i as int,
                    i + from@.len(),
                ));
                assert(occurs_at(rest, from@, 0));
                assert(rest.skip(from@.len() as int) =~= text@.skip(i + from@.len()));
            }
            out.append(s.substring_char(seg, i));
            out.append(to);
            i += needle.len();
            seg = i;
            assert(out@ + text@.subrange(seg as int, i as int) + replace(
                text@.skip(i as int),
                from@,
                to@,
            ) =~= before + pending + replace(rest, from@, to@)) by {
                assert(text@.subrange(seg as int, i as int) =~= Seq::<char>::empty());
            }
        } else {
            proof {
                assert(rest.drop_first() =~= text@.skip(i + 1));
                if rest.len() >= from@.len() {
                    assert(rest.subrange(0, from@.len() as int) =~= text@.subrange(
                        i as int,
                        i + from@.len(),
                    ));
                    assert(!occurs_at(rest, from@, 0));
                } else {
                    assert(replace(rest.drop_first(), from@, to@) == rest.drop_first());
                    assert(rest =~= seq![rest[0]] + rest.drop_first());
                }
                assert(replace(rest, from@, to@) =~= seq![text@[i as int]] + replace(
                    text@.skip(i + 1),
                    from@,
                    to@,
                ));
                assert(text@.subrange(seg as int, i + 1) =~= pending + seq![text@[i as int]]);
            }
            i += 1;
            assert(out@ + text@.subrange(seg as int, i as int) + replace(
                text@.skip(i as int),
                from@,
                to@,
            ) =~= out@ + pending + replace(rest, from@, to@));
        }
    }
    out.append(s.substring_char(seg, text.len()));
    proof {
        assert(text@.skip(text.len() as int) =~= Seq::<char>::empty());
        assert(replace(Seq::<char>::empty(), from@, to@) =~= Seq::<char>::empty());
        assert(out@ =~= replace(s@, from@, to@));
    }
    out
}

/// Makes a name as the page holds it fit to show: takes off the white
/// space around it and writes the escaped ampersand out.
pub fn clean_name(s: &str) -> (r: String)
    ensures
        r@ == cleaned(s@),
{
    let text = chars_of(s);
    let mut begin: usize = 0;
    while begin < text.len() && is_whitespace(text[begin])
        invariant
            begin <= text.len(),
            forall|j: int| 0 <= j < begin ==> is_space(text@[j]),
        decreases text.len() - begin,
    {
        begin += 1;
    }
    let mut end: usize = text.len();
    while end > begin && is_whitespace(text[end - 1])
        invariant
            begin <= end <= text.len(),
            forall|j: int| end <= j < text.len() ==> is_space(text@[j]),
        decreases end,
    {
        end -= 1;
    }
    let inner = s.substring_char(begin, end);
    proof {
        lemma_trim_start(text@, begin as int);
        let tail = text@.skip(begin as int);
        assert forall|j: int| end - begin <= j < tail.len() implies is_space(tail[j]) by {
            assert(tail[j] == text@[j + begin]);
        }
        if end > begin {
            assert(tail[end - begin - 1] == text@[end - 1]);
        }
        lemma_trim_end(tail, end - begin);
        assert(tail.take(end - begin) =~= text@.subrange(begin as int, end as int));
        reveal_strlit("&amp;");
    }
    replace_all(inner, "&amp;", "&")
}

/// The count of special and of unique abilities seen so far on the page of
/// one unit. The page lists abilities in order, and an omicron on the
/// third special ability is told apart by that count.
#[derive(Debug, Clone, Copy, PartialEq, Eq, Structural)]
pub struct AbilityCounter {
    pub special: u8,
    pub unique: u8,
}

/// The name of the sort of special abilities.
pub open spec fn special_kind() -> Seq<char> {
    "Special"@
}

/// The name of the sort of unique abilities.
pub open spec fn unique_kind() -> Seq<char> {
    "Unique"@
}

impl AbilityCounter {
    /// The ability of the given sort is counted as special, whatever the
    /// case of the word.
    pub open spec fn is_special(kind: Seq<char>) -> bool {
        crate::text::eq_ignore_case(kind, "special"@)
    }

    /// The ability of the given sort is counted as unique, whatever the
    /// case of the word.
    pub open spec fn is_unique(kind: Seq<char>) -> bool {
        crate::text::eq_ignore_case(kind, "unique"@)
    }

    /// The counter can take one more ability of the given sort.
    pub open spec fn has_room(self, kind: Seq<char>) -> bool {
        &&& Self::is_special(kind) ==> self.special < u8::MAX
        &&& Self::is_unique(kind) ==> self.unique < u8::MAX
    }

    /// The counter after an ability of the given sort was seen.
    pub open spec fn counted(self, kind: Seq<char>) -> AbilityCounter {
        AbilityCounter {
            special: if Self::is_special(kind) {
                (self.special + 1) as u8
            } else {
                self.special
            },
            unique: if Self::is_unique(kind) {
                (self.unique + 1) as u8
            } else {
                self.unique
            },
        }
    }

    /// The omicron that an ability of the given sort stands for, the
    /// ability counted in: `Basic`, `Leader`, `Special` and `Unique` are
    /// known, spelled exactly so.
    pub open spec fn tag_of(self, kind: Seq<char>) -> Option<Omicron> {
        if kind == "Basic"@ {
            Some(Omicron::Basic)
        } else if kind == "Leader"@ {
            Some(Omicron::Lead)
        } else if kind == special_kind() {
            Some(Omicron::Special(self.special))
        } else if kind == unique_kind() {
            Some(Omicron::Unique(self.unique))
        } else {
            None
        }
    }

    /// The counter at the top of a page.
    pub fn new() -> (r: Self)
        ensures
            r.special == 0,
            r.unique == 0,
    {
        AbilityCounter { special: 0, unique: 0 }
    }

    /// Counts an ability of the given sort. Gives `false`, and leaves the
    /// counter as it is, where the count would pass 255.
    pub fn count(&mut self, kind: &str) -> (ok: bool)
        ensures
            ok == old(self).has_room(kind@),
            ok ==> *final(self) == old(self).counted(kind@),
            !ok ==> *final(self) == *old(self),
    {
        let word = chars_of(kind);
        let special = chars_eq_ignore_case(&word, &chars_of("special"));
        let unique = chars_eq_ignore_case(&word, &chars_of("unique"));
        if (special && self.special == u8::MAX) || (unique && self.unique == u8::MAX) {
            return false;
        }
        if special {
            self.special = self.special + 1;
        }
        if unique {
            self.unique = self.unique + 1;
        }
        true
    }

    /// The omicron that an ability of the given sort stands for, or nothing
    /// for an unknown sort.
    pub fn classify(&self, kind: &str) -> (r: Option<Omicron>)
        ensures
            r == self.tag_of(kind@),
    {
        let word = chars_of(kind);
        if chars_eq(&word, &chars_of("Basic")) {
            Some(Omicron::Basic)
        } else if chars_eq(&word, &chars_of("Leader")) {
            Some(Omicron::Lead)
        } else if chars_eq(&word, &chars_of("Special")) {
            Some(Omicron::Special(self.special))
        } else if chars_eq(&word, &chars_of("Unique")) {
            Some(Omicron::Unique(self.unique))
        } else {
            None
        }
    }
}

} // verus!
