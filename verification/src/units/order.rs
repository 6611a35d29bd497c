//! The catalog in the order of its names.

use vstd::prelude::*;

use crate::text::chars_of;
use crate::units::unit::{Unit, UnitView};
use crate::units::{Units, UnitsView};

verus! {

/// `a` comes no later than `b` in the order of texts: the first character
/// in which they differ decides, by its code, and a text comes before
/// every text that it begins.
pub open spec fn lex_le(a: Seq<char>, b: Seq<char>) -> bool
    decreases a.len(),
{
    if a.len() == 0 {
        true
    } else if b.len() == 0 {
        false
    } else if a[0] == b[0] {
        lex_le(a.drop_first(), b.drop_first())
    } else {
        a[0] < b[0]
    }
}

/// Of two texts one comes no later than the other.
pub proof fn lemma_lex_total(a: Seq<char>, b: Seq<char>)
    ensures
        lex_le(a, b) || lex_le(b, a),
    decreases a.len(),
{
    if a.len() > 0 && b.len() > 0 && a[0] == b[0] {
        lemma_lex_total(a.drop_first(), b.drop_first());
    }
}

/// The order of texts is transitive.
pub proof fn lemma_lex_transitive(a: Seq<char>, b: Seq<char>, c: Seq<char>)
    requires
        lex_le(a, b),
        lex_le(b, c),
    ensures
        lex_le(a, c),
    decreases a.len(),
{
    if a.len() > 0 && b.len() > 0 && c.len() > 0 && a[0] == b[0] && b[0] == c[0] {
        lemma_lex_transitive(a.drop_first(), b.drop_first(), c.drop_first());
    }
}

/// The sequence with `x` set before the first unit whose name comes no
/// earlier than that of `x`, or at the end where there is none.
pub open spec fn insert_by_name(x: UnitView, s: Seq<UnitView>) -> Seq<UnitView>
    decreases s.len(),
{
    if s.len() == 0 {
        seq![x]
    } else if lex_le(x.name, s[0].name) {
        seq![x] + s
    } else {
        seq![s[0]] + insert_by_name(x, s.drop_first())
    }
}

/// The units in the order of their names. Units of one name keep the
/// order that they had.
pub open spec fn sort_by_name(s: Seq<UnitView>) -> Seq<UnitView>
    decreases s.len(),
{
    if s.len() == 0 {
        Seq::empty()
    } else {
        insert_by_name(s[0], sort_by_name(s.drop_first()))
    }
}

/// The names of `s` come in order.
pub open spec fn names_ascend(s: Seq<UnitView>) -> bool {
    forall|i: int, j: int| 0 <= i < j < s.len() ==> lex_le(s[i].name, s[j].name)
}

/// The test for a unit of the given name.
pub open spec fn named(name: Seq<char>) -> spec_fn(UnitView) -> bool {
    |u: UnitView| u.name == name
}

/// Where the first `j` units of `s` have names that come before that of
/// `x`, and the next has not, `x` is set at position `j`.
proof fn lemma_insert_at(x: UnitView, s: Seq<UnitView>, j: int)
    requires
        0 <= j <= s.len(),
        forall|k: int| 0 <= k < j ==> !lex_le(x.name, (#[trigger] s[k]).name),
        j == s.len() || lex_le(x.name, s[j].name),
    ensures
        insert_by_name(x, s) == s.insert(j, x),
    decreases j,
{
    if j == 0 {
        assert(insert_by_name(x, s) =~= s.insert(0, x));
    } else {
        let rest = s.drop_first();
        assert forall|k: int| 0 <= k < j - 1 implies !lex_le(x.name, (#[trigger] rest[k]).name) by {
            assert(rest[k] == s[k + 1]);
        }
        lemma_insert_at(x, rest, j - 1);
        assert(seq![s[0]] + rest.insert(j - 1, x) =~= s.insert(j, x));
    }
}

/// Setting a unit into a sequence adds that unit and nothing else.
proof fn lemma_insert_members(x: UnitView, s: Seq<UnitView>)
    ensures
        insert_by_name(x, s).len() == s.len() + 1,
        insert_by_name(x, s).to_multiset() == s.to_multiset().insert(x),
    decreases s.len(),
{
    broadcast use vstd::seq_lib::group_to_multiset_ensures;

    if s.len() == 0 {
        assert(seq![x] =~= Seq::<UnitView>::empty().push(x));
    } else if lex_le(x.name, s[0].name) {
        vstd::seq_lib::lemma_multiset_commutative(seq![x], s);
        assert(seq![x] =~= Seq::<UnitView>::empty().push(x));
        assert(seq![x].to_multiset() =~= vstd::multiset::Multiset::empty().insert(x));
        assert(insert_by_name(x, s).to_multiset() =~= s.to_multiset().insert(x));
    } else {
        let rest = s.drop_first();
        lemma_insert_members(x, rest);
        let head = seq![s[0]];
        assert(head =~= Seq::<UnitView>::empty().push(s[0]));
        assert(head.to_multiset() =~= vstd::multiset::Multiset::empty().insert(s[0]));
        vstd::seq_lib::lemma_multiset_commutative(head, insert_by_name(x, rest));
        vstd::seq_lib::lemma_multiset_commutative(head, rest);
        assert(s =~= head + rest);
        assert(insert_by_name(x, s).to_multiset() =~= s.to_multiset().insert(x));
    }
}

/// Setting a unit into an ascending sequence leaves it ascending.
proof fn lemma_insert_ascends(x: UnitView, s: Seq<UnitView>)
    requires
        names_ascend(s),
    ensures
        names_ascend(insert_by_name(x, s)),
        forall|i: int|
            0 <= i < insert_by_name(x, s).len() ==> (#[trigger] insert_by_name(x, s)[i]) == x || (
            exists|k: int| 0 <= k < s.len() && s[k] == insert_by_name(x, s)[i]),
    decreases s.len(),
{
    let r = insert_by_name(x, s);
    if s.len() == 0 {
    } else if lex_le(x.name, s[0].name) {
        assert forall|i: int, j: int| 0 <= i < j < r.len() implies lex_le(r[i].name, r[j].name) by {
            if i == 0 {
                assert(r[j] == s[j - 1]);
                if j > 1 {
                    lemma_lex_transitive(x.name, s[0].name, s[j - 1].name);
                }
            } else {
                assert(r[i] == s[i - 1] && r[j] == s[j - 1]);
            }
        }
        assert forall|i: int| 0 <= i < r.len() implies (#[trigger] r[i]) == x || (exists|k: int|
            0 <= k < s.len() && s[k] == r[i]) by {
            if i > 0 {
                assert(s[i - 1] == r[i]);
            }
        }
    } else {
        let rest = s.drop_first();
        assert(names_ascend(rest)) by {
            assert forall|i: int, j: int| 0 <= i < j < rest.len() implies lex_le(
                rest[i].name,
                rest[j].name,
            ) by {
                assert(rest[i] == s[i + 1] && rest[j] == s[j + 1]);
            }
        }
        lemma_insert_ascends(x, rest);
        let tail = insert_by_name(x, rest);
        lemma_lex_total(x.name, s[0].name);
        assert forall|i: int, j: int| 0 <= i < j < r.len() implies lex_le(r[i].name, r[j].name) by {
            assert(r[j] == tail[j - 1]);
            if i == 0 {
                if tail[j - 1] == x {
                } else {
                    let k = choose|k: int| 0 <= k < rest.len() && rest[k] == tail[j - 1];
                    assert(rest[k] == s[k + 1]);
                }
            } else {
                assert(r[i] == tail[i - 1]);
            }
        }
        assert forall|i: int| 0 <= i < r.len() implies (#[trigger] r[i]) == x || (exists|k: int|
            0 <= k < s.len() && s[k] == r[i]) by {
            if i == 0 {
                assert(s[0] == r[0]);
            } else {
                assert(r[i] == tail[i - 1]);
                if tail[i - 1] != x {
                    let k = choose|k: int| 0 <= k < rest.len() && rest[k] == tail[i - 1];
                    assert(s[k + 1] == r[i]);
                }
            }
        }
    }
}

/// Setting a unit into an ascending sequence puts it before the units of
/// its own name and leaves the units of every name in their order.
proof fn lemma_insert_keeps_order(x: UnitView, s: Seq<UnitView>, name: Seq<char>)
    ensures
        insert_by_name(x, s).filter(named(name)) == if x.name == name {
            seq![x] + s.filter(named(name))
        } else {
            s.filter(named(name))
        },
    decreases s.len(),
{
    let p = named(name);
    let one = seq![x];
    assert(one.filter(p) == if p(x) {
        one
    } else {
        Seq::<UnitView>::empty()
    }) by {
        reveal_with_fuel(Seq::filter, 2);
        assert(one.drop_last() =~= Seq::<UnitView>::empty());
        assert(Seq::<UnitView>::empty().push(x) =~= one);
    }
    if s.len() == 0 {
        reveal_with_fuel(Seq::filter, 2);
        assert(s.filter(p) =~= Seq::<UnitView>::empty());
        assert(insert_by_name(x, s).filter(p) =~= if x.name == name {
            seq![x] + s.filter(p)
        } else {
            s.filter(p)
        });
    } else if lex_le(x.name, s[0].name) {
        Seq::filter_distributes_over_add(one, s, p);
        assert(insert_by_name(x, s).filter(p) =~= if x.name == name {
            seq![x] + s.filter(p)
        } else {
            s.filter(p)
        });
    } else {
        let head = seq![s[0]];
        let rest = s.drop_first();
        lemma_insert_keeps_order(x, rest, name);
        assert(head.filter(p) == if p(s[0]) {
            head
        } else {
            Seq::<UnitView>::empty()
        }) by {
            reveal_with_fuel(Seq::filter, 2);
            assert(head.drop_last() =~= Seq::<UnitView>::empty());
            assert(Seq::<UnitView>::empty().push(s[0]) =~= head);
        }
        assert(s =~= head + rest);
        Seq::filter_distributes_over_add(head, rest, p);
        Seq::filter_distributes_over_add(head, insert_by_name(x, rest), p);
        if x.name == name {
            assert(!p(s[0])) by {
                if s[0].name == x.name {
                    lemma_lex_total(x.name, s[0].name);
                }
            }
        }
        assert(insert_by_name(x, s).filter(p) =~= if x.name == name {
            seq![x] + s.filter(p)
        } else {
            s.filter(p)
        });
    }
}

/// Sorting keeps every unit, as often as it occurs, and no other.
pub proof fn lemma_sort_is_permutation(s: Seq<UnitView>)
    ensures
        sort_by_name(s).len() == s.len(),
        sort_by_name(s).to_multiset() == s.to_multiset(),
    decreases s.len(),
{
    broadcast use vstd::seq_lib::group_to_multiset_ensures;

    if s.len() == 0 {
        assert(sort_by_name(s) =~= s);
    } else {
        let rest = s.drop_first();
        lemma_sort_is_permutation(rest);
        lemma_insert_members(s[0], sort_by_name(rest));
        let head = seq![s[0]];
        assert(head =~= Seq::<UnitView>::empty().push(s[0]));
        assert(head.to_multiset() =~= vstd::multiset::Multiset::empty().insert(s[0]));
        vstd::seq_lib::lemma_multiset_commutative(head, rest);
        assert(s =~= head + rest);
        assert(sort_by_name(s).to_multiset() =~= s.to_multiset());
    }
}

/// After sorting the names come in order.
pub proof fn lemma_sort_ascends(s: Seq<UnitView>)
    ensures
        names_ascend(sort_by_name(s)),
    decreases s.len(),
{
    if s.len() > 0 {
        lemma_sort_ascends(s.drop_first());
        lemma_insert_ascends(s[0], sort_by_name(s.drop_first()));
    }
}

/// Sorting is stable: the units of any one name stand in the order in
/// which they stood before.
pub proof fn lemma_sort_is_stable(s: Seq<UnitView>, name: Seq<char>)
    ensures
        sort_by_name(s).filter(named(name)) == s.filter(named(name)),
    decreases s.len(),
{
    let p = named(name);
    if s.len() == 0 {
        assert(sort_by_name(s) =~= s);
    } else {
        let head = seq![s[0]];
        let rest = s.drop_first();
        lemma_sort_is_stable(rest, name);
        lemma_insert_keeps_order(s[0], sort_by_name(rest), name);
        assert(head.filter(p) == if p(s[0]) {
            head
        } else {
            Seq::<UnitView>::empty()
        }) by {
            reveal_with_fuel(Seq::filter, 2);
            assert(head.drop_last() =~= Seq::<UnitView>::empty());
            assert(Seq::<UnitView>::empty().push(s[0]) =~= head);
        }
        assert(s =~= head + rest);
        Seq::filter_distributes_over_add(head, rest, p);
        assert(sort_by_name(s).filter(p) =~= s.filter(p));
    }
}

/// Setting a unit into a sequence puts it at some position and moves
/// nothing else.
proof fn lemma_insert_position(x: UnitView, s: Seq<UnitView>) -> (j: int)
    ensures
        0 <= j <= s.len(),
        insert_by_name(x, s) == s.insert(j, x),
    decreases s.len(),
{
    if s.len() == 0 || lex_le(x.name, s[0].name) {
        assert(insert_by_name(x, s) =~= s.insert(0, x));
        0
    } else {
        let rest = s.drop_first();
        let j = lemma_insert_position(x, rest);
        assert(seq![s[0]] + rest.insert(j, x) =~= s.insert(j + 1, x));
        j + 1
    }
}

/// Every unit of the sorted sequence is a unit of the sequence.
proof fn lemma_sort_members(s: Seq<UnitView>)
    ensures
        forall|i: int|
            0 <= i < sort_by_name(s).len() ==> exists|k: int|
                0 <= k < s.len() && s[k] == #[trigger] sort_by_name(s)[i],
    decreases s.len(),
{
    if s.len() > 0 {
        let rest = s.drop_first();
        let tail = sort_by_name(rest);
        lemma_sort_members(rest);
        let j = lemma_insert_position(s[0], tail);
        let r = sort_by_name(s);
        assert forall|i: int| 0 <= i < r.len() implies exists|k: int|
            0 <= k < s.len() && s[k] == #[trigger] r[i] by {
            if i == j {
                assert(s[0] == r[i]);
            } else {
                let t = if i < j {
                    i
                } else {
                    i - 1
                };
                assert(r[i] == tail[t]);
                let k = choose|k: int| 0 <= k < rest.len() && rest[k] == tail[t];
                assert(s[k + 1] == r[i]);
            }
        }
    }
}

/// Sorting a catalog without duplicate ids leaves it without duplicate
/// ids.
pub proof fn lemma_sort_keeps_unique_ids(units: UnitsView)
    requires
        units.unique_ids(),
    ensures
        (UnitsView { data: sort_by_name(units.data) }).unique_ids(),
    decreases units.data.len(),
{
    let s = units.data;
    if s.len() > 0 {
        let rest = s.drop_first();
        let tail = sort_by_name(rest);
        assert((UnitsView { data: rest }).unique_ids()) by {
            assert forall|a: int, b: int| 0 <= a < b < rest.len() implies !crate::text::eq_ignore_case(
                (#[trigger] rest[a]).id,
                (#[trigger] rest[b]).id,
            ) by {
                assert(rest[a] == s[a + 1] && rest[b] == s[b + 1]);
            }
        }
        lemma_sort_keeps_unique_ids(UnitsView { data: rest });
        lemma_sort_members(rest);
        let j = lemma_insert_position(s[0], tail);
        let r = sort_by_name(s);
        assert forall|a: int, b: int| 0 <= a < b < r.len() implies !crate::text::eq_ignore_case(
            (#[trigger] r[a]).id,
            (#[trigger] r[b]).id,
        ) by {
            let sorted_rest = UnitsView { data: tail };
            assert(sorted_rest.unique_ids());
            if a == j {
                assert(r[a] == s[0]);
                assert(r[b] == tail[b - 1]);
                let k = choose|k: int| 0 <= k < rest.len() && rest[k] == tail[b - 1];
                assert(s[k + 1] == r[b]);
                assert(!crate::text::eq_ignore_case(s[0].id, s[k + 1].id));
            } else if b == j {
                assert(r[b] == s[0]);
                assert(r[a] == tail[a]);
                let k = choose|k: int| 0 <= k < rest.len() && rest[k] == tail[a];
                assert(s[k + 1] == r[a]);
                assert(!crate::text::eq_ignore_case(s[0].id, s[k + 1].id));
            } else {
                let ta = if a < j {
                    a
                } else {
                    a - 1
                };
                let tb = if b < j {
                    b
                } else {
                    b - 1
                };
                assert(r[a] == tail[ta] && r[b] == tail[tb]);
                assert(!crate::text::eq_ignore_case(
                    sorted_rest.data[ta].id,
                    sorted_rest.data[tb].id,
                ));
            }
        }
    }
}

/// Whether `a` comes no later than `b` in the order of texts.
pub fn chars_le(a: &Vec<char>, b: &Vec<char>) -> (r: bool)
    ensures
        r == lex_le(a@, b@),
{
    let mut i: usize = 0;
    assert(a@.skip(0) =~= a@ && b@.skip(0) =~= b@);
    while i < a.len() && i < b.len()
        invariant
            i <= a.len(),
            i <= b.len(),
            lex_le(a@, b@) == lex_le(a@.skip(i as int), b@.skip(i as int)),
        decreases a.len() - i,
    {
        let ghost x = a@.skip(i as int);
        let ghost y = b@.skip(i as int);
        assert(x[0] == a@[i as int] && y[0] == b@[i as int]);
        if a[i] != b[i] {
            return a[i] < b[i];
        }
        assert(x.drop_first() =~= a@.skip(i + 1));
        assert(y.drop_first() =~= b@.skip(i + 1));
        i += 1;
    }
    i == a.len()
}

impl Units {
    /// Puts the catalog in the order of the names of its units. Units of
    /// one name keep their order.
    pub fn sort_by_name(&mut self)
        ensures
            final(self)@.data == sort_by_name(old(self)@.data),
            old(self)@.unique_ids() ==> final(self)@.unique_ids(),
    {
        let ghost before = self@.data;
        let mut sorted: Vec<Unit> = Vec::new();
        assert(before.skip(before.len() as int) =~= Seq::<UnitView>::empty());
        assert(sorted.deep_view() =~= sort_by_name(before.skip(before.len() as int)));
        while self.data.len() > 0
            invariant
                self.data.len() <= before.len(),
                self@.data == before.take(self.data.len() as int),
                sorted.deep_view() == sort_by_name(before.skip(self.data.len() as int)),
            decreases self.data.len(),
        {
            let ghost n = self.data.len() as int;
            let ghost done = sorted.deep_view();
            let unit = self.data.pop().unwrap();
            assert(unit@ == before[n - 1]) by {
                assert(before.take(n)[n - 1] == before[n - 1]);
            }
            let name = chars_of(unit.name.as_str());
            let mut j: usize = 0;
            while j < sorted.len() && !chars_le(&name, &chars_of(sorted[j].name.as_str()))
                invariant
                    j <= sorted.len(),
                    name@ == unit@.name,
                    sorted.deep_view() == done,
                    forall|k: int| 0 <= k < j ==> !lex_le(unit@.name, (#[trigger] done[k]).name),
                decreases sorted.len() - j,
            {
                j += 1;
            }
            proof {
                lemma_insert_at(unit@, done, j as int);
                let rest = before.skip(n - 1);
                assert(rest[0] == before[n - 1]);
                assert(rest.drop_first() =~= before.skip(n));
            }
            sorted.insert(j, unit);
            assert(sorted.deep_view() =~= done.insert(j as int, before[n - 1]));
            assert(self@.data =~= before.take(n - 1));
        }
        assert(before.skip(0) =~= before);
        self.data = sorted;
        proof {
            if old(self)@.unique_ids() {
                lemma_sort_keeps_unique_ids(old(self)@);
            }
        }
    }
}

} // verus!
