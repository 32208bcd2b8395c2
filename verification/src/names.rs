//! Names in order.
use crate::table::Table;
use crate::text::chars_of;
use vstd::prelude::*;

verus! {

/// The order of texts: by the first character in which they differ, a prefix
/// before the longer text.
pub open spec fn text_less(a: Seq<char>, b: Seq<char>) -> bool
    decreases a.len(),
{
    if b.len() == 0 {
        false
    } else if a.len() == 0 {
        true
    } else if a[0] != b[0] {
        (a[0] as int) < (b[0] as int)
    } else {
        text_less(a.drop_first(), b.drop_first())
    }
}

proof fn lemma_less_irreflexive(a: Seq<char>)
    ensures
        !text_less(a, a),
    decreases a.len(),
{
    if a.len() > 0 {
        lemma_less_irreflexive(a.drop_first());
    }
}

proof fn lemma_less_transitive(a: Seq<char>, b: Seq<char>, c: Seq<char>)
    requires
        text_less(a, b),
        text_less(b, c),
    ensures
        text_less(a, c),
    decreases a.len(),
{
    if a.len() > 0 && a[0] == b[0] && b[0] == c[0] {
        lemma_less_transitive(a.drop_first(), b.drop_first(), c.drop_first());
    }
}

proof fn lemma_less_total(a: Seq<char>, b: Seq<char>)
    ensures
        a == b || text_less(a, b) || text_less(b, a),
    decreases a.len(),
{
    if a.len() == 0 && b.len() == 0 {
        assert(a =~= b);
    } else if a.len() > 0 && b.len() > 0 && a[0] == b[0] {
        lemma_less_total(a.drop_first(), b.drop_first());
        if a.drop_first() == b.drop_first() {
            assert(a =~= b) by {
                assert(a.drop_first().len() == b.drop_first().len());
                assert forall|i: int| 0 <= i < a.len() implies a[i] == b[i] by {
                    if i > 0 {
                        assert(a.drop_first()[i - 1] == b.drop_first()[i - 1]);
                    }
                }
            }
        }
    }
}

/// Whether a text comes before another.
pub fn comes_before(a: &str, b: &str) -> (r: bool)
    ensures
        r == text_less(a@, b@),
{
    let x = chars_of(a);
    let y = chars_of(b);
    let mut i: usize = 0;
    assert(x@.skip(0) =~= x@);
    assert(y@.skip(0) =~= y@);
    loop
        invariant
            x@ == a@,
            y@ == b@,
            i <= x@.len(),
            i <= y@.len(),
            text_less(x@.skip(i as int), y@.skip(i as int)) == text_less(x@, y@),
        decreases x@.len() - i,
    {
        let ghost p = x@.skip(i as int);
        let ghost q = y@.skip(i as int);
        if i == y.len() {
            return false;
        }
        if i == x.len() {
            return true;
        }
        assert(p[0] == x@[i as int] && q[0] == y@[i as int]);
        let c: char = x[i];
        let d: char = y[i];
        if c != d {
            return c < d;
        }
        assert(p.drop_first() =~= x@.skip(i + 1));
        assert(q.drop_first() =~= y@.skip(i + 1));
        i = i + 1;
    }
}

/// Every text after those before it.
pub open spec fn ascending(s: Seq<Seq<char>>) -> bool {
    forall|i: int, j: int|
        0 <= i < j < s.len() ==> text_less(#[trigger] s[i], #[trigger] s[j])
}

/// A set of names, each once, in order.
pub open spec fn lists(s: Seq<Seq<char>>, names: Set<Seq<char>>) -> bool {
    ascending(s) && forall|n: Seq<char>| s.contains(n) <==> #[trigger] names.contains(n)
}

/// The names of a set in order.
pub open spec fn in_order(names: Set<Seq<char>>) -> Seq<Seq<char>> {
    choose|s: Seq<Seq<char>>| lists(s, names)
}

proof fn lemma_one_listing(a: Seq<Seq<char>>, b: Seq<Seq<char>>)
    requires
        ascending(a),
        ascending(b),
        forall|n: Seq<char>| a.contains(n) <==> b.contains(n),
    ensures
        a == b,
    decreases a.len(),
{
    if a.len() == 0 {
        if b.len() > 0 {
            assert(b.contains(b[0]));
            assert(a.contains(b[0]));
        }
        assert(a =~= b);
    } else {
        assert(a.contains(a.last()));
        assert(b.contains(a.last()));
        assert(b.contains(b.last()));
        assert(a.contains(b.last()));
        let i = choose|i: int| 0 <= i < a.len() && a[i] == b.last();
        let j = choose|j: int| 0 <= j < b.len() && b[j] == a.last();
        if a.last() != b.last() {
            assert(i < a.len() - 1);
            assert(j < b.len() - 1);
            assert(text_less(a[i], a[a.len() - 1]));
            assert(text_less(b[j], b[b.len() - 1]));
            lemma_less_transitive(a.last(), b.last(), a.last());
            lemma_less_irreflexive(a.last());
        }
        let x = a.drop_last();
        let y = b.drop_last();
        assert(forall|i: int| 0 <= i < x.len() ==> x[i] == a[i]);
        assert(forall|i: int| 0 <= i < y.len() ==> y[i] == b[i]);
        assert forall|n: Seq<char>| x.contains(n) <==> y.contains(n) by {
            if x.contains(n) {
                let k = choose|k: int| 0 <= k < x.len() && x[k] == n;
                assert(a[k] == n);
                assert(text_less(a[k], a[a.len() - 1]));
                lemma_less_irreflexive(n);
                assert(a.contains(n));
                assert(b.contains(n));
                let m = choose|m: int| 0 <= m < b.len() && b[m] == n;
                assert(m < y.len());
                assert(y[m] == n);
            }
            if y.contains(n) {
                let k = choose|k: int| 0 <= k < y.len() && y[k] == n;
                assert(b[k] == n);
                assert(text_less(b[k], b[b.len() - 1]));
                lemma_less_irreflexive(n);
                assert(b.contains(n));
                assert(a.contains(n));
                let m = choose|m: int| 0 <= m < a.len() && a[m] == n;
                assert(m < x.len());
                assert(x[m] == n);
            }
        }
        assert(ascending(x));
        assert(ascending(y));
        lemma_one_listing(x, y);
        assert(a =~= x.push(a.last()));
        assert(b =~= y.push(b.last()));
    }
}

/// There is one way to list a set in order.
pub proof fn law_listing_is_unique(s: Seq<Seq<char>>, names: Set<Seq<char>>)
    requires
        lists(s, names),
    ensures
        s == in_order(names),
{
    let t = in_order(names);
    assert(lists(t, names));
    assert forall|n: Seq<char>| s.contains(n) <==> t.contains(n) by {
        assert(names.contains(n) <==> s.contains(n));
        assert(names.contains(n) <==> t.contains(n));
    }
    lemma_one_listing(s, t);
}

/// Puts a name into its place among others in order. A name that is already
/// there is not put in again.
fn insert_name(names: &mut Vec<String>, name: String)
    requires
        ascending(crate::text::texts(old(names)@)),
    ensures
        ascending(crate::text::texts(final(names)@)),
        forall|n: Seq<char>| #[trigger]
            crate::text::texts(final(names)@).contains(n) <==> crate::text::texts(
                old(names)@,
            ).contains(n) || n == name@,
{
    let ghost before = crate::text::texts(names@);
    let mut i: usize = 0;
    while i < names.len() && comes_before(names[i].as_str(), name.as_str())
        invariant
            i <= names@.len(),
            before == crate::text::texts(names@),
            forall|j: int| 0 <= j < i ==> text_less(#[trigger] before[j], name@),
        decreases names@.len() - i,
    {
        assert(before[i as int] == names@[i as int]@);
        i = i + 1;
    }
    if i < names.len() && !comes_before(name.as_str(), names[i].as_str()) {
        proof {
            assert(before[i as int] == names@[i as int]@);
            lemma_less_total(before[i as int], name@);
            assert(before.contains(name@));
        }
        return;
    }
    let ghost had = names@;
    let ghost n0 = name@;
    names.insert(i, name);
    proof {
        let after = crate::text::texts(names@);
        assert(after =~= before.insert(i as int, n0));
        assert forall|a: int, b: int| 0 <= a < b < after.len() implies text_less(
            #[trigger] after[a],
            #[trigger] after[b],
        ) by {
            if b < i {
                assert(text_less(before[a], before[b]));
            } else if b == i {
                assert(text_less(before[a], n0));
            } else if a < i {
                assert(text_less(before[a], before[b - 1]));
            } else if a == i {
                assert(before[i as int] == had[i as int]@);
                if b - 1 > i {
                    assert(text_less(before[i as int], before[b - 1]));
                    lemma_less_transitive(n0, before[i as int], before[b - 1]);
                }
            } else {
                assert(text_less(before[a - 1], before[b - 1]));
            }
        }
        assert forall|n: Seq<char>| #[trigger] after.contains(n) <==> before.contains(n) || n
            == n0 by {
            if before.contains(n) {
                let k = choose|k: int| 0 <= k < before.len() && before[k] == n;
                if k < i {
                    assert(after[k] == n);
                } else {
                    assert(after[k + 1] == n);
                }
            }
            if n == n0 {
                assert(after[i as int] == n);
            }
            if after.contains(n) {
                let k = choose|k: int| 0 <= k < after.len() && after[k] == n;
                if k < i {
                    assert(before[k] == n);
                } else if k > i {
                    assert(before[k - 1] == n);
                }
            }
        }
    }
}

/// The names of a table's entries, in order.
pub fn sorted_names<V: View>(table: &Table<String, V>) -> (r: Vec<String>)
    requires
        table.wf(),
    ensures
        crate::text::texts(r@) == in_order(table@.dom()),
        lists(crate::text::texts(r@), table@.dom()),
{
    let ghost list = table.list();
    let mut out: Vec<String> = Vec::new();
    let mut i: usize = 0;
    while i < table.entries.len()
        invariant
            list == table.list(),
            i <= table.entries@.len(),
            ascending(crate::text::texts(out@)),
            forall|n: Seq<char>| #[trigger]
                crate::text::texts(out@).contains(n) <==> crate::table::has_key(
                    list.take(i as int),
                    n,
                ),
        decreases table.entries@.len() - i,
    {
        let ghost done = list.take(i as int);
        let ghost next = list.take(i + 1);
        insert_name(&mut out, table.entries[i].0.clone());
        proof {
            assert(list[i as int] == crate::table::seen(table.entries@[i as int]));
            assert forall|n: Seq<char>| #[trigger]
                crate::text::texts(out@).contains(n) <==> crate::table::has_key(next, n) by {
                if crate::table::has_key(done, n) {
                    let k = crate::table::position(done, n);
                    assert(next[k] == done[k]);
                }
                if n == list[i as int].0 {
                    assert(next[i as int].0 == n);
                }
                if crate::table::has_key(next, n) {
                    let k = crate::table::position(next, n);
                    if k < i {
                        assert(done[k] == next[k]);
                        assert(crate::table::has_key(done, n));
                    }
                }
            }
        }
        i = i + 1;
    }
    proof {
        assert(list.take(i as int) =~= list);
        let s = crate::text::texts(out@);
        assert forall|n: Seq<char>| s.contains(n) <==> #[trigger] table@.dom().contains(n) by {
            assert(s.contains(n) <==> crate::table::has_key(list, n));
        }
        law_listing_is_unique(s, table@.dom());
    }
    out
}

// ---- texts that may repeat ----

/// Whether a text may stand before another: it is the same, or comes first.
pub open spec fn text_order() -> spec_fn(Seq<char>, Seq<char>) -> bool {
    |a: Seq<char>, b: Seq<char>| !text_less(b, a)
}

/// Texts in order. One that stands there twice stands there twice.
pub open spec fn sorted(lines: Seq<Seq<char>>) -> Seq<Seq<char>> {
    lines.sort_by(text_order())
}

proof fn lemma_text_order()
    ensures
        vstd::relations::total_ordering(text_order()),
{
    let le = text_order();
    assert forall|a: Seq<char>| #[trigger] le(a, a) by {
        lemma_less_irreflexive(a);
    }
    assert forall|a: Seq<char>, b: Seq<char>| #[trigger] le(a, b) && #[trigger] le(b, a) implies a
        == b by {
        lemma_less_total(a, b);
    }
    assert forall|a: Seq<char>, b: Seq<char>| #[trigger] le(a, b) || #[trigger] le(b, a) by {
        if text_less(a, b) && text_less(b, a) {
            lemma_less_transitive(a, b, a);
            lemma_less_irreflexive(a);
        }
    }
    assert forall|a: Seq<char>, b: Seq<char>, c: Seq<char>| #[trigger]
        le(a, b) && #[trigger] le(b, c) implies le(a, c) by {
        if text_less(c, a) {
            lemma_less_total(a, b);
            lemma_less_total(b, c);
            if a != b && b != c {
                lemma_less_transitive(c, a, b);
            }
        }
    }
}

/// Puts a text into its place among others in order.
fn insert_text(lines: &mut Vec<String>, line: String)
    requires
        vstd::relations::sorted_by(crate::text::texts(old(lines)@), text_order()),
    ensures
        vstd::relations::sorted_by(crate::text::texts(final(lines)@), text_order()),
        crate::text::texts(final(lines)@).to_multiset() == crate::text::texts(
            old(lines)@,
        ).to_multiset().insert(line@),
{
    let ghost before = crate::text::texts(lines@);
    let ghost le = text_order();
    let mut i: usize = 0;
    while i < lines.len() && !comes_before(line.as_str(), lines[i].as_str())
        invariant
            i <= lines@.len(),
            before == crate::text::texts(lines@),
            le == text_order(),
            forall|j: int| 0 <= j < i ==> #[trigger] le(before[j], line@),
        decreases lines@.len() - i,
    {
        assert(before[i as int] == lines@[i as int]@);
        i = i + 1;
    }
    let ghost had = lines@;
    let ghost new = line@;
    lines.insert(i, line);
    proof {
        lemma_text_order();
        let after = crate::text::texts(lines@);
        assert(after =~= before.insert(i as int, new));
        vstd::seq_lib::to_multiset_insert(before, i as int, new);
        if i < had.len() {
            assert(before[i as int] == had[i as int]@);
            assert(le(before[i as int], new) || le(new, before[i as int]));
            lemma_less_total(before[i as int], new);
        }
        assert forall|a: int, b: int| 0 <= a < b < after.len() implies #[trigger] le(
            after[a],
            after[b],
        ) by {
            if b < i {
                assert(le(before[a], before[b]));
            } else if b == i {
                assert(le(before[a], new));
            } else if a < i {
                assert(le(before[a], before[b - 1]));
            } else if a == i {
                assert(le(new, before[i as int]));
                if b - 1 > i {
                    assert(le(before[i as int], before[b - 1]));
                }
            } else {
                assert(le(before[a - 1], before[b - 1]));
            }
        }
    }
}

/// Some texts in order.
pub fn sorted_texts(lines: &Vec<String>) -> (r: Vec<String>)
    ensures
        crate::text::texts(r@) == sorted(crate::text::texts(lines@)),
{
    let ghost all = crate::text::texts(lines@);
    let mut out: Vec<String> = Vec::new();
    let mut i: usize = 0;
    proof {
        assert(all.take(0) =~= Seq::<Seq<char>>::empty());
        assert(crate::text::texts(out@) =~= Seq::<Seq<char>>::empty());
    }
    while i < lines.len()
        invariant
            all == crate::text::texts(lines@),
            i <= lines@.len(),
            vstd::relations::sorted_by(crate::text::texts(out@), text_order()),
            crate::text::texts(out@).to_multiset() == all.take(i as int).to_multiset(),
        decreases lines@.len() - i,
    {
        insert_text(&mut out, lines[i].clone());
        proof {
            assert(all.take(i + 1) =~= all.take(i as int).push(lines@[i as int]@));
            vstd::seq_lib::to_multiset_build(all.take(i as int), lines@[i as int]@);
        }
        i = i + 1;
    }
    proof {
        assert(all.take(i as int) =~= all);
        lemma_text_order();
        all.lemma_sort_by_ensures(text_order());
        vstd::seq_lib::lemma_sorted_unique(crate::text::texts(out@), sorted(all), text_order());
    }
    out
}

// ---- laws ----

/// Names are ordered by the first character in which they differ; a name comes before
/// every longer one that begins with it.
pub proof fn law_names_are_ordered_by_their_first_difference(
    common: Seq<char>,
    a: char,
    b: char,
    x: Seq<char>,
    y: Seq<char>,
)
    ensures
        a != b ==> (text_less(common + seq![a] + x, common + seq![b] + y) <==> (a as int) < (
        b as int)),
        text_less(common, common + seq![a] + x),
        !text_less(common + seq![a] + x, common),
    decreases common.len(),
{
    let p = common + seq![a] + x;
    let q = common + seq![b] + y;
    if common.len() > 0 {
        let rest = common.drop_first();
        law_names_are_ordered_by_their_first_difference(rest, a, b, x, y);
        assert(p.drop_first() =~= rest + seq![a] + x);
        assert(q.drop_first() =~= rest + seq![b] + y);
        assert(p[0] == common[0] && q[0] == common[0]);
    } else {
        assert(p[0] == a && q[0] == b);
    }
}

/// A listing holds every name once and no other, in order.
pub proof fn law_listings_are_complete(s: Seq<Seq<char>>, names: Set<Seq<char>>)
    requires
        lists(s, names),
    ensures
        s.no_duplicates(),
        forall|n: Seq<char>| names.contains(n) <==> #[trigger] s.contains(n),
        forall|i: int, j: int| 0 <= i < j < s.len() ==> text_less(#[trigger] s[i], #[trigger] s[j]),
{
    assert forall|i: int, j: int| 0 <= i < s.len() && 0 <= j < s.len() && i != j implies s[i]
        != s[j] by {
        if i < j {
            assert(text_less(s[i], s[j]));
        } else {
            assert(text_less(s[j], s[i]));
        }
        lemma_less_irreflexive(s[i]);
    }
}

/// Sorting keeps every text as often as it stood there, and puts none before one that
/// comes first.
pub proof fn law_sorting_keeps_every_text(lines: Seq<Seq<char>>)
    ensures
        sorted(lines).to_multiset() == lines.to_multiset(),
        sorted(lines).len() == lines.len(),
        forall|i: int, j: int|
            0 <= i < j < sorted(lines).len() ==> !text_less(
                #[trigger] sorted(lines)[j],
                #[trigger] sorted(lines)[i],
            ),
{
    lemma_text_order();
    lines.lemma_sort_by_ensures(text_order());
    lines.to_multiset_ensures();
    sorted(lines).to_multiset_ensures();
    let le = text_order();
    assert forall|i: int, j: int| 0 <= i < j < sorted(lines).len() implies !text_less(
        #[trigger] sorted(lines)[j],
        #[trigger] sorted(lines)[i],
    ) by {
        assert(le(sorted(lines)[i], sorted(lines)[j]));
    }
}

} // verus!
