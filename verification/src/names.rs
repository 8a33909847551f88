//! The order in which names are listed, and lists of names kept in that
//! order without repeats.

use crate::text::{chars_of, words};
use vstd::prelude::*;

verus! {

/// How one name stands to another in the listing order.
#[derive(Clone, Copy, Debug, PartialEq, Eq, Structural)]
pub enum Rank {
    Before,
    Same,
    After,
}

/// The number of a character, by which characters are ordered.
pub open spec fn code(c: char) -> int {
    c as int
}

/// `a` and `b` agree on their first `k` characters, and there `a` ends
/// while `b` goes on, or `a` has the character of the lower number.
pub open spec fn differ_at(a: Seq<char>, b: Seq<char>, k: int) -> bool {
    &&& 0 <= k <= a.len()
    &&& k <= b.len()
    &&& forall|i: int| 0 <= i < k ==> a[i] == b[i]
    &&& (k == a.len() && k < b.len()) || (k < a.len() && k < b.len() && code(a[k]) < code(b[k]))
}

/// `a` is listed before `b`: the order of a dictionary, character by
/// character by number.
pub open spec fn sorts_before(a: Seq<char>, b: Seq<char>) -> bool {
    exists|k: int| differ_at(a, b, k)
}

/// No name is listed before itself.
pub proof fn lemma_not_before_itself(a: Seq<char>)
    ensures
        !sorts_before(a, a),
{
    if sorts_before(a, a) {
        let k = choose|k: int| differ_at(a, a, k);
        assert(differ_at(a, a, k));
    }
}

/// The listing order is transitive.
pub proof fn lemma_before_transitive(a: Seq<char>, b: Seq<char>, c: Seq<char>)
    requires
        sorts_before(a, b),
        sorts_before(b, c),
    ensures
        sorts_before(a, c),
{
    let k1 = choose|k: int| differ_at(a, b, k);
    let k2 = choose|k: int| differ_at(b, c, k);
    assert(differ_at(a, b, k1));
    assert(differ_at(b, c, k2));
    if k1 <= k2 {
        assert forall|i: int| 0 <= i < k1 implies a[i] == c[i] by {
            assert(a[i] == b[i]);
            assert(b[i] == c[i]);
        }
        if k1 < k2 && k1 < a.len() {
            assert(b[k1] == c[k1]);
        }
        assert(differ_at(a, c, k1));
    } else {
        assert forall|i: int| 0 <= i < k2 implies a[i] == c[i] by {
            assert(a[i] == b[i]);
            assert(b[i] == c[i]);
        }
        assert(a[k2] == b[k2]);
        assert(differ_at(a, c, k2));
    }
}

/// Of two names, at most one is listed before the other.
pub proof fn lemma_before_asymmetric(a: Seq<char>, b: Seq<char>)
    requires
        sorts_before(a, b),
    ensures
        !sorts_before(b, a),
{
    if sorts_before(b, a) {
        lemma_before_transitive(a, b, a);
        lemma_not_before_itself(a);
    }
}

/// Two names that agree on their first `k` characters and are not the
/// same are listed one before the other.
pub proof fn lemma_before_total_from(a: Seq<char>, b: Seq<char>, k: int)
    requires
        0 <= k <= a.len(),
        k <= b.len(),
        forall|i: int| 0 <= i < k ==> a[i] == b[i],
        a != b,
    ensures
        sorts_before(a, b) || sorts_before(b, a),
    decreases a.len() - k,
{
    if k == a.len() {
        if k == b.len() {
            assert(a =~= b);
        } else {
            assert(differ_at(a, b, k));
        }
    } else if k == b.len() {
        assert(differ_at(b, a, k));
    } else if a[k] != b[k] {
        if code(a[k]) < code(b[k]) {
            assert(differ_at(a, b, k));
        } else {
            assert(code(b[k]) < code(a[k]));
            assert(differ_at(b, a, k));
        }
    } else {
        lemma_before_total_from(a, b, k + 1);
    }
}

/// Two different names are listed one before the other.
pub proof fn lemma_before_total(a: Seq<char>, b: Seq<char>)
    requires
        a != b,
    ensures
        sorts_before(a, b) || sorts_before(b, a),
{
    lemma_before_total_from(a, b, 0);
}

/// How `a` stands to `b` in the listing order.
pub fn rank(a: &str, b: &str) -> (r: Rank)
    ensures
        r == Rank::Before <==> sorts_before(a@, b@),
        r == Rank::Same <==> a@ == b@,
        r == Rank::After <==> sorts_before(b@, a@),
{
    let x = chars_of(a);
    let y = chars_of(b);
    let mut k: usize = 0;
    while k < x.len() && k < y.len() && x[k] == y[k]
        invariant
            k <= x.len(),
            k <= y.len(),
            x@ == a@,
            y@ == b@,
            forall|i: int| 0 <= i < k ==> a@[i] == b@[i],
        decreases x.len() - k,
    {
        k = k + 1;
    }
    let r = if k == x.len() {
        if k == y.len() {
            assert(a@ =~= b@);
            Rank::Same
        } else {
            assert(differ_at(a@, b@, k as int));
            Rank::Before
        }
    } else if k == y.len() {
        assert(differ_at(b@, a@, k as int));
        Rank::After
    } else if x[k] < y[k] {
        assert(differ_at(a@, b@, k as int));
        Rank::Before
    } else {
        assert(code(b@[k as int]) < code(a@[k as int]));
        assert(differ_at(b@, a@, k as int));
        Rank::After
    };
    proof {
        lemma_not_before_itself(a@);
        if sorts_before(a@, b@) {
            lemma_before_asymmetric(a@, b@);
        }
    }
    r
}

/// Each name is listed before all that follow it.
pub open spec fn ascending(names: Seq<Seq<char>>) -> bool {
    forall|i: int, j: int|
        0 <= i < j < names.len() ==> sorts_before(#[trigger] names[i], #[trigger] names[j])
}

/// In an ascending list no name stands twice.
pub proof fn lemma_ascending_distinct(names: Seq<Seq<char>>)
    requires
        ascending(names),
    ensures
        names.no_duplicates(),
{
    assert forall|i: int, j: int| 0 <= i < names.len() && 0 <= j < names.len() && i
        != j implies names[i] != names[j] by {
        if i < j {
            assert(sorts_before(names[i], names[j]));
            lemma_not_before_itself(names[i]);
        } else {
            assert(sorts_before(names[j], names[i]));
            lemma_not_before_itself(names[i]);
        }
    }
}

/// Two ascending lists of the same names are the same list.
pub proof fn lemma_ascending_unique(a: Seq<Seq<char>>, b: Seq<Seq<char>>)
    requires
        ascending(a),
        ascending(b),
        a.to_set() == b.to_set(),
    ensures
        a == b,
    decreases a.len(),
{
    if a.len() == 0 {
        if b.len() > 0 {
            assert(b.to_set().contains(b[0]));
            assert(a.contains(b[0]));
        }
        assert(a =~= b);
    } else if b.len() == 0 {
        assert(a.to_set().contains(a[0]));
        assert(b.contains(a[0]));
    } else {
        let x = a.last();
        let y = b.last();
        assert(a.to_set().contains(x));
        assert(b.contains(x));
        assert(b.to_set().contains(y));
        assert(a.contains(y));
        let i = choose|i: int| 0 <= i < b.len() && b[i] == x;
        let j = choose|j: int| 0 <= j < a.len() && a[j] == y;
        if x != y {
            assert(i < b.len() - 1);
            assert(sorts_before(b[i], b[b.len() - 1]));
            assert(j < a.len() - 1);
            assert(sorts_before(a[j], a[a.len() - 1]));
            lemma_before_asymmetric(x, y);
        }
        let a0 = a.drop_last();
        let b0 = b.drop_last();
        assert(ascending(a0)) by {
            assert forall|p: int, q: int| 0 <= p < q < a0.len() implies sorts_before(
                #[trigger] a0[p],
                #[trigger] a0[q],
            ) by {
                assert(sorts_before(a[p], a[q]));
            }
        }
        assert(ascending(b0)) by {
            assert forall|p: int, q: int| 0 <= p < q < b0.len() implies sorts_before(
                #[trigger] b0[p],
                #[trigger] b0[q],
            ) by {
                assert(sorts_before(b[p], b[q]));
            }
        }
        assert forall|n: Seq<char>| a0.to_set().contains(n) == b0.to_set().contains(n) by {
            if a0.contains(n) {
                let p = choose|p: int| 0 <= p < a0.len() && a0[p] == n;
                assert(sorts_before(a[p], a[a.len() - 1]));
                lemma_not_before_itself(x);
                assert(n != x);
                assert(a.to_set().contains(a[p]));
                assert(b.contains(n));
                let q = choose|q: int| 0 <= q < b.len() && b[q] == n;
                assert(b0[q] == n);
            }
            if b0.contains(n) {
                let p = choose|p: int| 0 <= p < b0.len() && b0[p] == n;
                assert(sorts_before(b[p], b[b.len() - 1]));
                lemma_not_before_itself(y);
                assert(n != y);
                assert(b.to_set().contains(b[p]));
                assert(a.contains(n));
                let q = choose|q: int| 0 <= q < a.len() && a[q] == n;
                assert(a0[q] == n);
            }
        }
        assert(a0.to_set() =~= b0.to_set());
        lemma_ascending_unique(a0, b0);
        assert(a =~= a0.push(x));
        assert(b =~= b0.push(y));
    }
}

/// `names` with `x` put in its place in the listing order, unless it is
/// there already.
pub open spec fn insert_sorted(names: Seq<Seq<char>>, x: Seq<char>) -> Seq<Seq<char>>
    decreases names.len(),
{
    if names.len() == 0 {
        seq![x]
    } else if names.last() == x {
        names
    } else if sorts_before(names.last(), x) {
        names.push(x)
    } else {
        insert_sorted(names.drop_last(), x).push(names.last())
    }
}

/// Putting a name into an ascending list gives an ascending list of the
/// names that were there and the new one.
pub proof fn lemma_insert_sorted(names: Seq<Seq<char>>, x: Seq<char>)
    requires
        ascending(names),
    ensures
        ascending(insert_sorted(names, x)),
        insert_sorted(names, x).to_set() == names.to_set().insert(x),
    decreases names.len(),
{
    let r = insert_sorted(names, x);
    if names.len() == 0 {
        assert(r.to_set() =~= names.to_set().insert(x)) by {
            assert forall|n: Seq<char>| r.to_set().contains(n) == names.to_set().insert(
                x,
            ).contains(n) by {
                if n == x {
                    assert(r[0] == x);
                }
            }
        }
    } else if names.last() == x {
        assert(names.to_set().contains(names[names.len() - 1]));
        assert(r.to_set() =~= names.to_set().insert(x));
    } else if sorts_before(names.last(), x) {
        assert forall|i: int, j: int| 0 <= i < j < r.len() implies sorts_before(
            #[trigger] r[i],
            #[trigger] r[j],
        ) by {
            if j < names.len() {
                assert(sorts_before(names[i], names[j]));
            } else if i < names.len() - 1 {
                assert(sorts_before(names[i], names[names.len() - 1]));
                lemma_before_transitive(names[i], names.last(), x);
            }
        }
        assert forall|n: Seq<char>| r.to_set().contains(n) == names.to_set().insert(x).contains(
            n,
        ) by {
            if n == x {
                assert(r[r.len() - 1] == x);
            }
            if names.contains(n) {
                let p = choose|p: int| 0 <= p < names.len() && names[p] == n;
                assert(r[p] == n);
            }
            if r.contains(n) {
                let p = choose|p: int| 0 <= p < r.len() && r[p] == n;
                if p < names.len() {
                    assert(names[p] == n);
                }
            }
        }
        assert(r.to_set() =~= names.to_set().insert(x));
    } else {
        let shorter = names.drop_last();
        let last = names.last();
        assert(ascending(shorter)) by {
            assert forall|p: int, q: int| 0 <= p < q < shorter.len() implies sorts_before(
                #[trigger] shorter[p],
                #[trigger] shorter[q],
            ) by {
                assert(sorts_before(names[p], names[q]));
            }
        }
        lemma_insert_sorted(shorter, x);
        lemma_before_total(last, x);
        let inner = insert_sorted(shorter, x);
        assert forall|i: int, j: int| 0 <= i < j < r.len() implies sorts_before(
            #[trigger] r[i],
            #[trigger] r[j],
        ) by {
            if j < inner.len() {
                assert(sorts_before(inner[i], inner[j]));
            } else {
                assert(inner.to_set().contains(inner[i]));
                assert(shorter.to_set().insert(x).contains(inner[i]));
                if inner[i] != x {
                    assert(shorter.contains(inner[i]));
                    let p = choose|p: int| 0 <= p < shorter.len() && shorter[p] == inner[i];
                    assert(sorts_before(names[p], names[names.len() - 1]));
                }
            }
        }
        assert forall|n: Seq<char>| r.to_set().contains(n) == names.to_set().insert(x).contains(
            n,
        ) by {
            if r.contains(n) {
                let p = choose|p: int| 0 <= p < r.len() && r[p] == n;
                if p < inner.len() {
                    assert(inner.to_set().contains(inner[p]));
                    if n != x {
                        assert(shorter.contains(n));
                        let q = choose|q: int| 0 <= q < shorter.len() && shorter[q] == n;
                        assert(names[q] == n);
                    }
                } else {
                    assert(names[names.len() - 1] == n);
                }
            }
            if names.contains(n) {
                let p = choose|p: int| 0 <= p < names.len() && names[p] == n;
                if p < shorter.len() {
                    assert(shorter[p] == n);
                    assert(shorter.to_set().insert(x).contains(n));
                    assert(inner.contains(n));
                    let q = choose|q: int| 0 <= q < inner.len() && inner[q] == n;
                    assert(r[q] == n);
                } else {
                    assert(r[r.len() - 1] == n);
                }
            }
            if n == x {
                assert(shorter.to_set().insert(x).contains(x));
                assert(inner.contains(x));
                let q = choose|q: int| 0 <= q < inner.len() && inner[q] == x;
                assert(r[q] == x);
            }
        }
        assert(r.to_set() =~= names.to_set().insert(x));
    }
}

/// `names` with each of `items` put in its place, in their order.
pub open spec fn insert_all(names: Seq<Seq<char>>, items: Seq<Seq<char>>) -> Seq<Seq<char>>
    decreases items.len(),
{
    if items.len() == 0 {
        names
    } else {
        insert_sorted(insert_all(names, items.drop_last()), items.last())
    }
}

/// Putting names into an ascending list gives an ascending list of the
/// names that were there and the new ones.
pub proof fn lemma_insert_all(names: Seq<Seq<char>>, items: Seq<Seq<char>>)
    requires
        ascending(names),
    ensures
        ascending(insert_all(names, items)),
        insert_all(names, items).to_set() == names.to_set() + items.to_set(),
    decreases items.len(),
{
    if items.len() == 0 {
        assert(names.to_set() + items.to_set() =~= names.to_set());
    } else {
        let shorter = items.drop_last();
        lemma_insert_all(names, shorter);
        lemma_insert_sorted(insert_all(names, shorter), items.last());
        assert forall|n: Seq<char>| (names.to_set() + shorter.to_set()).insert(
            items.last(),
        ).contains(n) == (names.to_set() + items.to_set()).contains(n) by {
            if shorter.contains(n) {
                let p = choose|p: int| 0 <= p < shorter.len() && shorter[p] == n;
                assert(items[p] == n);
            }
            if items.contains(n) {
                let p = choose|p: int| 0 <= p < items.len() && items[p] == n;
                if p < shorter.len() {
                    assert(shorter[p] == n);
                }
            }
            if n == items.last() {
                assert(items[items.len() - 1] == n);
            }
        }
        assert((names.to_set() + shorter.to_set()).insert(items.last()) =~= names.to_set()
            + items.to_set());
    }
}

/// Puts `name` into the ascending list `names`, unless it is there
/// already.
pub fn insert_name(names: &mut Vec<String>, name: String)
    requires
        ascending(words(old(names)@)),
    ensures
        words(final(names)@) == insert_sorted(words(old(names)@), name@),
        ascending(words(final(names)@)),
        words(final(names)@).to_set() == words(old(names)@).to_set().insert(name@),
{
    let ghost before = words(names@);
    let ghost x = name@;
    let mut p: usize = 0;
    let mut found: bool = false;
    while p < names.len()
        invariant_except_break
            !found,
        invariant
            p <= names.len(),
            words(names@) == before,
            x == name@,
            forall|i: int| 0 <= i < p ==> sorts_before(before[i], x),
        ensures
            found ==> p < names.len() && before[p as int] == x,
            !found && p < names.len() ==> sorts_before(x, before[p as int]),
        decreases names.len() - p,
    {
        assert(before[p as int] == names@[p as int]@);
        match rank(names[p].as_str(), name.as_str()) {
            Rank::Same => {
                found = true;
                break ;
            },
            Rank::After => {
                break ;
            },
            Rank::Before => {
                p = p + 1;
            },
        }
    }
    if !found {
        names.insert(p, name);
    }
    proof {
        let after = words(names@);
        if found {
            assert(after == before);
            assert(after.to_set() =~= before.to_set().insert(x)) by {
                assert(before.to_set().contains(before[p as int]));
            }
        } else {
            assert(after =~= before.take(p as int).push(x) + before.skip(p as int));
            assert forall|i: int, j: int| 0 <= i < j < after.len() implies sorts_before(
                #[trigger] after[i],
                #[trigger] after[j],
            ) by {
                if j < p {
                    assert(sorts_before(before[i], before[j]));
                } else if j == p {
                } else if i < p {
                    assert(sorts_before(before[i], before[j - 1]));
                } else if i == p {
                    if j - 1 > p {
                        assert(sorts_before(before[p as int], before[j - 1]));
                        lemma_before_transitive(x, before[p as int], before[j - 1]);
                    }
                } else {
                    assert(sorts_before(before[i - 1], before[j - 1]));
                }
            }
            assert forall|n: Seq<char>| after.to_set().contains(n) == before.to_set().insert(
                x,
            ).contains(n) by {
                if after.contains(n) {
                    let q = choose|q: int| 0 <= q < after.len() && after[q] == n;
                    if q < p {
                        assert(before[q] == n);
                    } else if q > p {
                        assert(before[q - 1] == n);
                    }
                }
                if before.contains(n) {
                    let q = choose|q: int| 0 <= q < before.len() && before[q] == n;
                    if q < p {
                        assert(after[q] == n);
                    } else {
                        assert(after[q + 1] == n);
                    }
                }
                if n == x {
                    assert(after[p as int] == x);
                }
            }
            assert(after.to_set() =~= before.to_set().insert(x));
        }
        lemma_insert_sorted(before, x);
        lemma_ascending_unique(after, insert_sorted(before, x));
    }
}

/// Puts each of `items` into the ascending list `names`.
pub fn insert_names(names: &mut Vec<String>, items: &Vec<String>)
    requires
        ascending(words(old(names)@)),
    ensures
        words(final(names)@) == insert_all(words(old(names)@), words(items@)),
        ascending(words(final(names)@)),
{
    let ghost start = words(names@);
    let ghost all = words(items@);
    let mut i: usize = 0;
    assert(all.take(0) =~= Seq::<Seq<char>>::empty());
    while i < items.len()
        invariant
            i <= items.len(),
            all == words(items@),
            ascending(words(names@)),
            words(names@) == insert_all(start, all.take(i as int)),
        decreases items.len() - i,
    {
        insert_name(names, items[i].clone());
        proof {
            assert(all.take(i + 1).drop_last() =~= all.take(i as int));
            assert(all.take(i + 1).last() == items@[i as int]@);
        }
        i = i + 1;
    }
    assert(all.take(i as int) =~= all);
}

} // verus!
