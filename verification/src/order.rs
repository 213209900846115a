//! Ordering of panes by name, as `String`'s `Ord` compares them (byte-wise
//! on UTF-8, which orders characters by code point), and a stable sort by it.
use vstd::prelude::*;

use crate::protocol::PaneInfo;
use crate::text::chars_of;

verus! {

/// `a` sorts before `b`: lexicographic order on code points, a proper prefix
/// first.
pub open spec fn name_less(a: Seq<char>, b: Seq<char>) -> bool
    decreases a.len(),
{
    if a.len() == 0 {
        b.len() > 0
    } else if b.len() == 0 {
        false
    } else if a[0] != b[0] {
        a[0] < b[0]
    } else {
        name_less(a.drop_first(), b.drop_first())
    }
}

pub proof fn lemma_name_less_irreflexive(a: Seq<char>)
    ensures
        !name_less(a, a),
    decreases a.len(),
{
    if a.len() > 0 {
        lemma_name_less_irreflexive(a.drop_first());
    }
}

pub proof fn lemma_name_less_transitive(a: Seq<char>, b: Seq<char>, c: Seq<char>)
    requires
        name_less(a, b),
        name_less(b, c),
    ensures
        name_less(a, c),
    decreases a.len(),
{
    if a.len() > 0 && b.len() > 0 && c.len() > 0 {
        if a[0] == b[0] && b[0] == c[0] {
            lemma_name_less_transitive(a.drop_first(), b.drop_first(), c.drop_first());
        }
    }
}

pub proof fn lemma_name_less_total(a: Seq<char>, b: Seq<char>)
    ensures
        a == b || name_less(a, b) || name_less(b, a),
    decreases a.len(),
{
    if a.len() > 0 && b.len() > 0 {
        if a[0] == b[0] {
            lemma_name_less_total(a.drop_first(), b.drop_first());
            if a.drop_first() == b.drop_first() {
                assert(a.drop_first().len() == b.drop_first().len());
                assert(a.len() == b.len());
                assert forall|i: int| 0 <= i < a.len() implies a[i] == b[i] by {
                    if i > 0 {
                        assert(a[i] == a.drop_first()[i - 1]);
                        assert(b[i] == b.drop_first()[i - 1]);
                    }
                }
                assert(a =~= b);
            }
        }
    } else if a.len() == 0 && b.len() == 0 {
        assert(a =~= b);
    }
}

/// Compares two names.
pub fn name_less_exec(a: &String, b: &String) -> (r: bool)
    ensures
        r == name_less(a@, b@),
{
    let x = chars_of(a.as_str());
    let y = chars_of(b.as_str());
    let mut i: usize = 0;
    assert(x@.skip(0) =~= x@);
    assert(y@.skip(0) =~= y@);
    while i < x.len() && i < y.len()
        invariant
            i <= x.len(),
            i <= y.len(),
            x@ == a@,
            y@ == b@,
            name_less(a@, b@) == name_less(x@.skip(i as int), y@.skip(i as int)),
        decreases x.len() - i,
    {
        let ghost xs = x@.skip(i as int);
        let ghost ys = y@.skip(i as int);
        assert(xs[0] == x@[i as int]);
        assert(ys[0] == y@[i as int]);
        if x[i] != y[i] {
            return x[i] < y[i];
        }
        assert(xs.drop_first() =~= x@.skip(i + 1));
        assert(ys.drop_first() =~= y@.skip(i + 1));
        i += 1;
    }
    i == x.len() && i < y.len()
}

/// `s` is in non-decreasing name order.
pub open spec fn sorted_by_name(s: Seq<PaneInfo>) -> bool {
    forall|i: int, j: int| 0 <= i < j < s.len() ==> !name_less(s[j].name@, s[i].name@)
}

/// Where a stable insertion puts `x` into `s`: before the first pane whose
/// name sorts after `x`'s.
pub open spec fn insert_pos(s: Seq<PaneInfo>, x: PaneInfo) -> int
    decreases s.len(),
{
    if s.len() == 0 {
        0
    } else if name_less(x.name@, s[0].name@) {
        0
    } else {
        1 + insert_pos(s.drop_first(), x)
    }
}

/// The panes sorted by name, keeping the order of equal names (a stable
/// sort, as `sort_by` is).
pub open spec fn sort_by_name(s: Seq<PaneInfo>) -> Seq<PaneInfo>
    decreases s.len(),
{
    if s.len() == 0 {
        s
    } else {
        let r = sort_by_name(s.drop_last());
        r.insert(insert_pos(r, s.last()), s.last())
    }
}

proof fn lemma_insert_pos_bounds(s: Seq<PaneInfo>, x: PaneInfo)
    ensures
        0 <= insert_pos(s, x) <= s.len(),
        forall|k: int| 0 <= k < insert_pos(s, x) ==> !name_less(x.name@, #[trigger] s[k].name@),
        insert_pos(s, x) < s.len() ==> name_less(x.name@, s[insert_pos(s, x)].name@),
    decreases s.len(),
{
    if s.len() > 0 && !name_less(x.name@, s[0].name@) {
        lemma_insert_pos_bounds(s.drop_first(), x);
        assert forall|k: int| 0 <= k < insert_pos(s, x) implies !name_less(
            x.name@,
            #[trigger] s[k].name@,
        ) by {
            if k > 0 {
                assert(s[k] == s.drop_first()[k - 1]);
            }
        }
        if insert_pos(s, x) < s.len() {
            assert(s[insert_pos(s, x)] == s.drop_first()[insert_pos(s.drop_first(), x)]);
        }
    }
}

proof fn lemma_insert_keeps_sorted(s: Seq<PaneInfo>, x: PaneInfo)
    requires
        sorted_by_name(s),
    ensures
        sorted_by_name(s.insert(insert_pos(s, x), x)),
{
    lemma_insert_pos_bounds(s, x);
    let p = insert_pos(s, x);
    let r = s.insert(p, x);
    assert forall|i: int, j: int| 0 <= i < j < r.len() implies !name_less(r[j].name@, r[i].name@) by {
        if i < p && j == p {
            // r[i] = s[i], r[j] = x; !(x < s[i]) by the insert position
        } else if i == p && j > p {
            // r[i] = x, r[j] = s[j - 1] with j - 1 >= p
            if name_less(s[j - 1].name@, x.name@) {
                if j - 1 == p {
                    lemma_name_less_transitive(s[p].name@, x.name@, s[p].name@);
                    lemma_name_less_irreflexive(s[p].name@);
                } else {
                    // s[p] <= s[j-1] < x < s[p]
                    lemma_name_less_total(s[p].name@, s[j - 1].name@);
                    if name_less(s[p].name@, s[j - 1].name@) {
                        lemma_name_less_transitive(x.name@, s[p].name@, s[j - 1].name@);
                    }
                    lemma_name_less_transitive(x.name@, s[j - 1].name@, x.name@);
                    lemma_name_less_irreflexive(x.name@);
                }
            }
        } else if i < p && j > p {
            assert(r[i] == s[i] && r[j] == s[j - 1]);
        } else if j < p {
            assert(r[i] == s[i] && r[j] == s[j]);
        } else {
            assert(r[i] == s[i - 1] && r[j] == s[j - 1]);
        }
    }
}

/// Law: sorting by name yields the same panes (as a multiset) in
/// non-decreasing name order.
pub proof fn lemma_sort_by_name(s: Seq<PaneInfo>)
    ensures
        sorted_by_name(sort_by_name(s)),
        sort_by_name(s).to_multiset() == s.to_multiset(),
    decreases s.len(),
{
    if s.len() > 0 {
        let r = sort_by_name(s.drop_last());
        lemma_sort_by_name(s.drop_last());
        lemma_insert_keeps_sorted(r, s.last());
        lemma_insert_pos_bounds(r, s.last());
        let x = s.last();
        let p = insert_pos(r, x);
        let ins = r.insert(p, x);
        r.insert_ensures(p, x);
        ins.to_multiset_ensures();
        assert(ins.remove(p) =~= r);
        assert(ins[p] == x);
        assert(ins.contains(x));
        assert(ins.to_multiset() =~= r.to_multiset().insert(x));
        s.drop_last().to_multiset_ensures();
        assert(s =~= s.drop_last().push(x));
    }
}

proof fn lemma_insert_pos_first(s: Seq<PaneInfo>, x: PaneInfo, k: int)
    requires
        0 <= k <= s.len(),
        forall|j: int| 0 <= j < k ==> !name_less(x.name@, #[trigger] s[j].name@),
        k == s.len() || name_less(x.name@, s[k].name@),
    ensures
        insert_pos(s, x) == k,
    decreases k,
{
    if k > 0 {
        assert(!name_less(x.name@, s[0].name@));
        assert forall|j: int| 0 <= j < k - 1 implies !name_less(
            x.name@,
            #[trigger] s.drop_first()[j].name@,
        ) by {
            assert(s.drop_first()[j] == s[j + 1]);
        }
        if k < s.len() {
            assert(s.drop_first()[k - 1] == s[k]);
        }
        lemma_insert_pos_first(s.drop_first(), x, k - 1);
    }
}

/// Sorts panes by name, stably.
pub fn sort_panes_by_name(panes: Vec<PaneInfo>) -> (r: Vec<PaneInfo>)
    ensures
        r@ == sort_by_name(panes@),
{
    let ghost all = panes@;
    let mut rest = panes;
    let mut r: Vec<PaneInfo> = Vec::new();
    let n = rest.len();
    let mut i: usize = 0;
    assert(all.take(0) =~= Seq::<PaneInfo>::empty());
    assert(all.skip(0) =~= all);
    while i < n
        invariant
            i <= n,
            n == all.len(),
            rest@ == all.skip(i as int),
            r@ == sort_by_name(all.take(i as int)),
        decreases n - i,
    {
        let x = rest.remove(0);
        assert(x == all[i as int]);
        assert(rest@ =~= all.skip(i + 1));
        let mut k: usize = 0;
        while k < r.len() && !name_less_exec(&x.name, &r[k].name)
            invariant
                k <= r.len(),
                forall|j: int| 0 <= j < k ==> !name_less(x.name@, #[trigger] r@[j].name@),
            decreases r.len() - k,
        {
            k += 1;
        }
        proof {
            lemma_insert_pos_first(r@, x, k as int);
            assert(all.take(i + 1).drop_last() =~= all.take(i as int));
            assert(all.take(i + 1).last() == x);
        }
        r.insert(k, x);
        i += 1;
    }
    assert(all.take(n as int) =~= all);
    r
}

} // verus!
