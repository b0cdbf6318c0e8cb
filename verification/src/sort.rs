//! Merge sort under a strict weak order given by an `Order`.
use vstd::prelude::*;
use std::collections::VecDeque;

verus! {

broadcast use vstd::seq_lib::group_to_multiset_ensures, vstd::multiset::group_multiset_axioms;

/// A strict weak order on `T`: `precedes` is irreflexive and transitive, and
/// so is "does not precede" the other way round.
pub trait Order<T>: Sized {
    spec fn precedes(&self, a: T, b: T) -> bool;

    proof fn lemma_precedes_transitive(&self, a: T, b: T, c: T)
        requires
            self.precedes(a, b),
            self.precedes(b, c),
        ensures
            self.precedes(a, c),
    ;

    proof fn lemma_precedes_irreflexive(&self, a: T)
        ensures
            !self.precedes(a, a),
    ;

    proof fn lemma_not_precedes_transitive(&self, a: T, b: T, c: T)
        requires
            !self.precedes(b, a),
            !self.precedes(c, b),
        ensures
            !self.precedes(c, a),
    ;

    fn is_before(&self, a: &T, b: &T) -> (r: bool)
        ensures
            r == self.precedes(*a, *b),
    ;
}

/// No element of `s` precedes one that stands before it.
pub open spec fn in_order<T, O: Order<T>>(order: O, s: Seq<T>) -> bool {
    forall|i: int, j: int| #![trigger s[i], s[j]] 0 <= i < j < s.len() ==> !order.precedes(s[j], s[i])
}

/// Merges two ordered sequences; on ties the element of `a` comes first.
fn merge<T, O: Order<T>>(order: &O, a: VecDeque<T>, b: VecDeque<T>) -> (out: VecDeque<T>)
    requires
        in_order(*order, a@),
        in_order(*order, b@),
    ensures
        in_order(*order, out@),
        out@.to_multiset() == a@.to_multiset().add(b@.to_multiset()),
{
    let mut a = a;
    let mut b = b;
    let ghost a0 = a@;
    let ghost b0 = b@;
    let mut out: VecDeque<T> = VecDeque::new();
    while a.len() > 0 && b.len() > 0
        invariant
            in_order(*order, a@),
            in_order(*order, b@),
            in_order(*order, out@),
            forall|i: int, k: int| #![trigger a@[k], out@[i]]
                0 <= i < out@.len() && 0 <= k < a@.len() ==> !order.precedes(a@[k], out@[i]),
            forall|i: int, k: int| #![trigger b@[k], out@[i]]
                0 <= i < out@.len() && 0 <= k < b@.len() ==> !order.precedes(b@[k], out@[i]),
            out@.to_multiset().add(a@.to_multiset()).add(b@.to_multiset()) == a0.to_multiset().add(
                b0.to_multiset(),
            ),
        decreases a@.len() + b@.len(),
    {
        let ghost pa = a@;
        let ghost pb = b@;
        let ghost po = out@;
        let take_b = order.is_before(&b[0], &a[0]);
        if take_b {
            let x = b.pop_front().unwrap();
            proof {
                assert(pb =~= seq![x] + b@);
                assert forall|k: int| 0 <= k < b@.len() implies !order.precedes(#[trigger] b@[k], x) by {
                    assert(b@[k] == pb[k + 1]);
                    assert(x == pb[0]);
                }
                assert forall|k: int| 0 <= k < a@.len() implies !order.precedes(#[trigger] a@[k], x) by {
                    assert(order.precedes(x, a@[0]));
                    if order.precedes(a@[k], x) {
                        order.lemma_precedes_transitive(a@[k], x, a@[0]);
                        if k > 0 {
                            assert(!order.precedes(a@[k], a@[0]));
                        } else {
                            order.lemma_precedes_irreflexive(a@[0]);
                        }
                    }
                }
            }
            out.push_back(x);
            proof {
                assert(out@ == po.push(x));
                assert(pb.to_multiset() == b@.to_multiset().insert(x)) by {
                    assert(pb =~= b@.insert(0, x));
                }
            }
        } else {
            let x = a.pop_front().unwrap();
            proof {
                assert(pa =~= seq![x] + a@);
                assert forall|k: int| 0 <= k < a@.len() implies !order.precedes(#[trigger] a@[k], x) by {
                    assert(a@[k] == pa[k + 1]);
                    assert(x == pa[0]);
                }
                assert forall|k: int| 0 <= k < b@.len() implies !order.precedes(#[trigger] b@[k], x) by {
                    if k > 0 {
                        assert(!order.precedes(b@[k], b@[0]));
                        order.lemma_not_precedes_transitive(x, b@[0], b@[k]);
                    }
                }
            }
            out.push_back(x);
            proof {
                assert(out@ == po.push(x));
                assert(pa.to_multiset() == a@.to_multiset().insert(x)) by {
                    assert(pa =~= a@.insert(0, x));
                }
            }
        }
        proof {
            assert forall|i: int, j: int| #![trigger out@[i], out@[j]] 0 <= i < j < out@.len() implies !order.precedes(out@[j], out@[i]) by {
                if j < out@.len() - 1 {
                    assert(out@[i] == po[i]);
                    assert(out@[j] == po[j]);
                }
            }
            assert(in_order(*order, out@));
        }
    }
    let ghost po = out@;
    let ghost ra = a@;
    let ghost rb = b@;
    out.append(&mut a);
    out.append(&mut b);
    proof {
        assert(out@ == po + ra + rb);
        assert(ra.len() == 0 || rb.len() == 0);
        vstd::seq_lib::lemma_multiset_commutative(po, ra);
        vstd::seq_lib::lemma_multiset_commutative(po + ra, rb);
        assert forall|i: int, j: int| #![trigger out@[i], out@[j]] 0 <= i < j < out@.len() implies !order.precedes(out@[j], out@[i]) by {
            let n = po.len() as int;
            if j < n {
                assert(out@[i] == po[i]);
                assert(out@[j] == po[j]);
            } else if i < n {
                assert(out@[i] == po[i]);
                if ra.len() > 0 {
                    assert(out@[j] == ra[j - n]);
                } else {
                    assert(out@[j] == rb[j - n]);
                }
            } else {
                if ra.len() > 0 {
                    assert(out@[j] == ra[j - n]);
                    assert(out@[i] == ra[i - n]);
                } else {
                    assert(out@[j] == rb[j - n]);
                    assert(out@[i] == rb[i - n]);
                }
            }
        }
    }
    out
}

/// Sorts by `order`: the result holds the same elements, and none of them
/// precedes one that stands before it.
pub fn merge_sort<T, O: Order<T>>(order: &O, v: VecDeque<T>) -> (out: VecDeque<T>)
    ensures
        in_order(*order, out@),
        out@.to_multiset() == v@.to_multiset(),
    decreases v@.len(),
{
    if v.len() <= 1 {
        return v;
    }
    let mut left = v;
    let ghost whole = left@;
    let mid = left.len() / 2;
    let right = left.split_off(mid);
    proof {
        assert(whole =~= left@ + right@);
        vstd::seq_lib::lemma_multiset_commutative(left@, right@);
    }
    let l = merge_sort(order, left);
    let r = merge_sort(order, right);
    merge(order, l, r)
}

/// Sorts a vector by `order` (see [`merge_sort`]).
pub fn sort_vec<T, O: Order<T>>(order: &O, v: Vec<T>) -> (out: Vec<T>)
    ensures
        in_order(*order, out@),
        out@.to_multiset() == v@.to_multiset(),
{
    let mut d: VecDeque<T> = VecDeque::new();
    for x in it: v
        invariant
            d@ == it.seq().take(it.index() as int),
            it.seq() == v@,
    {
        d.push_back(x);
    }
    proof {
        assert(v@.take(v@.len() as int) =~= v@);
    }
    let mut sorted = merge_sort(order, d);
    let ghost s = sorted@;
    let mut out: Vec<T> = Vec::new();
    while sorted.len() > 0
        invariant
            out@ + sorted@ == s,
        decreases sorted@.len(),
    {
        let ghost before = sorted@;
        let x = sorted.pop_front().unwrap();
        out.push(x);
        proof {
            assert(before =~= seq![x] + sorted@);
            assert(out@ + sorted@ =~= s);
        }
    }
    proof {
        assert(out@ =~= s);
    }
    out
}


/// In an ordered sequence, an element that precedes another stands before it.
pub proof fn lemma_in_order_positions<T, O: Order<T>>(order: O, s: Seq<T>, i: int, j: int)
    requires
        in_order(order, s),
        0 <= i < s.len(),
        0 <= j < s.len(),
        order.precedes(s[i], s[j]),
    ensures
        i < j,
{
    if i == j {
        order.lemma_precedes_irreflexive(s[i]);
    }
}

} // verus!
