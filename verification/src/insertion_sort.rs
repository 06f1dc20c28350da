use vstd::prelude::*;
use vstd::seq_lib::group_to_multiset_ensures;
use vstd::seq_lib::lemma_multiset_commutative;
use crate::ordered::TotalOrdered;
use crate::ordered::sorted;

verus! {

/// Moves `value`, which sits at position `pos`, into its place within the
/// sorted prefix `[0, pos)`, shifting larger elements one slot to the right.
fn insert<T: TotalOrdered + Copy>(vec: &mut Vec<T>, pos: usize, value: T)
    requires
        1 <= pos < old(vec)@.len(),
        sorted(old(vec)@.subrange(0, pos as int)),
        old(vec)@[pos as int] == value,
    ensures
        final(vec)@.len() == old(vec)@.len(),
        sorted(final(vec)@.subrange(0, pos as int + 1)),
        final(vec)@.subrange(0, pos as int + 1).to_multiset() == old(vec)@.subrange(
            0,
            pos as int + 1,
        ).to_multiset(),
        final(vec)@.subrange(pos as int + 1, old(vec)@.len() as int) == old(vec)@.subrange(
            pos as int + 1,
            old(vec)@.len() as int,
        ),
{
    let mut p: usize = pos - 1;
    loop
        invariant
            1 <= pos < vec@.len(),
            vec@.len() == old(vec)@.len(),
            p < pos,
            old(vec)@[pos as int] == value,
            sorted(old(vec)@.subrange(0, pos as int)),
            forall|j: int| 0 <= j <= p + 1 ==> vec@[j] == old(vec)@[j],
            forall|j: int| p + 2 <= j <= pos ==> vec@[j] == old(vec)@[j - 1],
            forall|j: int| pos < j < vec@.len() ==> vec@[j] == old(vec)@[j],
            forall|j: int| p + 1 <= j < pos ==> !old(vec)@[j].le_spec(value),
        ensures
            p < pos,
            vec@.len() == old(vec)@.len(),
            old(vec)@[p as int].le_spec(value),
            forall|j: int| 0 <= j <= p + 1 ==> vec@[j] == old(vec)@[j],
            forall|j: int| p + 2 <= j <= pos ==> vec@[j] == old(vec)@[j - 1],
            forall|j: int| pos < j < vec@.len() ==> vec@[j] == old(vec)@[j],
            forall|j: int| p + 1 <= j < pos ==> !old(vec)@[j].le_spec(value),
        decreases p,
    {
        let value_at_pos = vec[p];
        if value_at_pos.le(&value) {
            break;
        }
        vec[p + 1] = value_at_pos;
        if p == 0 {
            vec[0] = value;
            proof {
                lemma_insert_shape(old(vec)@, vec@, 0, pos as int, value);
            }
            return ;
        }
        p = p - 1;
    }
    vec[p + 1] = value;
    proof {
        lemma_insert_shape(old(vec)@, vec@, p as int + 1, pos as int, value);
    }
}

/// After the shift loop has placed `value` at position `slot`, the prefix of
/// length `pos + 1` is the old prefix with `value` moved from position `pos`
/// down to `slot`; it is sorted and carries the same multiset.
proof fn lemma_insert_shape<T: TotalOrdered>(
    pre: Seq<T>,
    post: Seq<T>,
    slot: int,
    pos: int,
    value: T,
)
    requires
        pre.len() == post.len(),
        1 <= pos < pre.len(),
        0 <= slot <= pos,
        sorted(pre.subrange(0, pos)),
        pre[pos] == value,
        post[slot] == value,
        forall|j: int| 0 <= j < slot ==> post[j] == pre[j],
        forall|j: int| slot < j <= pos ==> post[j] == pre[j - 1],
        forall|j: int| slot <= j < pos ==> !pre[j].le_spec(value),
        slot > 0 ==> pre[slot - 1].le_spec(value),
    ensures
        sorted(post.subrange(0, pos + 1)),
        post.subrange(0, pos + 1).to_multiset() == pre.subrange(0, pos + 1).to_multiset(),
{
    let a = pre.subrange(0, slot);
    let b = pre.subrange(slot, pos);
    assert(post.subrange(0, pos + 1) =~= a + seq![value] + b);
    assert(pre.subrange(0, pos + 1) =~= a + b + seq![value]);
    lemma_rotate_multiset(a, b, value);
    let sub = pre.subrange(0, pos);
    let s = post.subrange(0, pos + 1);
    assert forall|i: int, j: int| 0 <= i < j < s.len() implies s[i].le_spec(s[j]) by {
        if j < slot {
            // both in the untouched prefix
            assert(sub[i].le_spec(sub[j]));
            assert(s[i] == pre[i] && s[j] == pre[j]);
        } else if j == slot {
            // s[j] is the inserted value; s[i] == pre[i] with i < slot
            assert(pre[slot - 1].le_spec(value));
            if i < slot - 1 {
                assert(sub[i].le_spec(sub[slot - 1]));
                T::lemma_transitive(pre[i], pre[slot - 1], value);
            }
            assert(s[i] == pre[i] && s[j] == value);
        } else if i == slot {
            // s[i] is the inserted value; s[j] == pre[j - 1] was shifted
            T::lemma_total(pre[j - 1], value);
            assert(s[i] == value && s[j] == pre[j - 1]);
        } else if i < slot {
            // s[i] == pre[i], s[j] == pre[j - 1], both within the old prefix
            assert(sub[i].le_spec(sub[j - 1]));
            assert(s[i] == pre[i] && s[j] == pre[j - 1]);
        } else {
            // both shifted: s[i] == pre[i - 1], s[j] == pre[j - 1]
            assert(sub[i - 1].le_spec(sub[j - 1]));
            assert(s[i] == pre[i - 1] && s[j] == pre[j - 1]);
        }
    }
}

/// Sorts the vector in place under the trait order: the result is a sorted
/// rearrangement (equal multiset) of the input.
pub fn insertion_sort<T: TotalOrdered + Copy>(vec: &mut Vec<T>)
    ensures
        final(vec)@.len() == old(vec)@.len(),
        sorted(final(vec)@),
        final(vec)@.to_multiset() == old(vec)@.to_multiset(),
{
    let n = vec.len();
    if n <= 1 {
        return ;
    }
    for i in 1..n
        invariant
            n == vec@.len(),
            vec@.len() == old(vec)@.len(),
            sorted(vec@.subrange(0, i as int)),
            vec@.to_multiset() == old(vec)@.to_multiset(),
    {
        let ghost before = vec@;
        let value = vec[i];
        insert(vec, i, value);
        proof {
            lemma_patch_multiset(before, vec@, i as int + 1);
        }
    }
    assert(vec@.subrange(0, n as int) =~= vec@);
}

/// Moving an element from the back of a concatenation into the middle
/// keeps the multiset.
pub(crate) proof fn lemma_rotate_multiset<T>(a: Seq<T>, b: Seq<T>, v: T)
    ensures
        (a + seq![v] + b).to_multiset() == (a + b + seq![v]).to_multiset(),
{
    broadcast use group_to_multiset_ensures;
    broadcast use vstd::multiset::group_multiset_axioms;

    let s = seq![v];
    lemma_multiset_commutative(a + s, b);
    lemma_multiset_commutative(a, s);
    lemma_multiset_commutative(a + b, s);
    lemma_multiset_commutative(a, b);
    assert((a + s + b).to_multiset() =~= (a + b + s).to_multiset());
}

/// If two sequences of equal length have prefixes with equal multisets and
/// identical suffixes, their full multisets agree.
pub(crate) proof fn lemma_patch_multiset<T>(pre: Seq<T>, post: Seq<T>, cut: int)
    requires
        pre.len() == post.len(),
        0 <= cut <= pre.len(),
        post.subrange(0, cut).to_multiset() == pre.subrange(0, cut).to_multiset(),
        post.subrange(cut, post.len() as int) == pre.subrange(cut, pre.len() as int),
    ensures
        post.to_multiset() == pre.to_multiset(),
{
    assert(pre =~= pre.subrange(0, cut) + pre.subrange(cut, pre.len() as int));
    assert(post =~= post.subrange(0, cut) + post.subrange(cut, post.len() as int));
    lemma_multiset_commutative(pre.subrange(0, cut), pre.subrange(cut, pre.len() as int));
    lemma_multiset_commutative(post.subrange(0, cut), post.subrange(cut, post.len() as int));
}

} // verus!
