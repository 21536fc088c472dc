//! Mean and median of duration lists.

use vstd::prelude::*;

verus! {

/// Sum of a sequence of durations, as a mathematical integer.
pub open spec fn sum_seq(s: Seq<u64>) -> int
    decreases s.len(),
{
    if s.len() == 0 {
        0
    } else {
        sum_seq(s.drop_last()) + s.last()
    }
}

/// Extending a prefix by one element adds that element to its sum.
pub proof fn lemma_sum_seq_take_succ(s: Seq<u64>, i: int)
    requires
        0 <= i < s.len(),
    ensures
        sum_seq(s.take(i + 1)) == sum_seq(s.take(i)) + s[i],
{
    assert(s.take(i + 1).drop_last() =~= s.take(i));
    assert(s.take(i + 1).last() == s[i]);
}

/// The sum of a prefix never exceeds the sum of the whole sequence.
pub proof fn lemma_sum_seq_take_le(s: Seq<u64>, i: int)
    requires
        0 <= i <= s.len(),
    ensures
        sum_seq(s.take(i)) <= sum_seq(s),
    decreases s.len() - i,
{
    if i == s.len() {
        assert(s.take(i) =~= s);
    } else {
        lemma_sum_seq_take_succ(s, i);
        lemma_sum_seq_take_le(s, i + 1);
    }
}

proof fn lemma_sum_seq_two(s: Seq<u64>)
    requires
        s.len() == 2,
    ensures
        sum_seq(s) == s[0] + s[1],
{
    reveal_with_fuel(sum_seq, 3);
    assert(s.drop_last().drop_last() =~= Seq::<u64>::empty());
    assert(s.drop_last().last() == s[0]);
    assert(s.last() == s[1]);
}

/// The middle element of an odd-length list, or the rounded-down average of
/// the two middle elements of an even-length list.  The list is taken as it
/// stands; callers that want a positional median of the values sort first.
pub open spec fn median_spec(s: Seq<u64>) -> int {
    let mid = s.len() as int / 2;
    if s.len() % 2 == 0 {
        (s[mid - 1] + s[mid]) / 2
    } else {
        s[mid] as int
    }
}

/// Arithmetic mean of a non-empty list, rounded toward zero.
pub fn mean(list: &[u64]) -> (avg: u64)
    requires
        list@.len() > 0,
        sum_seq(list@) <= u64::MAX,
    ensures
        avg as int == sum_seq(list@) / list@.len() as int,
{
    let mut total: u64 = 0;
    let mut i: usize = 0;
    while i < list.len()
        invariant
            0 <= i <= list@.len(),
            total as int == sum_seq(list@.take(i as int)),
            sum_seq(list@) <= u64::MAX,
        decreases list@.len() - i,
    {
        proof {
            lemma_sum_seq_take_succ(list@, i as int);
            lemma_sum_seq_take_le(list@, i as int + 1);
        }
        total = total + list[i];
        i = i + 1;
    }
    proof {
        assert(list@.take(list@.len() as int) =~= list@);
    }
    total / (list.len() as u64)
}

/// Median of a non-empty list, in the list's own order: the middle element,
/// or for even lengths the mean of the two middle elements.
pub fn median(list: &[u64]) -> (med: u64)
    requires
        list@.len() > 0,
        list@.len() % 2 == 0 ==> list@[list@.len() as int / 2 - 1] + list@[list@.len() as int / 2]
            <= u64::MAX,
    ensures
        med as int == median_spec(list@),
{
    let len = list.len();
    let mid = len / 2;
    if len % 2 == 0 {
        let pair = &list[(mid - 1)..(mid + 1)];
        proof {
            lemma_sum_seq_two(pair@);
            assert(pair@[0] == list@[mid as int - 1]);
            assert(pair@[1] == list@[mid as int]);
        }
        mean(pair)
    } else {
        list[mid]
    }
}

} // verus!
