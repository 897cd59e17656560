//! Sums and small helpers on machine integers.

use vstd::prelude::*;

verus! {

/// The sum of a sequence of numbers.
pub open spec fn sum(numbers: Seq<nat>) -> nat
    decreases numbers.len(),
{
    if numbers.len() == 0 {
        0
    } else {
        sum(numbers.drop_last()) + numbers.last()
    }
}

/// `number`, or the largest `usize` where that is smaller.
pub open spec fn clamped(number: nat) -> nat {
    if number > usize::MAX {
        usize::MAX as nat
    } else {
        number
    }
}

/// The smaller of two numbers.
pub open spec fn least(left: int, right: int) -> int {
    if left < right {
        left
    } else {
        right
    }
}

/// The larger of two numbers.
pub open spec fn greatest(left: int, right: int) -> int {
    if left < right {
        right
    } else {
        left
    }
}

/// A sum grows by one number at a time.
pub proof fn lemma_sum_step(numbers: Seq<nat>, index: int)
    requires
        0 <= index < numbers.len(),
    ensures
        sum(numbers.take(index + 1)) == sum(numbers.take(index)) + numbers[index],
{
    assert(numbers.take(index + 1).drop_last() =~= numbers.take(index));
}

/// The sum of two sequences joined is the sum of their sums.
pub proof fn lemma_sum_join(left: Seq<nat>, right: Seq<nat>)
    ensures
        sum(left + right) == sum(left) + sum(right),
    decreases right.len(),
{
    if right.len() == 0 {
        assert(left + right =~= left);
    } else {
        lemma_sum_join(left, right.drop_last());
        assert((left + right).drop_last() =~= left + right.drop_last());
    }
}

/// Taking the first number away takes it from the sum.
pub proof fn lemma_sum_drop_first(numbers: Seq<nat>)
    requires
        numbers.len() > 0,
    ensures
        sum(numbers) == numbers[0] + sum(numbers.drop_first()),
{
    lemma_sum_join(seq![numbers[0]], numbers.drop_first());
    assert(seq![numbers[0]] + numbers.drop_first() =~= numbers);
    assert(sum(seq![numbers[0]]) == numbers[0]) by {
        reveal_with_fuel(sum, 2);
    }
}

/// No prefix sums to more than the whole.
pub proof fn lemma_sum_prefix(numbers: Seq<nat>, count: int)
    requires
        0 <= count <= numbers.len(),
    ensures
        sum(numbers.take(count)) <= sum(numbers),
{
    lemma_sum_join(numbers.take(count), numbers.skip(count));
    assert(numbers.take(count) + numbers.skip(count) =~= numbers);
}

/// The smaller and the larger of two numbers are the two numbers, in order, and a clamped number is the
/// number itself wherever a `usize` can hold it.
pub proof fn law_two_numbers_have_a_smaller_and_a_larger(left: int, right: int, number: nat)
    ensures
        least(left, right) <= left && least(left, right) <= right,
        least(left, right) == left || least(left, right) == right,
        least(left, right) + greatest(left, right) == left + right,
        clamped(number) <= usize::MAX,
        number <= usize::MAX ==> clamped(number) == number,
        number > usize::MAX ==> clamped(number) == usize::MAX,
{
}

/// No numbers sum to nothing, and every further number adds itself.
pub proof fn law_a_sum_grows_by_every_number(numbers: Seq<nat>, next: nat)
    ensures
        sum(Seq::empty()) == 0,
        sum(numbers.push(next)) == sum(numbers) + next,
{
    assert(numbers.push(next).drop_last() =~= numbers);
}

} // verus!
