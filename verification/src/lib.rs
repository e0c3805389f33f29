pub mod test_module;

use vstd::arithmetic::div_mod::{
    lemma_div_is_ordered_by_denominator, lemma_div_nonincreasing, lemma_div_pos_is_pos,
};
use vstd::multiset::Multiset;
use vstd::prelude::*;
use vstd::string::StringExecFns;

verus! {

/// Builds the greeting for the given name.
pub fn greet(name: &str) -> (r: String)
    ensures
        r@ == "Hello, "@ + name@ + "!"@,
{
    let mut message = "Hello, ".to_owned();
    message.append(name);
    message.append("!");
    message
}

/// The mathematical sum of two integers.
pub open spec fn sum_of(a: int, b: int) -> int {
    a + b
}

/// The mathematical difference of two integers.
pub open spec fn difference_of(a: int, b: int) -> int {
    a - b
}

/// The mathematical product of two integers.
pub open spec fn product_of(a: int, b: int) -> int {
    a * b
}

/// Truncating integer division: the magnitude of the quotient is rounded
/// toward zero, as Rust's `/` operator does on machine integers.
pub open spec fn quotient_of(a: int, b: int) -> int
    recommends
        b != 0,
{
    let q = (vstd::math::abs(a) / vstd::math::abs(b)) as int;
    if (a < 0) != (b < 0) {
        -q
    } else {
        q
    }
}

/// Adds two numbers.
pub fn add(a: i32, b: i32) -> (r: i32)
    requires
        i32::MIN <= a + b <= i32::MAX,
    ensures
        r as int == sum_of(a as int, b as int),
{
    a + b
}

/// Subtracts the second number from the first.
pub fn subtract(a: i32, b: i32) -> (r: i32)
    requires
        i32::MIN <= a - b <= i32::MAX,
    ensures
        r as int == difference_of(a as int, b as int),
{
    a - b
}

/// Multiplies two numbers.
pub fn multiply(a: i32, b: i32) -> (r: i32)
    requires
        i32::MIN <= a * b <= i32::MAX,
    ensures
        r as int == product_of(a as int, b as int),
{
    a * b
}

/// Divides two numbers, returning `None` exactly when the divisor is zero.
pub fn divide(a: i32, b: i32) -> (r: Option<i32>)
    requires
        !(a == i32::MIN && b == -1),
    ensures
        r is None <==> b == 0,
        b != 0 ==> r == Some((quotient_of(a as int, b as int) as i32)),
{
    proof {
        if b != 0 {
            lemma_quotient_in_range(a, b);
        }
    }
    a.checked_div(b)
}

/// For any admissible pair of `i32` operands the truncated quotient fits
/// in an `i32` again, so division never overflows.
proof fn lemma_quotient_in_range(a: i32, b: i32)
    requires
        b != 0,
        !(a == i32::MIN && b == -1),
    ensures
        i32::MIN <= quotient_of(a as int, b as int) <= i32::MAX,
{
    let x = vstd::math::abs(a as int) as int;
    let d = vstd::math::abs(b as int) as int;
    lemma_div_pos_is_pos(x, d);
    lemma_div_nonincreasing(x, d);
    if a == i32::MIN && b != 1 {
        lemma_div_is_ordered_by_denominator(x, 2, d);
    }
}

/// The chained computation: add ten, subtract three, double the result.
pub open spec fn derived_of(x: int) -> int {
    ((x + 10) - 3) * 2
}

/// Uses the primitive operations to perform a more complex operation.
pub fn complex_operation(x: i32) -> (r: i32)
    requires
        i32::MIN <= (x + 10) - 3,
        i32::MIN <= ((x + 10) - 3) * 2 <= i32::MAX,
    ensures
        r as int == derived_of(x as int),
{
    let sum = crate::add(x, 10);
    let diff = subtract(sum, 3);
    multiply(diff, 2)
}

/// The left-to-right running total of a sequence of numbers.
pub open spec fn total_of(s: Seq<i32>) -> int
    decreases s.len(),
{
    if s.len() == 0 {
        0
    } else {
        total_of(s.drop_last()) + s.last()
    }
}

/// Sums a sequence of numbers by repeated pairwise addition, left to right,
/// starting from zero.
pub fn process_numbers(numbers: &[i32]) -> (r: i32)
    requires
        forall|i: int|
            0 <= i <= numbers@.len() ==> i32::MIN <= #[trigger] total_of(numbers@.take(i))
                <= i32::MAX,
    ensures
        r as int == total_of(numbers@),
{
    let mut total: i32 = 0;
    let n = numbers.len();
    assert(numbers@.take(0) =~= Seq::<i32>::empty());
    for idx in 0..n
        invariant
            n == numbers@.len(),
            total as int == total_of(numbers@.take(idx as int)),
            forall|i: int|
                0 <= i <= numbers@.len() ==> i32::MIN <= #[trigger] total_of(numbers@.take(i))
                    <= i32::MAX,
    {
        let num = numbers[idx];
        proof {
            let prefix = numbers@.take(idx as int + 1);
            assert(prefix.drop_last() =~= numbers@.take(idx as int));
            assert(prefix.last() == numbers@[idx as int]);
            assert(total_of(prefix) == total as int + num as int);
            assert(i32::MIN <= total_of(numbers@.take(idx as int + 1)) <= i32::MAX);
        }
        total = crate::add(total, num);
    }
    proof {
        assert(numbers@.take(n as int) =~= numbers@);
    }
    total
}

/// The sum of the elements of a multiset of numbers; the order in which
/// `choose` walks the elements cannot matter, which the lemmas below show.
spec fn total_of_multiset(m: Multiset<i32>) -> int
    decreases m.len(),
    via total_of_multiset_decreases
{
    if m.len() == 0 {
        0
    } else {
        m.choose() + total_of_multiset(m.remove(m.choose()))
    }
}

#[via_fn]
proof fn total_of_multiset_decreases(m: Multiset<i32>) {
    broadcast use vstd::multiset::group_multiset_axioms;

    if m.len() != 0 {
        assert(Multiset::singleton(m.choose()).subset_of(m));
    }
}

/// Taking any element present in a multiset out of it takes exactly that
/// element's value off the total.
proof fn lemma_total_of_multiset_remove(m: Multiset<i32>, y: i32)
    requires
        m.count(y) > 0,
    ensures
        total_of_multiset(m) == y + total_of_multiset(m.remove(y)),
    decreases m.len(),
{
    broadcast use vstd::multiset::group_multiset_axioms;

    let c = m.choose();
    assert(Multiset::singleton(c).subset_of(m));
    if c != y {
        let mc = m.remove(c);
        assert(mc.count(y) == m.count(y));
        lemma_total_of_multiset_remove(mc, y);
        assert(mc.remove(y) =~= m.remove(y).remove(c));
        assert(m.remove(y).count(c) == m.count(c));
        lemma_total_of_multiset_remove(m.remove(y), c);
    }
}

/// Putting one more element into a multiset adds its value to the total.
proof fn lemma_total_of_multiset_insert(m: Multiset<i32>, x: i32)
    ensures
        total_of_multiset(m.insert(x)) == total_of_multiset(m) + x,
{
    broadcast use vstd::multiset::group_multiset_axioms;

    lemma_total_of_multiset_remove(m.insert(x), x);
    assert(m.insert(x).remove(x) =~= m);
}

/// The left-to-right running total of a sequence equals the total of the
/// multiset of its elements.
proof fn lemma_total_of_to_multiset(s: Seq<i32>)
    ensures
        total_of(s) == total_of_multiset(s.to_multiset()),
    decreases s.len(),
{
    broadcast use vstd::seq_lib::group_to_multiset_ensures;
    broadcast use vstd::multiset::group_multiset_axioms;

    if s.len() == 0 {
        assert(s.to_multiset().len() == 0);
    } else {
        let s0 = s.drop_last();
        lemma_total_of_to_multiset(s0);
        assert(s =~= s0.push(s.last()));
        assert(s.to_multiset() =~= s0.to_multiset().insert(s.last()));
        lemma_total_of_multiset_insert(s0.to_multiset(), s.last());
    }
}

/// Aggregation does not depend on traversal order: two sequences that hold
/// the same numbers with the same multiplicities have the same total.
pub proof fn lemma_total_permutation_invariant(s: Seq<i32>, t: Seq<i32>)
    requires
        s.to_multiset() == t.to_multiset(),
    ensures
        total_of(s) == total_of(t),
{
    lemma_total_of_to_multiset(s);
    lemma_total_of_to_multiset(t);
}

/// The sum of two integers does not depend on the order of its arguments.
pub proof fn lemma_sum_commutative(a: int, b: int)
    ensures
        sum_of(a, b) == sum_of(b, a),
{
}

/// Swapping the arguments of the difference negates it.
pub proof fn lemma_difference_antisymmetric(a: int, b: int)
    ensures
        difference_of(a, b) == -difference_of(b, a),
{
}

/// The product of two integers does not depend on the order of its arguments.
pub proof fn lemma_product_commutative(a: int, b: int)
    ensures
        product_of(a, b) == product_of(b, a),
{
    assert(a * b == b * a) by (nonlinear_arith);
}

} // verus!
