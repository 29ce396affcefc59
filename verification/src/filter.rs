//! Selecting values from a stream: the doubles of the numbers from 1 to 100
//! that three or five divides.

use vstd::prelude::*;

verus! {

/// The number of values that the selection starts from.
pub const VALUE_COUNT: i32 = 100;

/// Whether a value is selected: three divides it, or five does.
pub open spec fn spec_is_selected(value: i32) -> bool {
    value % 3 == 0 || value % 5 == 0
}

/// Decides whether a value is selected.
pub fn is_selected(value: i32) -> (selected: bool)
    ensures
        selected == spec_is_selected(value),
{
    value % 3 == 0 || value % 5 == 0
}

/// The doubles of the numbers from 1 to `VALUE_COUNT`, in order.
pub open spec fn spec_doubles() -> Seq<i32> {
    Seq::new(VALUE_COUNT as nat, |i: int| (2 * (i + 1)) as i32)
}

/// The doubles of the numbers from 1 to `VALUE_COUNT`, in order.
pub fn doubles() -> (values: Vec<i32>)
    ensures
        values@ == spec_doubles(),
{
    let mut values: Vec<i32> = Vec::new();
    let mut n: i32 = 1;
    while n <= VALUE_COUNT
        invariant
            1 <= n <= VALUE_COUNT + 1,
            values.len() == n - 1,
            forall|i: int| 0 <= i < values.len() ==> values[i] == 2 * (i + 1),
        decreases VALUE_COUNT + 1 - n,
    {
        values.push(n * 2);
        n = n + 1;
    }
    values
}

/// The predicate of the selection, as a function.
pub open spec fn selection() -> spec_fn(i32) -> bool {
    |value: i32| spec_is_selected(value)
}

/// Keeps the selected values of a stream, in the order of the stream.
pub fn select(values: &Vec<i32>) -> (kept: Vec<i32>)
    ensures
        kept@ == values@.filter(selection()),
{
    let mut kept: Vec<i32> = Vec::new();
    let mut i: usize = 0;
    proof {
        reveal(Seq::filter);
    }
    while i < values.len()
        invariant
            i <= values.len(),
            kept@ == values@.take(i as int).filter(selection()),
        decreases values.len() - i,
    {
        proof {
            reveal(Seq::filter);
            assert(values@.take(i + 1).drop_last() =~= values@.take(i as int));
        }
        if is_selected(values[i]) {
            kept.push(values[i]);
        }
        i = i + 1;
    }
    assert(values@.take(i as int) =~= values@);
    kept
}

/// The values that the demonstration prints: the selected doubles.
pub fn selected_doubles() -> (kept: Vec<i32>)
    ensures
        kept@ == spec_doubles().filter(selection()),
{
    select(&doubles())
}

} // verus!
