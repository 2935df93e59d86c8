use vstd::prelude::*;

verus! {

/// Sum of two integers; the caller keeps the sum within `i32`.
pub fn add(a: i32, b: i32) -> (r: i32)
    requires
        i32::MIN <= a + b <= i32::MAX,
    ensures
        r == a + b,
{
    a + b
}

/// Difference of two integers; the caller keeps it within `i32`.
pub fn subtract(a: i32, b: i32) -> (r: i32)
    requires
        i32::MIN <= a - b <= i32::MAX,
    ensures
        r == a - b,
{
    a - b
}

/// Product of two integers; the caller keeps it within `i32`.
pub fn multiply(a: i32, b: i32) -> (r: i32)
    requires
        i32::MIN <= a * b <= i32::MAX,
    ensures
        r == a * b,
{
    a * b
}

/// Whether `n` is divisible by two (negative numbers included).
pub fn is_even(n: i32) -> (r: bool)
    ensures
        r == (n % 2 == 0),
{
    n % 2 == 0
}

/// Sum and product of two integers, returned together.
pub fn calculate_both(a: i32, b: i32) -> (r: (i32, i32))
    requires
        i32::MIN <= a + b <= i32::MAX,
        i32::MIN <= a * b <= i32::MAX,
    ensures
        r.0 == a + b,
        r.1 == a * b,
{
    (a + b, a * b)
}

/// Takes a value that is known to be there and adds one to it: `Ok(11)`.
pub fn read_number() -> (r: Result<i32, String>)
    ensures
        r == Ok::<i32, String>(11),
{
    let found: Option<i32> = Some(10);
    let val = match found {
        Some(v) => v,
        None => {
            return Err(String::from_str("No value"));
        },
    };
    Ok(val + 1)
}

} // verus!
