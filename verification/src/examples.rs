//! Small example routines kept alongside the document index samples.

use vstd::prelude::*;
use crate::text::{all_ascii, ascii_upper, to_uppercase, uppercase_of};

verus! {

/// Example configuration structure.
#[derive(Debug, Clone)]
pub struct Config {
    pub api_url: String,
    pub api_model: String,
    pub api_key: Option<String>,
    pub context_window: u32,
}

impl Config {
    /// The example defaults: a local endpoint and model with an 8192-token window.
    pub fn default() -> (c: Self)
        ensures
            c.api_url@ == "http://127.0.0.1:1234/v1"@,
            c.api_model@ == "qwen2.5-coder-7b-instruct"@,
            c.api_key is None,
            c.context_window == 8192,
    {
        Config {
            api_url: String::from_str("http://127.0.0.1:1234/v1"),
            api_model: String::from_str("qwen2.5-coder-7b-instruct"),
            api_key: None,
            context_window: 8192,
        }
    }
}

/// Errors of the example routines.
#[derive(Debug, Clone, Copy, PartialEq, Eq, Structural)]
pub enum ExampleError {
    DivisionByZero,
}

impl ExampleError {
    /// The error's text.
    pub fn message(&self) -> (r: &'static str)
        ensures
            r@ == (match *self {
                ExampleError::DivisionByZero => "Division by zero"@,
            }),
    {
        match self {
            ExampleError::DivisionByZero => "Division by zero",
        }
    }
}

/// Integer division rounding toward zero, as Rust's `/` on integers does.
pub open spec fn trunc_div(a: int, b: int) -> int {
    let q = (if a < 0 { -a } else { a }) / (if b < 0 { -b } else { b });
    if (a < 0) != (b < 0) {
        -q
    } else {
        q
    }
}

/// Integer division that refuses a zero divisor.
pub fn divide(a: i32, b: i32) -> (r: Result<i32, ExampleError>)
    requires
        !(a == i32::MIN && b == -1),
    ensures
        b == 0 ==> r == Err::<i32, ExampleError>(ExampleError::DivisionByZero),
        b != 0 ==> (r matches Ok(q) && q == trunc_div(a as int, b as int)),
{
    if b == 0 {
        return Err(ExampleError::DivisionByZero);
    }
    let wa: i64 = a as i64;
    let wb: i64 = b as i64;
    let ua: u64 = if wa < 0 { (-wa) as u64 } else { wa as u64 };
    let ub: u64 = if wb < 0 { (-wb) as u64 } else { wb as u64 };
    let uq: u64 = ua / ub;
    assert(uq <= ua) by (nonlinear_arith)
        requires
            uq == ua / ub,
            ub >= 1,
    ;
    assert(ub >= 2 ==> uq <= 1073741824) by (nonlinear_arith)
        requires
            uq == ua / ub,
            ub >= 1,
            ua <= 2147483648,
    ;
    let q: i64 = if (a < 0) != (b < 0) { -(uq as i64) } else { uq as i64 };
    Ok(q as i32)
}

/// The index of the first user with the given id.
pub open spec fn first_user_index(id: u32, users: Seq<(u32, String)>) -> Option<int>
    decreases users.len(),
{
    if users.len() == 0 {
        None
    } else if users[0].0 == id {
        Some(0)
    } else {
        match first_user_index(id, users.drop_first()) {
            Some(i) => Some(i + 1),
            None => None,
        }
    }
}

/// The name of the first user whose id matches.
pub fn find_user(id: u32, users: &[(u32, String)]) -> (r: Option<String>)
    ensures
        match first_user_index(id, users@) {
            Some(i) => r is Some && r->0@ == users@[i].1@,
            None => r is None,
        },
{
    let mut i: usize = 0;
    assert(users@.skip(0) =~= users@);
    while i < users.len()
        invariant
            i <= users@.len(),
            first_user_index(id, users@) == match first_user_index(id, users@.skip(i as int)) {
                Some(k) => Some(k + i),
                None => None::<int>,
            },
        decreases users@.len() - i,
    {
        assert(users@.skip(i as int).drop_first() =~= users@.skip(i + 1));
        if users[i].0 == id {
            return Some(users[i].1.clone());
        }
        i = i + 1;
    }
    None
}

/// The even numbers of a sequence, in order.
pub open spec fn evens(s: Seq<i32>) -> Seq<i32> {
    s.filter(|n: i32| n % 2 == 0)
}

/// Keeps the even numbers, in order.
pub fn filter_even_numbers(numbers: Vec<i32>) -> (r: Vec<i32>)
    ensures
        r@ == evens(numbers@),
{
    let mut r: Vec<i32> = Vec::new();
    let mut i: usize = 0;
    while i < numbers.len()
        invariant
            i <= numbers@.len(),
            r@ == evens(numbers@.take(i as int)),
        decreases numbers@.len() - i,
    {
        proof {
            reveal_with_fuel(Seq::filter, 1);
            assert(numbers@.take(i + 1).drop_last() =~= numbers@.take(i as int));
        }
        if numbers[i] % 2 == 0 {
            r.push(numbers[i]);
        }
        i = i + 1;
    }
    assert(numbers@.take(numbers@.len() as int) =~= numbers@);
    r
}

/// A text processor.
pub trait Processor {
    fn process(&self, data: &str) -> String;
}

/// Converts text to upper case.
pub struct UpperCaseProcessor;

impl UpperCaseProcessor {
    /// The upper-case form of `data` (Unicode upper-case mapping).
    pub fn upper(&self, data: &str) -> (r: String)
        ensures
            r@ == uppercase_of(data@),
            all_ascii(data@) ==> r@ == data@.map_values(|c: char| ascii_upper(c)),
    {
        to_uppercase(data)
    }
}

impl Processor for UpperCaseProcessor {
    fn process(&self, data: &str) -> (r: String)
        ensures
            r@ == uppercase_of(data@),
            all_ascii(data@) ==> r@ == data@.map_values(|c: char| ascii_upper(c)),
    {
        self.upper(data)
    }
}

/// A clone of the first element, if any.
pub fn first_element<T: Clone>(items: &[T]) -> (r: Option<T>)
    ensures
        items@.len() == 0 ==> r is None,
        items@.len() > 0 ==> r is Some && cloned(items@[0], r->0),
{
    if items.len() == 0 {
        None
    } else {
        Some(items[0].clone())
    }
}

/// The longer of two strings by byte length; the second on a tie.
pub fn longest<'a>(s1: &'a str, s2: &'a str) -> (r: &'a str)
    ensures
        r == (if s1.len() > s2.len() { s1 } else { s2 }),
{
    if s1.len() > s2.len() {
        s1
    } else {
        s2
    }
}

/// The description that `describe_number` gives of `n`.
pub open spec fn number_description(n: i32) -> Seq<char> {
    if n == 0 {
        "zero"@
    } else if 1 <= n <= 9 {
        "single digit"@
    } else if 10 <= n <= 99 {
        "two digits"@
    } else {
        "large number"@
    }
}

/// Describes how many digits a number has (negative numbers count as large).
pub fn describe_number(n: i32) -> (r: String)
    ensures
        r@ == number_description(n),
{
    if n == 0 {
        String::from_str("zero")
    } else if 1 <= n && n <= 9 {
        String::from_str("single digit")
    } else if 10 <= n && n <= 99 {
        String::from_str("two digits")
    } else {
        String::from_str("large number")
    }
}

/// Applies a binary operation.
pub fn apply_operation<F: Fn(i32, i32) -> i32>(x: i32, y: i32, op: F) -> (r: i32)
    requires
        call_requires(op, (x, y)),
    ensures
        call_ensures(op, (x, y), r),
{
    op(x, y)
}

} // verus!
