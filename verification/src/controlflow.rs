//! Counting exercises: a triangular sum, repeated doubling, and a repeated
//! line printer, each returning its result as a plain value.

use vstd::prelude::*;

verus! {

/// Powers of two.
pub open spec fn pow2(n: nat) -> nat
    decreases n,
{
    if n == 0 {
        1
    } else {
        2 * pow2((n - 1) as nat)
    }
}

proof fn lemma_pow2_mono(a: nat, b: nat)
    requires
        a <= b,
    ensures
        pow2(a) <= pow2(b),
    decreases b,
{
    if a < b {
        lemma_pow2_mono(a, (b - 1) as nat);
    }
}

/// Sum of the integers from 1 to 100.
pub fn sum() -> (s: i32)
    ensures
        s == 5050,
{
    let lower: i32 = 1;
    let upper: i32 = 100;
    let mut sum: i32 = 0;
    let mut i: i32 = lower;
    while i <= upper
        invariant
            1 <= i <= 101,
            upper == 100,
            sum * 2 == i * (i - 1),
            0 <= sum <= 5050,
        decreases 101 - i,
    {
        assert((sum + i) * 2 == (i + 1) * ((i + 1) - 1) && (i + 1) * ((i + 1) - 1) <= 10100) by (nonlinear_arith)
            requires
                sum * 2 == i * (i - 1),
                1 <= i <= 100,
        ;
        sum += i;
        i += 1;
    }
    sum
}

/// How many times 1 can be doubled before the value exceeds 100: exactly 7,
/// since the doubling runs 1, 2, 4, 8, 16, 32, 64, 128.
pub fn double() -> (count: u32)
    ensures
        count == 7,
{
    let upper: u32 = 100;
    let mut count: u32 = 0;
    let mut x: u32 = 1;
    while x <= upper
        invariant
            upper == 100,
            x == pow2(count as nat),
            count <= 7,
            1 <= x <= 128,
        decreases 128 - x,
    {
        proof {
            reveal_with_fuel(pow2, 9);
            if count >= 7 {
                lemma_pow2_mono(7, count as nat);
            }
        }
        x *= 2;
        count += 1;
    }
    proof {
        reveal_with_fuel(pow2, 9);
        if count < 7 {
            lemma_pow2_mono(count as nat, 6);
        }
    }
    count
}

/// The lines that the repeat printer emits: the argument followed by a blank
/// line, five times over.
pub fn count(arg: String) -> (lines: Vec<String>)
    ensures
        lines@.len() == 10,
        forall|i: int| 0 <= i < 10 && i % 2 == 0 ==> (#[trigger] lines@[i])@ == arg@,
        forall|i: int| 0 <= i < 10 && i % 2 == 1 ==> (#[trigger] lines@[i])@ == Seq::<char>::empty(),
{
    let repeat_times: u32 = 5;
    let mut count: u32 = 0;
    let mut lines: Vec<String> = Vec::new();
    while count < repeat_times
        invariant
            repeat_times == 5,
            count <= 5,
            lines@.len() == 2 * count,
            forall|i: int| 0 <= i < lines@.len() && i % 2 == 0 ==> (#[trigger] lines@[i])@ == arg@,
            forall|i: int| 0 <= i < lines@.len() && i % 2 == 1 ==> (#[trigger] lines@[i])@
                == Seq::<char>::empty(),
        decreases 5 - count,
    {
        count += 1;
        lines.push(arg.clone());
        lines.push(String::new());
    }
    lines
}

} // verus!
