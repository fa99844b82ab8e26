//! Averages and report lines of the timing benchmarks.

use vstd::prelude::*;

use crate::decimal::{decimal, push_decimal};
use crate::text::{pad_left_spec, pad_right_spec, push_decimal_padded_left, push_padded_right};

verus! {

/// The mean time per loop, in whole microseconds (rounded down).
pub fn average_micros(total_us: u128, loops: usize) -> (avg: u128)
    requires
        loops > 0,
    ensures
        avg == total_us / (loops as u128),
{
    total_us / (loops as u128)
}

/// The width of the loop-count column.
pub const LOOPS_WIDTH: usize = 4;

/// A benchmark report line: `name` padded to `name_width`, then
/// `loops=` with the count right-aligned in four columns, then `avg_us=` and
/// the mean.
pub open spec fn bench_line_spec(name: Seq<char>, name_width: nat, loops: nat, avg_us: nat) -> Seq<
    char,
> {
    pad_right_spec(name, name_width) + " loops="@ + pad_left_spec(decimal(loops), LOOPS_WIDTH as nat)
        + " avg_us="@ + decimal(avg_us)
}

/// The report line of one benchmark.
pub fn bench_line(name: &str, name_width: usize, loops: usize, avg_us: u128) -> (line: String)
    ensures
        line@ == bench_line_spec(name@, name_width as nat, loops as nat, avg_us as nat),
{
    let mut line = String::new();
    push_padded_right(&mut line, name, name_width);
    line.append(" loops=");
    push_decimal_padded_left(&mut line, loops as u128, LOOPS_WIDTH);
    line.append(" avg_us=");
    push_decimal(&mut line, avg_us);
    line
}

} // verus!
