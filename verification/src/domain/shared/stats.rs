//! Averages of recorded durations.
use vstd::prelude::*;

verus! {

/// Sum of a sequence of times.
pub open spec fn sum_times(s: Seq<i64>) -> int
    decreases s.len(),
{
    if s.len() == 0 {
        0
    } else {
        sum_times(s.drop_last()) + s.last()
    }
}

/// Integer division rounding toward zero, as Rust's `/` does.
pub open spec fn div_toward_zero(a: int, b: int) -> int {
    if a >= 0 {
        a / b
    } else {
        -((-a) / b)
    }
}

/// The average of the recorded times, rounded toward zero (zero when there are none).
pub open spec fn average_time(s: Seq<i64>) -> int {
    if s.len() == 0 {
        0
    } else {
        div_toward_zero(sum_times(s), s.len() as int)
    }
}

/// An average of values that fit in `i64` fits in `i64`.
pub proof fn lemma_average_bounds(sum: int, n: int)
    requires
        n >= 1,
        -n * 0x8000_0000_0000_0000 <= sum <= n * 0x7fff_ffff_ffff_ffff,
    ensures
        -0x8000_0000_0000_0000 <= div_toward_zero(sum, n) <= 0x7fff_ffff_ffff_ffff,
{
    if sum >= 0 {
        assert(sum / n <= 0x7fff_ffff_ffff_ffff) by (nonlinear_arith)
            requires
                n >= 1,
                0 <= sum <= n * 0x7fff_ffff_ffff_ffff,
        {
        }
        assert(sum / n >= 0) by (nonlinear_arith)
            requires
                n >= 1,
                0 <= sum,
        {
        }
    } else {
        assert((-sum) / n <= 0x8000_0000_0000_0000) by (nonlinear_arith)
            requires
                n >= 1,
                0 <= -sum <= n * 0x8000_0000_0000_0000,
        {
        }
        assert((-sum) / n >= 0) by (nonlinear_arith)
            requires
                n >= 1,
                0 <= -sum,
        {
        }
    }
}

/// The average of the values, rounded toward zero (zero when there are none).
pub fn average_of(v: &Vec<i64>) -> (r: i64)
    requires
        v@.len() <= 1_000_000,
    ensures
        r == average_time(v@),
{
    let n = v.len();
    if n == 0 {
        return 0;
    }
    let mut sum: i128 = 0;
    let mut i: usize = 0;
    while i < n
        invariant
            n == v@.len(),
            n <= 1_000_000,
            i <= n,
            sum == sum_times(v@.take(i as int)),
            -(i as int) * 0x8000_0000_0000_0000 <= sum <= (i as int) * 0x7fff_ffff_ffff_ffff,
        decreases n - i,
    {
        assert(v@.take(i + 1).drop_last() =~= v@.take(i as int));
        sum = sum + v[i] as i128;
        i = i + 1;
    }
    assert(v@.take(n as int) =~= v@);
    let avg: i128 = if sum >= 0 {
        sum / (n as i128)
    } else {
        -((-sum) / (n as i128))
    };
    proof {
        lemma_average_bounds(sum as int, n as int);
    }
    avg as i64
}

} // verus!
