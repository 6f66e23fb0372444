//! The capacity prober: how much of the largest symbol an input uses, found
//! by asking the encoder about inputs shaped like it.

use crate::encoder::{encodes, fits, THEORETICAL_MAX};
use crate::search::{
    bisect, ceiling_for, climb, lemma_bisect_bounds, lemma_bisect_boundary, lemma_bisect_maximal,
    lemma_bisect_step, lemma_climb_boundary, lemma_climb_bounds, lemma_climb_maximal,
    lemma_climb_settle, lemma_climb_step, lemma_rounds_suffice, monotone, Ascent, Bisection,
    MAX_ROUNDS, RUNGS, SEARCH_WINDOW,
};
use vstd::prelude::*;
use vstd::slice::slice_subrange;
use vstd::string::StrSliceExecFns;
use vstd::string::StringSliceAdditionalSpecFns;

verus! {

/// `data` repeated from its start until `len` bytes are filled. An empty
/// input has nothing to repeat and stays empty.
pub open spec fn cycled(data: Seq<u8>, len: int) -> Seq<u8> {
    if data.len() == 0 {
        Seq::empty()
    } else {
        Seq::new(len as nat, |i: int| data[i % (data.len() as int)])
    }
}

/// The oracle of the upward search: whether `data`, repeated to a given
/// length, can be encoded.
pub open spec fn fits_cycled(data: Seq<u8>) -> spec_fn(int) -> bool {
    |len: int| fits(cycled(data, len))
}

/// The oracle of the downward search: whether the first bytes of `data`, up
/// to a given length, can be encoded.
pub open spec fn fits_prefix(data: Seq<u8>) -> spec_fn(int) -> bool {
    |len: int| fits(data.take(len))
}

/// Nine tenths of `n`, rounded down, but at least one: the estimate used
/// when no shorter prefix of an oversized input was found to fit.
pub open spec fn fallback_limit(n: int) -> int {
    if n * 9 / 10 >= 1 {
        n * 9 / 10
    } else {
        1
    }
}

/// `n` as a percentage of `max`, rounded to the nearest whole number (halves
/// upward) and held at `u32::MAX`; 100 where `max` is zero.
pub open spec fn percent_of(n: int, max: int) -> int {
    if max <= 0 {
        100
    } else if (200 * n + max) / (2 * max) > u32::MAX {
        u32::MAX as int
    } else {
        (200 * n + max) / (2 * max)
    }
}

/// What the prober reports about one input.
#[derive(Clone, Copy, Debug, PartialEq, Eq, Structural)]
pub struct CapacityReport {
    /// Length of the input in bytes.
    pub byte_count: usize,
    /// Length of the input in characters.
    pub char_count: usize,
    /// The longest length that was found to fit for inputs shaped like this
    /// one.
    pub max_capacity_bytes: usize,
    /// Always `THEORETICAL_MAX`.
    pub theoretical_max: usize,
    /// Whether the input itself can be encoded.
    pub is_within_limit: bool,
    /// Bytes by which the input exceeds the limit; zero when it fits.
    pub bytes_over: usize,
    /// Bytes that could still be added; zero when the input does not fit.
    pub bytes_remaining: usize,
    /// The input's length as a percentage of `max_capacity_bytes`.
    pub percentage_used: u32,
    /// Always true: the limit comes from trials, not from a table.
    pub verified: bool,
}

/// The report for an input of `n` bytes that fits, when the upward search
/// ended at `reached`.
pub open spec fn report_within(n: int, chars: int, reached: int) -> CapacityReport {
    CapacityReport {
        byte_count: n as usize,
        char_count: chars as usize,
        max_capacity_bytes: reached as usize,
        theoretical_max: THEORETICAL_MAX,
        is_within_limit: true,
        bytes_over: 0,
        bytes_remaining: if reached >= n {
            (reached - n) as usize
        } else {
            0
        },
        percentage_used: percent_of(n, reached) as u32,
        verified: true,
    }
}

/// The limit reported for an oversized input of `n` bytes when the downward
/// search ended at `found`.
pub open spec fn limit_below(n: int, found: int) -> int {
    if found > 0 {
        found
    } else {
        fallback_limit(n)
    }
}

/// The report for an input of `n` bytes that does not fit, when the
/// downward search ended at `found`.
pub open spec fn report_over(n: int, chars: int, found: int) -> CapacityReport {
    CapacityReport {
        byte_count: n as usize,
        char_count: chars as usize,
        max_capacity_bytes: limit_below(n, found) as usize,
        theoretical_max: THEORETICAL_MAX,
        is_within_limit: false,
        bytes_over: if n >= limit_below(n, found) {
            (n - limit_below(n, found)) as usize
        } else {
            0
        },
        bytes_remaining: 0,
        percentage_used: percent_of(n, limit_below(n, found)) as u32,
        verified: true,
    }
}

/// Where the upward search ends for `data`.
pub open spec fn upper_limit(data: Seq<u8>) -> int {
    climb(fits_cycled(data), data.len() as int, ceiling_for(data.len() as int), 0)
}

/// Where the downward search ends for `data`.
pub open spec fn lower_limit(data: Seq<u8>) -> int {
    bisect(
        fits_prefix(data),
        0,
        if data.len() <= THEORETICAL_MAX {
            data.len() as int
        } else {
            THEORETICAL_MAX as int
        },
        MAX_ROUNDS as nat,
    )
}

/// The report for an input of the bytes `data` and `chars` characters.
pub open spec fn capacity_report(data: Seq<u8>, chars: int) -> CapacityReport {
    if fits(data) {
        report_within(data.len() as int, chars, upper_limit(data))
    } else {
        report_over(data.len() as int, chars, lower_limit(data))
    }
}

/// Computes `percent_of` without overflow.
pub fn percentage(n: usize, max: usize) -> (p: u32)
    ensures
        p == percent_of(n as int, max as int),
{
    if max == 0 {
        100
    } else {
        let q: u128 = (200 * (n as u128) + (max as u128)) / (2 * (max as u128));
        if q > u32::MAX as u128 {
            u32::MAX
        } else {
            q as u32
        }
    }
}

/// Computes `fallback_limit` without overflow.
pub fn fallback(n: usize) -> (limit: usize)
    ensures
        limit == fallback_limit(n as int),
{
    let tenths: usize = n / 10 * 9 + (n % 10) * 9 / 10;
    assert(tenths == (n as int) * 9 / 10) by {
        let q = (n as int) / 10;
        let r = (n as int) % 10;
        assert((n as int) * 9 == 10 * (9 * q) + 9 * r);
        assert(9 * r == 10 * ((9 * r) / 10) + (9 * r) % 10);
    }
    if tenths >= 1 {
        tenths
    } else {
        1
    }
}

impl CapacityReport {
    /// The report for an input of `byte_count` bytes that fits, once the
    /// upward search has ended at `reached`.
    pub fn within(byte_count: usize, char_count: usize, reached: usize) -> (r: CapacityReport)
        ensures
            r == report_within(byte_count as int, char_count as int, reached as int),
    {
        CapacityReport {
            byte_count,
            char_count,
            max_capacity_bytes: reached,
            theoretical_max: THEORETICAL_MAX,
            is_within_limit: true,
            bytes_over: 0,
            bytes_remaining: if reached >= byte_count {
                reached - byte_count
            } else {
                0
            },
            percentage_used: percentage(byte_count, reached),
            verified: true,
        }
    }

    /// The report for an input of `byte_count` bytes that does not fit,
    /// once the downward search has ended at `found`.
    pub fn over(byte_count: usize, char_count: usize, found: usize) -> (r: CapacityReport)
        ensures
            r == report_over(byte_count as int, char_count as int, found as int),
    {
        let limit = if found > 0 {
            found
        } else {
            fallback(byte_count)
        };
        CapacityReport {
            byte_count,
            char_count,
            max_capacity_bytes: limit,
            theoretical_max: THEORETICAL_MAX,
            is_within_limit: false,
            bytes_over: if byte_count >= limit {
                byte_count - limit
            } else {
                0
            },
            bytes_remaining: 0,
            percentage_used: percentage(byte_count, limit),
            verified: true,
        }
    }
}

/// Repeats `data` from its start until `len` bytes are filled.
pub fn cycle_to(data: &[u8], len: usize) -> (v: Vec<u8>)
    ensures
        v@ == cycled(data@, len as int),
{
    let mut v: Vec<u8> = Vec::new();
    if data.len() == 0 {
        return v;
    }
    let mut at: usize = 0;
    while v.len() < len
        invariant
            data@.len() > 0,
            v@.len() <= len,
            at == (v@.len() as int) % (data@.len() as int),
            v@ == cycled(data@, v@.len() as int),
        decreases len - v@.len(),
    {
        let ghost before = v@;
        v.push(data[at]);
        at = if at + 1 == data.len() {
            0
        } else {
            at + 1
        };
        proof {
            let m = data@.len() as int;
            let k = before.len() as int;
            assert((k + 1) % m == if k % m + 1 == m {
                0
            } else {
                k % m + 1
            }) by (nonlinear_arith)
                requires
                    m > 0,
                    k >= 0,
            ;
            assert(v@ =~= cycled(data@, k + 1));
        }
    }
    v
}

/// Runs the upward search for `data`, which is known to fit.
pub fn search_above(data: &[u8]) -> (reached: usize)
    ensures
        reached == upper_limit(data@),
{
    let ghost oracle = fits_cycled(data@);
    let mut state = Ascent::start(data.len());
    proof {
        lemma_climb_settle(oracle, data@.len() as int, ceiling_for(data@.len() as int), 0);
    }
    loop
        invariant
            state.wf(),
            oracle == fits_cycled(data@),
            state.outcome(oracle) == upper_limit(data@),
        ensures
            state.rung >= RUNGS,
            state.outcome(oracle) == upper_limit(data@),
        decreases RUNGS - state.rung, state.ceiling - state.reached,
    {
        match state.trial() {
            None => {
                break ;
            },
            Some(len) => {
                let sample = cycle_to(data, len);
                let ok = encodes(sample.as_slice());
                proof {
                    lemma_climb_step(oracle, state);
                }
                state = state.advance(ok);
            },
        }
    }
    state.reached
}

/// Runs the downward search for `data`, which is known not to fit.
pub fn search_below(data: &[u8]) -> (found: usize)
    ensures
        found == lower_limit(data@),
{
    let ghost oracle = fits_prefix(data@);
    let mut state = Bisection::start(data.len());
    loop
        invariant
            state.wf(),
            state.high <= data@.len(),
            oracle == fits_prefix(data@),
            state.outcome(oracle) == lower_limit(data@),
        ensures
            state.rounds_left == 0 || state.low >= state.high,
            state.outcome(oracle) == lower_limit(data@),
        decreases state.rounds_left,
    {
        match state.trial() {
            None => {
                break ;
            },
            Some(len) => {
                let sample = slice_subrange(data, 0, len);
                assert(sample@ == data@.take(len as int));
                let ok = encodes(sample);
                proof {
                    lemma_bisect_step(oracle, state);
                }
                state = state.advance(ok);
            },
        }
    }
    state.low
}

/// The report for an input given as its bytes and its number of
/// characters.
pub fn check_capacity(data: &[u8], char_count: usize) -> (r: CapacityReport)
    ensures
        r == capacity_report(data@, char_count as int),
{
    if encodes(data) {
        CapacityReport::within(data.len(), char_count, search_above(data))
    } else {
        CapacityReport::over(data.len(), char_count, search_below(data))
    }
}

/// Tells whether `data` can be encoded and reports how much of the capacity
/// it uses. An input that is too long is no error here: the report says by
/// how much.
pub fn check_qr_capacity(data: &str) -> (r: (bool, CapacityReport))
    ensures
        r.0 == fits(data.spec_bytes()),
        r.1 == capacity_report(data.spec_bytes(), data@.len() as int),
{
    let report = check_capacity(data.as_bytes(), data.unicode_len());
    (report.is_within_limit, report)
}

/// Repeating an input to its own length gives the input back.
pub proof fn lemma_cycled_identity(data: Seq<u8>)
    ensures
        cycled(data, data.len() as int) == data,
{
    if data.len() > 0 {
        assert forall|i: int| 0 <= i < data.len() implies #[trigger] cycled(
            data,
            data.len() as int,
        )[i] == data[i] by {
            vstd::arithmetic::div_mod::lemma_small_mod(i as nat, data.len());
        }
    }
    assert(cycled(data, data.len() as int) =~= data);
}

/// The limit reported for an input that fits is a tested boundary: the
/// input repeated to that length fits, it lies between the input's length
/// and the end of the search window, and the next longer length is beyond
/// the window or was tried and did not fit.
pub proof fn lemma_upper_limit_tested(data: Seq<u8>)
    requires
        fits(data),
    ensures
        data.len() <= upper_limit(data),
        upper_limit(data) <= ceiling_for(data.len() as int) || upper_limit(data) == data.len(),
        fits(cycled(data, upper_limit(data))),
        upper_limit(data) + 1 <= ceiling_for(data.len() as int) ==> !fits(
            cycled(data, upper_limit(data) + 1),
        ),
{
    let n = data.len() as int;
    lemma_climb_bounds(fits_cycled(data), n, ceiling_for(n), 0);
    lemma_climb_boundary(fits_cycled(data), n, ceiling_for(n), 0);
    lemma_cycled_identity(data);
}

/// No trial of the upward search is longer than the theoretical maximum,
/// nor more than the search window above the input's length.
pub proof fn lemma_upper_limit_window(data: Seq<u8>)
    ensures
        ceiling_for(data.len() as int) <= THEORETICAL_MAX,
        ceiling_for(data.len() as int) <= data.len() + SEARCH_WINDOW,
        upper_limit(data) <= THEORETICAL_MAX || upper_limit(data) == data.len(),
        upper_limit(data) <= data.len() + SEARCH_WINDOW,
{
    let n = data.len() as int;
    lemma_climb_bounds(fits_cycled(data), n, ceiling_for(n), 0);
}

/// Where repeating the input further never makes it fit again, the limit
/// reported for an input that fits is the longest length of the search
/// window that fits.
pub proof fn lemma_upper_limit_maximal(data: Seq<u8>, len: int)
    requires
        monotone(fits_cycled(data), data.len() as int + 1, ceiling_for(data.len() as int)),
        data.len() < len <= ceiling_for(data.len() as int),
    ensures
        fits(cycled(data, len)) <==> len <= upper_limit(data),
{
    lemma_climb_maximal(
        fits_cycled(data),
        data.len() as int,
        ceiling_for(data.len() as int),
        len,
    );
}

/// The length found below an input that does not fit is a tested boundary:
/// it is shorter than the input and no longer than the theoretical maximum,
/// the prefix of that length fits unless the length is zero, and the prefix
/// one byte longer does not fit.
pub proof fn lemma_lower_limit_tested(data: Seq<u8>)
    requires
        !fits(data),
    ensures
        0 <= lower_limit(data) <= THEORETICAL_MAX,
        lower_limit(data) <= data.len(),
        lower_limit(data) > 0 ==> lower_limit(data) < data.len() && fits(
            data.take(lower_limit(data)),
        ),
        lower_limit(data) < data.len() ==> !fits(data.take(lower_limit(data) + 1))
            || lower_limit(data) == THEORETICAL_MAX,
{
    let n = data.len() as int;
    let high = if n <= THEORETICAL_MAX {
        n
    } else {
        THEORETICAL_MAX as int
    };
    lemma_rounds_suffice();
    lemma_bisect_bounds(fits_prefix(data), 0, high, MAX_ROUNDS as nat);
    lemma_bisect_boundary(fits_prefix(data), 0, high, MAX_ROUNDS as nat);
    assert(data.take(n) =~= data);
}

/// Where a longer prefix never fits when a shorter one does not, the length
/// found below an input that does not fit is the longest prefix, up to the
/// theoretical maximum, that fits.
pub proof fn lemma_lower_limit_maximal(data: Seq<u8>, len: int)
    requires
        monotone(
            fits_prefix(data),
            1,
            if data.len() <= THEORETICAL_MAX {
                data.len() as int
            } else {
                THEORETICAL_MAX as int
            },
        ),
        0 < len <= data.len(),
        len <= THEORETICAL_MAX,
    ensures
        fits(data.take(len)) <==> len <= lower_limit(data),
{
    let n = data.len() as int;
    let high = if n <= THEORETICAL_MAX {
        n
    } else {
        THEORETICAL_MAX as int
    };
    lemma_rounds_suffice();
    lemma_bisect_maximal(fits_prefix(data), 0, high, MAX_ROUNDS as nat, len);
}

/// What every report says, whatever the input: the fields that do not
/// depend on the search, and which of the two margins is zero.
pub proof fn lemma_report_shape(data: Seq<u8>, chars: int)
    requires
        data.len() <= usize::MAX,
        0 <= chars <= usize::MAX,
    ensures
        capacity_report(data, chars).byte_count == data.len(),
        capacity_report(data, chars).char_count == chars,
        capacity_report(data, chars).theoretical_max == THEORETICAL_MAX,
        capacity_report(data, chars).verified,
        capacity_report(data, chars).is_within_limit == fits(data),
        capacity_report(data, chars).is_within_limit ==> capacity_report(data, chars).bytes_over
            == 0 && capacity_report(data, chars).max_capacity_bytes == data.len()
            + capacity_report(data, chars).bytes_remaining,
        !capacity_report(data, chars).is_within_limit ==> capacity_report(
            data,
            chars,
        ).bytes_remaining == 0 && capacity_report(data, chars).max_capacity_bytes >= 1,
{
    let n = data.len() as int;
    if fits(data) {
        lemma_climb_bounds(fits_cycled(data), n, ceiling_for(n), 0);
    } else {
        lemma_lower_limit_tested(data);
    }
}

/// An input of at least two bytes that does not fit is reported as over
/// the limit by at least one byte, with nothing remaining.
pub proof fn lemma_oversized_is_over(data: Seq<u8>, chars: int)
    requires
        !fits(data),
        2 <= data.len() <= usize::MAX,
    ensures
        !capacity_report(data, chars).is_within_limit,
        capacity_report(data, chars).bytes_over > 0,
        capacity_report(data, chars).bytes_remaining == 0,
        capacity_report(data, chars).bytes_over + capacity_report(data, chars).max_capacity_bytes
            == data.len(),
{
    lemma_lower_limit_tested(data);
}

/// Where the empty input fits, its report shows nothing used and a limit at
/// the end of the search window, since an empty input stays empty however
/// often it is repeated.
pub proof fn lemma_empty_input(chars: int)
    requires
        fits(Seq::<u8>::empty()),
    ensures
        capacity_report(Seq::<u8>::empty(), chars) == report_within(0, chars, SEARCH_WINDOW as int),
        capacity_report(Seq::<u8>::empty(), chars).is_within_limit,
        capacity_report(Seq::<u8>::empty(), chars).byte_count == 0,
        capacity_report(Seq::<u8>::empty(), chars).percentage_used == 0,
        capacity_report(Seq::<u8>::empty(), chars).max_capacity_bytes == SEARCH_WINDOW,
{
    let data = Seq::<u8>::empty();
    let oracle = fits_cycled(data);
    assert forall|len: int| #[trigger] oracle(len) by {
        assert(cycled(data, len) == data);
    }
    reveal_with_fuel(climb, 14);
    assert(climb(oracle, 0, 1000, 0) == 1000);
}

/// The reported percentage is the nearest whole number to the true ratio:
/// it is off by at most half a percent of the limit.
pub proof fn lemma_percent_nearest(n: int, max: int)
    requires
        0 <= n,
        0 < max,
        (200 * n + max) / (2 * max) <= u32::MAX,
    ensures
        2 * max * percent_of(n, max) <= 200 * n + max,
        200 * n + max < 2 * max * (percent_of(n, max) + 1),
{
    vstd::arithmetic::div_mod::lemma_fundamental_div_mod(200 * n + max, 2 * max);
    vstd::arithmetic::div_mod::lemma_mod_bound(200 * n + max, 2 * max);
    assert(2 * max * (percent_of(n, max) + 1) == 2 * max * percent_of(n, max) + 2 * max)
        by (nonlinear_arith);
}

} // verus!
