//! The two bounded searches of the capacity prober, written as state
//! machines: each yields the next length to try and is told whether that
//! length could be encoded.

use crate::encoder::THEORETICAL_MAX;
use vstd::prelude::*;

verus! {

/// How far above the input's own length the upward search may look.
pub const SEARCH_WINDOW: usize = 1000;

/// Number of step sizes of the upward search.
pub const RUNGS: usize = 7;

/// Most halvings that the downward search performs.
pub const MAX_ROUNDS: usize = 15;

/// The step sizes of the upward search, coarsest first.
pub open spec fn step_size(rung: int) -> int {
    if rung <= 0 {
        200
    } else if rung == 1 {
        100
    } else if rung == 2 {
        50
    } else if rung == 3 {
        25
    } else if rung == 4 {
        10
    } else if rung == 5 {
        5
    } else {
        1
    }
}

/// The step size of a rung as a machine integer.
pub fn step_of(rung: usize) -> (s: usize)
    ensures
        s == step_size(rung as int),
        1 <= s <= 200,
{
    if rung == 0 {
        200
    } else if rung == 1 {
        100
    } else if rung == 2 {
        50
    } else if rung == 3 {
        25
    } else if rung == 4 {
        10
    } else if rung == 5 {
        5
    } else {
        1
    }
}

/// The largest length that the upward search may try for an input of `n`
/// bytes: never beyond the theoretical maximum, never more than the window
/// above `n`.
pub open spec fn ceiling_for(n: int) -> int {
    if n + SEARCH_WINDOW <= THEORETICAL_MAX {
        n + SEARCH_WINDOW
    } else {
        THEORETICAL_MAX as int
    }
}

/// The first rung at or after `rung` whose step still fits under `ceiling`
/// when added to `reached`; `RUNGS` when none does.
pub open spec fn settle(reached: int, ceiling: int, rung: int) -> int
    decreases RUNGS - rung,
{
    if rung >= RUNGS {
        RUNGS as int
    } else if reached + step_size(rung) <= ceiling {
        rung
    } else {
        settle(reached, ceiling, rung + 1)
    }
}

/// The length at which the upward search ends when `fits` answers its
/// trials. At each rung it keeps adding that rung's step while the new
/// length stays under `ceiling` and fits; after the first length that does
/// not fit it goes on from the last one that did, with the next smaller step.
pub open spec fn climb(fits: spec_fn(int) -> bool, reached: int, ceiling: int, rung: int) -> int
    decreases RUNGS - rung, ceiling - reached,
{
    if rung < 0 || rung >= RUNGS {
        reached
    } else if reached + step_size(rung) > ceiling {
        climb(fits, reached, ceiling, rung + 1)
    } else if fits(reached + step_size(rung)) {
        climb(fits, reached + step_size(rung), ceiling, rung)
    } else {
        climb(fits, reached, ceiling, rung + 1)
    }
}

/// The upward search in progress.
#[derive(Clone, Copy, Debug)]
pub struct Ascent {
    /// The longest length known to fit: the input's own length at first.
    pub reached: usize,
    /// No trial is longer than this.
    pub ceiling: usize,
    /// Index of the step size in use; `RUNGS` once the search is over.
    pub rung: usize,
}

impl Ascent {
    /// The state always rests on a rung whose step can still be taken.
    pub open spec fn wf(&self) -> bool {
        &&& self.ceiling <= THEORETICAL_MAX
        &&& self.rung <= RUNGS
        &&& self.rung < RUNGS ==> self.reached + step_size(self.rung as int) <= self.ceiling
    }

    /// The length that the whole search ends at under the oracle `fits`.
    pub open spec fn outcome(&self, fits: spec_fn(int) -> bool) -> int {
        climb(fits, self.reached as int, self.ceiling as int, self.rung as int)
    }

    /// The next length to try, if the search is not over.
    pub open spec fn next_trial(&self) -> Option<int> {
        if self.rung < RUNGS {
            Some(self.reached + step_size(self.rung as int))
        } else {
            None
        }
    }

    /// The state after the trial `next_trial` was answered with `fits`.
    pub open spec fn after(&self, fits: bool) -> Ascent {
        if fits {
            let reached = self.reached + step_size(self.rung as int);
            Ascent {
                reached: reached as usize,
                ceiling: self.ceiling,
                rung: settle(reached, self.ceiling as int, self.rung as int) as usize,
            }
        } else {
            Ascent {
                reached: self.reached,
                ceiling: self.ceiling,
                rung: settle(self.reached as int, self.ceiling as int, self.rung + 1) as usize,
            }
        }
    }

    /// Moves `rung` forward to the first one whose step fits under the
    /// ceiling.
    fn settled(reached: usize, ceiling: usize, rung: usize) -> (r: usize)
        requires
            rung <= RUNGS,
            ceiling <= THEORETICAL_MAX,
        ensures
            r == settle(reached as int, ceiling as int, rung as int),
            rung <= r <= RUNGS,
            r < RUNGS ==> reached + step_size(r as int) <= ceiling,
    {
        let mut r: usize = rung;
        while r < RUNGS && (reached > ceiling || step_of(r) > ceiling - reached)
            invariant
                rung <= r <= RUNGS,
                settle(reached as int, ceiling as int, r as int) == settle(
                    reached as int,
                    ceiling as int,
                    rung as int,
                ),
            decreases RUNGS - r,
        {
            r = r + 1;
        }
        r
    }

    /// Begins the search above an input of `n` bytes that is known to fit.
    pub fn start(n: usize) -> (s: Ascent)
        ensures
            s.wf(),
            s.reached == n,
            s.ceiling == ceiling_for(n as int),
            s.rung == settle(n as int, ceiling_for(n as int), 0),
    {
        let ceiling = if n <= THEORETICAL_MAX - SEARCH_WINDOW {
            n + SEARCH_WINDOW
        } else {
            THEORETICAL_MAX
        };
        let rung = Ascent::settled(n, ceiling, 0);
        Ascent { reached: n, ceiling, rung }
    }

    /// The next length to try; `None` when the search is over and `reached`
    /// is its result.
    pub fn trial(&self) -> (t: Option<usize>)
        requires
            self.wf(),
        ensures
            t is Some <==> self.rung < RUNGS,
            t matches Some(len) ==> self.next_trial() == Some(len as int) && self.reached < len
                <= self.ceiling,
    {
        if self.rung < RUNGS {
            Some(self.reached + step_of(self.rung))
        } else {
            None
        }
    }

    /// Takes the answer to the pending trial: a length that fits becomes the
    /// new `reached`, one that does not ends the current rung.
    pub fn advance(self, fits: bool) -> (s: Ascent)
        requires
            self.wf(),
            self.rung < RUNGS,
        ensures
            s == self.after(fits),
            s.wf(),
            s.ceiling == self.ceiling,
            fits ==> s.reached == self.reached + step_size(self.rung as int) && s.rung
                >= self.rung,
            !fits ==> s.reached == self.reached && s.rung > self.rung,
    {
        if fits {
            let reached = self.reached + step_of(self.rung);
            let rung = Ascent::settled(reached, self.ceiling, self.rung);
            Ascent { reached, ceiling: self.ceiling, rung }
        } else {
            let rung = Ascent::settled(self.reached, self.ceiling, self.rung + 1);
            Ascent { reached: self.reached, ceiling: self.ceiling, rung }
        }
    }
}

/// Skipping the rungs whose step no longer fits under the ceiling does not
/// change where the search ends.
pub proof fn lemma_climb_settle(fits: spec_fn(int) -> bool, reached: int, ceiling: int, rung: int)
    requires
        0 <= rung,
    ensures
        climb(fits, reached, ceiling, rung) == climb(
            fits,
            reached,
            ceiling,
            settle(reached, ceiling, rung),
        ),
        rung <= RUNGS ==> rung <= settle(reached, ceiling, rung) <= RUNGS,
    decreases RUNGS - rung,
{
    if rung < RUNGS && reached + step_size(rung) > ceiling {
        lemma_climb_settle(fits, reached, ceiling, rung + 1);
    }
}

/// One answered trial carries the search from a state to its successor
/// without changing where the search ends.
pub proof fn lemma_climb_step(fits: spec_fn(int) -> bool, s: Ascent)
    requires
        s.wf(),
        s.rung < RUNGS,
    ensures
        s.outcome(fits) == s.after(fits(s.reached + step_size(s.rung as int))).outcome(fits),
{
    let next = s.reached + step_size(s.rung as int);
    if fits(next) {
        lemma_climb_settle(fits, next, s.ceiling as int, s.rung as int);
    } else {
        lemma_climb_settle(fits, s.reached as int, s.ceiling as int, s.rung + 1);
    }
}

/// The upward search ends at or above where it began and inside the
/// window, and it ends on a length that was tried and fitted unless no trial
/// fitted at all.
pub proof fn lemma_climb_bounds(fits: spec_fn(int) -> bool, reached: int, ceiling: int, rung: int)
    requires
        0 <= rung,
    ensures
        reached <= climb(fits, reached, ceiling, rung),
        climb(fits, reached, ceiling, rung) <= ceiling || climb(fits, reached, ceiling, rung)
            == reached,
        climb(fits, reached, ceiling, rung) == reached || fits(
            climb(fits, reached, ceiling, rung),
        ),
    decreases RUNGS - rung, ceiling - reached,
{
    if rung >= RUNGS {
    } else if reached + step_size(rung) > ceiling {
        lemma_climb_bounds(fits, reached, ceiling, rung + 1);
    } else if fits(reached + step_size(rung)) {
        lemma_climb_bounds(fits, reached + step_size(rung), ceiling, rung);
    } else {
        lemma_climb_bounds(fits, reached, ceiling, rung + 1);
    }
}

/// The upward search ends on a tested boundary: the next longer length is
/// outside the window or was tried and did not fit.
pub proof fn lemma_climb_boundary(
    fits: spec_fn(int) -> bool,
    reached: int,
    ceiling: int,
    rung: int,
)
    requires
        0 <= rung < RUNGS,
    ensures
        climb(fits, reached, ceiling, rung) + 1 > ceiling || !fits(
            climb(fits, reached, ceiling, rung) + 1,
        ),
    decreases RUNGS - rung, ceiling - reached,
{
    if fits(reached + step_size(rung)) && reached + step_size(rung) <= ceiling {
        lemma_climb_boundary(fits, reached + step_size(rung), ceiling, rung);
    } else if rung + 1 < RUNGS {
        lemma_climb_boundary(fits, reached, ceiling, rung + 1);
    } else {
        assert(climb(fits, reached, ceiling, rung + 1) == reached);
    }
}

/// Whether `fits` never turns from false to true as the length grows from
/// `from` to `to`.
pub open spec fn monotone(fits: spec_fn(int) -> bool, from: int, to: int) -> bool {
    forall|j: int, k: int| from <= j <= k <= to && #[trigger] fits(k) ==> #[trigger] fits(j)
}

/// Where fitting is monotone in the length, the upward search finds the
/// longest length of the window that fits.
pub proof fn lemma_climb_maximal(fits: spec_fn(int) -> bool, reached: int, ceiling: int, k: int)
    requires
        monotone(fits, reached + 1, ceiling),
        reached < k <= ceiling,
    ensures
        fits(k) <==> k <= climb(fits, reached, ceiling, 0),
{
    let top = climb(fits, reached, ceiling, 0);
    lemma_climb_bounds(fits, reached, ceiling, 0);
    lemma_climb_boundary(fits, reached, ceiling, 0);
    if k <= top {
        assert(fits(top));
    } else {
        assert(!fits(top + 1));
    }
}

/// The length at which the downward search ends when `fits` answers its
/// trials: it halves the range between `low` and `high`, keeping the upper
/// half where the middle fits and the lower half where it does not, for at
/// most `rounds` halvings.
pub open spec fn bisect(fits: spec_fn(int) -> bool, low: int, high: int, rounds: nat) -> int
    decreases rounds,
{
    if rounds == 0 || low >= high {
        low
    } else if fits((low + high + 1) / 2) {
        bisect(fits, (low + high + 1) / 2, high, (rounds - 1) as nat)
    } else {
        bisect(fits, low, (low + high + 1) / 2 - 1, (rounds - 1) as nat)
    }
}

/// The number of lengths that `rounds` halvings can tell apart.
pub open spec fn span(rounds: nat) -> nat
    decreases rounds,
{
    if rounds == 0 {
        1
    } else {
        2 * span((rounds - 1) as nat)
    }
}

/// The downward search in progress.
#[derive(Clone, Copy, Debug)]
pub struct Bisection {
    /// The longest prefix known to fit, or zero.
    pub low: usize,
    /// No longer prefix can still be the answer.
    pub high: usize,
    /// Halvings that are still allowed.
    pub rounds_left: usize,
}

impl Bisection {
    /// The range is in order and below the theoretical maximum, and no
    /// more rounds are left than the search begins with.
    pub open spec fn wf(&self) -> bool {
        &&& self.low <= self.high <= THEORETICAL_MAX
        &&& self.rounds_left <= MAX_ROUNDS
    }

    /// The length that the whole search ends at under the oracle `fits`.
    pub open spec fn outcome(&self, fits: spec_fn(int) -> bool) -> int {
        bisect(fits, self.low as int, self.high as int, self.rounds_left as nat)
    }

    /// The middle of the range, rounded up.
    pub open spec fn middle(&self) -> int {
        (self.low + self.high + 1) / 2
    }

    /// The next length to try, if the search is not over.
    pub open spec fn next_trial(&self) -> Option<int> {
        if self.rounds_left > 0 && self.low < self.high {
            Some(self.middle())
        } else {
            None
        }
    }

    /// The state after the trial `next_trial` was answered with `fits`.
    pub open spec fn after(&self, fits: bool) -> Bisection {
        if fits {
            Bisection {
                low: self.middle() as usize,
                high: self.high,
                rounds_left: (self.rounds_left - 1) as usize,
            }
        } else {
            Bisection {
                low: self.low,
                high: (self.middle() - 1) as usize,
                rounds_left: (self.rounds_left - 1) as usize,
            }
        }
    }

    /// Begins the search below an input of `n` bytes that does not fit.
    pub fn start(n: usize) -> (s: Bisection)
        ensures
            s.wf(),
            s.low == 0,
            s.high == if n <= THEORETICAL_MAX {
                n
            } else {
                THEORETICAL_MAX
            },
            s.rounds_left == MAX_ROUNDS,
    {
        let high = if n <= THEORETICAL_MAX {
            n
        } else {
            THEORETICAL_MAX
        };
        Bisection { low: 0, high, rounds_left: MAX_ROUNDS }
    }

    /// The next length to try; `None` when the search is over and `low` is
    /// its result.
    pub fn trial(&self) -> (t: Option<usize>)
        requires
            self.wf(),
        ensures
            t is Some <==> self.rounds_left > 0 && self.low < self.high,
            t matches Some(len) ==> self.next_trial() == Some(len as int) && self.low < len
                <= self.high,
    {
        if self.rounds_left > 0 && self.low < self.high {
            Some((self.low + self.high + 1) / 2)
        } else {
            None
        }
    }

    /// Takes the answer to the pending trial: a prefix that fits raises
    /// `low` to it, one that does not lowers `high` below it.
    pub fn advance(self, fits: bool) -> (s: Bisection)
        requires
            self.wf(),
            self.rounds_left > 0,
            self.low < self.high,
        ensures
            s == self.after(fits),
            s.wf(),
            s.rounds_left == self.rounds_left - 1,
            fits ==> s.low == self.middle() && s.high == self.high,
            !fits ==> s.low == self.low && s.high == self.middle() - 1,
    {
        let mid = (self.low + self.high + 1) / 2;
        if fits {
            Bisection { low: mid, high: self.high, rounds_left: self.rounds_left - 1 }
        } else {
            Bisection { low: self.low, high: mid - 1, rounds_left: self.rounds_left - 1 }
        }
    }
}

/// One answered trial carries the downward search from a state to its
/// successor without changing where the search ends.
pub proof fn lemma_bisect_step(fits: spec_fn(int) -> bool, s: Bisection)
    requires
        s.wf(),
        s.rounds_left > 0,
        s.low < s.high,
    ensures
        s.outcome(fits) == s.after(fits(s.middle())).outcome(fits),
{
}

/// The downward search ends inside its range, and on a length that was
/// tried and fitted unless no trial fitted at all.
pub proof fn lemma_bisect_bounds(fits: spec_fn(int) -> bool, low: int, high: int, rounds: nat)
    requires
        low <= high,
    ensures
        low <= bisect(fits, low, high, rounds) <= high,
        bisect(fits, low, high, rounds) == low || fits(bisect(fits, low, high, rounds)),
    decreases rounds,
{
    if rounds == 0 || low >= high {
    } else if fits((low + high + 1) / 2) {
        lemma_bisect_bounds(fits, (low + high + 1) / 2, high, (rounds - 1) as nat);
    } else {
        lemma_bisect_bounds(fits, low, (low + high + 1) / 2 - 1, (rounds - 1) as nat);
    }
}

/// Where the rounds suffice for the range, the downward search ends on a
/// tested boundary: it reaches the top of its range, or the next longer
/// length was tried and did not fit.
pub proof fn lemma_bisect_boundary(fits: spec_fn(int) -> bool, low: int, high: int, rounds: nat)
    requires
        low <= high,
        high - low < span(rounds),
    ensures
        bisect(fits, low, high, rounds) == high || !fits(bisect(fits, low, high, rounds) + 1),
    decreases rounds,
{
    if low >= high {
    } else {
        let mid = (low + high + 1) / 2;
        if fits(mid) {
            lemma_bisect_boundary(fits, mid, high, (rounds - 1) as nat);
        } else {
            lemma_bisect_bounds(fits, low, mid - 1, (rounds - 1) as nat);
            lemma_bisect_boundary(fits, low, mid - 1, (rounds - 1) as nat);
        }
    }
}

/// Fifteen halvings tell apart every length up to the theoretical maximum,
/// so the bound on the rounds never cuts the downward search short.
pub proof fn lemma_rounds_suffice()
    ensures
        THEORETICAL_MAX < span(MAX_ROUNDS as nat),
{
    reveal_with_fuel(span, 16);
}

/// Where fitting is monotone in the length, the downward search finds the
/// longest prefix of its range that fits.
pub proof fn lemma_bisect_maximal(
    fits: spec_fn(int) -> bool,
    low: int,
    high: int,
    rounds: nat,
    k: int,
)
    requires
        low <= high,
        high - low < span(rounds),
        monotone(fits, low + 1, high),
        low < k <= high,
    ensures
        fits(k) <==> k <= bisect(fits, low, high, rounds),
{
    let top = bisect(fits, low, high, rounds);
    lemma_bisect_bounds(fits, low, high, rounds);
    lemma_bisect_boundary(fits, low, high, rounds);
    if k <= top {
        assert(fits(top));
    } else {
        assert(!fits(top + 1));
    }
}

} // verus!
