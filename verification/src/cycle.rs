//! The cycle that a body walks, as mathematics.
//!
//! A [`Cycle`] is the state of one body with the machine taken away: the
//! contents of its frames, its loop limit, the index of the frame it emits
//! next and the number of passes it has completed. [`Cycle::tick`] is one
//! timer tick. The executable body is proved to move exactly as `tick` says,
//! so what is shown here of runs of any length holds of the body too.
use vstd::arithmetic::div_mod::lemma_fundamental_div_mod;
use vstd::arithmetic::div_mod::lemma_fundamental_div_mod_converse;
use vstd::arithmetic::div_mod::lemma_mod_bound;
use vstd::arithmetic::div_mod::lemma_multiply_divide_lt;
use vstd::arithmetic::mul::lemma_mul_is_commutative;
use vstd::prelude::*;

verus! {

/// The state of a body between two ticks.
pub struct Cycle {
    /// The contents of the frames, in the order in which they are emitted.
    pub frames: Seq<Seq<u8>>,
    /// The number of passes after which the body ends, if it ever does.
    pub limit: Option<nat>,
    /// The index of the frame that the next tick emits.
    pub cursor: nat,
    /// The number of passes through the frames that are complete.
    pub passes: nat,
}

/// The pass count after one more pass. A body holds the count in a `usize`;
/// once that is full the count stays where it is. Only a body without a
/// limit can get there, and such a body never reads the count.
pub open spec fn count_pass(passes: nat) -> nat {
    if passes < usize::MAX {
        passes + 1
    } else {
        passes
    }
}

impl Cycle {
    /// A body that has emitted nothing yet.
    pub open spec fn start(frames: Seq<Seq<u8>>, limit: Option<nat>) -> Cycle {
        Cycle { frames, limit, cursor: 0, passes: 0 }
    }

    /// What holds of every state that a body can be in: there is a frame to
    /// emit, the cursor points at one, and the pass count has not gone
    /// beyond the limit.
    pub open spec fn wf(self) -> bool {
        &&& self.frames.len() > 0
        &&& self.cursor < self.frames.len()
        &&& self.passes <= usize::MAX
        &&& self.limit matches Some(limit) ==> limit <= usize::MAX && self.passes <= limit
    }

    /// Whether the body has completed as many passes as its limit allows.
    pub open spec fn exhausted(self) -> bool {
        self.limit matches Some(limit) && self.passes >= limit
    }

    /// What the next tick hands out: the frame under the cursor, or nothing
    /// once the body is exhausted.
    pub open spec fn emits(self) -> Option<Seq<u8>> {
        if self.exhausted() {
            None
        } else {
            Some(self.frames[self.cursor as int])
        }
    }

    /// The state after one tick. An exhausted body stays as it is. Any other
    /// moves its cursor on by one frame; from the last frame the cursor goes
    /// back to the first, and one more pass is complete.
    pub open spec fn tick(self) -> Cycle {
        if self.exhausted() {
            self
        } else if self.cursor + 1 < self.frames.len() {
            Cycle { cursor: self.cursor + 1, ..self }
        } else {
            Cycle { cursor: 0, passes: count_pass(self.passes), ..self }
        }
    }

    /// The state after `ticks` ticks.
    pub open spec fn after(self, ticks: nat) -> Cycle
        decreases ticks,
    {
        if ticks == 0 {
            self
        } else {
            self.after((ticks - 1) as nat).tick()
        }
    }

    /// The number of bytes that the body emits from start to end: the
    /// frames' summed length once per pass, or nothing that can be known in
    /// advance where the body has no limit.
    pub open spec fn total_size(self) -> Option<nat> {
        match self.limit {
            Some(limit) => Some(crate::frames::total_len(self.frames) * limit),
            None => None,
        }
    }
}

/// A tick keeps a valid state valid, and changes neither the frames nor the
/// limit.
pub proof fn lemma_tick_preserves(cycle: Cycle)
    requires
        cycle.wf(),
    ensures
        cycle.tick().wf(),
        cycle.tick().frames == cycle.frames,
        cycle.tick().limit == cycle.limit,
{
}

/// Every state that a started body reaches is valid, and has the frames and
/// the limit that the body started with.
pub proof fn lemma_run_preserves(frames: Seq<Seq<u8>>, limit: Option<nat>, ticks: nat)
    requires
        frames.len() > 0,
        limit matches Some(n) ==> n <= usize::MAX,
    ensures
        Cycle::start(frames, limit).after(ticks).wf(),
        Cycle::start(frames, limit).after(ticks).frames == frames,
        Cycle::start(frames, limit).after(ticks).limit == limit,
    decreases ticks,
{
    if ticks > 0 {
        lemma_run_preserves(frames, limit, (ticks - 1) as nat);
        lemma_tick_preserves(Cycle::start(frames, limit).after((ticks - 1) as nat));
    }
}

/// The pass count never goes down: a later state has completed at least as
/// many passes as an earlier one.
pub proof fn lemma_passes_never_decrease(cycle: Cycle, earlier: nat, later: nat)
    requires
        earlier <= later,
    ensures
        cycle.after(earlier).passes <= cycle.after(later).passes,
    decreases later,
{
    if earlier < later {
        lemma_passes_never_decrease(cycle, earlier, (later - 1) as nat);
    }
}

/// Exhaustion is final: an exhausted body emits nothing, and no number of
/// ticks moves it out of the state it is in.
pub proof fn lemma_exhausted_is_final(cycle: Cycle, ticks: nat)
    requires
        cycle.exhausted(),
    ensures
        cycle.after(ticks) == cycle,
        cycle.after(ticks).emits() is None,
    decreases ticks,
{
    if ticks > 0 {
        lemma_exhausted_is_final(cycle, (ticks - 1) as nat);
    }
}

/// Where `ticks` and `ticks + 1` stand in a cycle of `len` frames: the index
/// moves on by one within a pass, and goes back to zero as a pass completes.
proof fn lemma_next_position(ticks: int, len: int)
    requires
        ticks >= 0,
        len > 0,
    ensures
        0 <= ticks % len < len,
        ticks % len + 1 < len ==> (ticks + 1) % len == ticks % len + 1 && (ticks + 1) / len
            == ticks / len,
        ticks % len + 1 == len ==> (ticks + 1) % len == 0 && (ticks + 1) / len == ticks / len + 1,
{
    lemma_mod_bound(ticks, len);
    lemma_fundamental_div_mod(ticks, len);
    lemma_mul_is_commutative(len, ticks / len);
    if ticks % len + 1 < len {
        lemma_fundamental_div_mod_converse(ticks + 1, len, ticks / len, ticks % len + 1);
    } else {
        assert((ticks / len + 1) * len == (ticks / len) * len + len) by (nonlinear_arith);
        lemma_fundamental_div_mod_converse(ticks + 1, len, ticks / len + 1, 0);
    }
}

/// A body with a limit, from its start up to the tick on which it is
/// exhausted: after `ticks` ticks the cursor stands at `ticks` modulo the
/// number of frames, and the completed passes are the quotient.
proof fn lemma_limited_position(frames: Seq<Seq<u8>>, limit: nat, ticks: nat)
    requires
        frames.len() > 0,
        limit <= usize::MAX,
        ticks <= limit * frames.len(),
    ensures
        Cycle::start(frames, Some(limit)).after(ticks) == (Cycle {
            frames,
            limit: Some(limit),
            cursor: ticks % frames.len(),
            passes: ticks / frames.len(),
        }),
        ticks < limit * frames.len() <==> ticks / frames.len() < limit,
    decreases ticks,
{
    let len = frames.len();
    assert(limit * len == len * limit) by (nonlinear_arith);
    if ticks < limit * len {
        lemma_multiply_divide_lt(ticks as int, len as int, limit as int);
    } else {
        lemma_fundamental_div_mod_converse(ticks as int, len as int, limit as int, 0);
    }
    if ticks == 0 {
        lemma_fundamental_div_mod_converse(0, len as int, 0, 0);
    } else {
        let before = (ticks - 1) as nat;
        lemma_limited_position(frames, limit, before);
        lemma_next_position(before as int, len as int);
    }
}

/// A body with limit `limit` over `len` frames emits on each of its first
/// `limit * len` ticks, and what it emits on tick number `ticks` (counting
/// from zero) is frame number `ticks % len`: the frames in order, over and
/// over. From then on it is exhausted: it stands at the first frame with
/// `limit` passes complete, and emits nothing on any later tick. So it emits
/// exactly `limit * len` frames in all.
pub proof fn lemma_limited_emissions(frames: Seq<Seq<u8>>, limit: nat, ticks: nat)
    requires
        frames.len() > 0,
        limit <= usize::MAX,
    ensures
        ticks < limit * frames.len() ==> Cycle::start(frames, Some(limit)).after(ticks).emits()
            == Some(frames[(ticks % frames.len()) as int]),
        ticks >= limit * frames.len() ==> Cycle::start(frames, Some(limit)).after(ticks).emits()
            is None,
        ticks >= limit * frames.len() <==> Cycle::start(frames, Some(limit)).after(
            ticks,
        ).exhausted(),
        ticks >= limit * frames.len() ==> Cycle::start(frames, Some(limit)).after(ticks) == (Cycle {
            frames,
            limit: Some(limit),
            cursor: 0,
            passes: limit,
        }),
    decreases ticks,
{
    let len = frames.len();
    let begin = Cycle::start(frames, Some(limit));
    if ticks <= limit * len {
        lemma_limited_position(frames, limit, ticks);
        if ticks == limit * len {
            lemma_fundamental_div_mod_converse(ticks as int, len as int, limit as int, 0);
        }
    } else {
        let before = (ticks - 1) as nat;
        lemma_limited_emissions(frames, limit, before);
        lemma_exhausted_is_final(begin.after(before), 1);
        assert(begin.after(before).after(1) == begin.after(before).after(0).tick());
    }
}

/// A body without a limit never ends: on every tick it emits, and what it
/// emits on tick number `ticks` (counting from zero) is frame number
/// `ticks % len`: the frames in order, over and over, for ever.
pub proof fn lemma_unlimited_emissions(frames: Seq<Seq<u8>>, ticks: nat)
    requires
        frames.len() > 0,
    ensures
        !Cycle::start(frames, None).after(ticks).exhausted(),
        Cycle::start(frames, None).after(ticks).cursor == ticks % frames.len(),
        Cycle::start(frames, None).after(ticks).emits() == Some(
            frames[(ticks % frames.len()) as int],
        ),
    decreases ticks,
{
    let len = frames.len();
    lemma_run_preserves(frames, None, ticks);
    if ticks == 0 {
        lemma_fundamental_div_mod_converse(0, len as int, 0, 0);
    } else {
        let before = (ticks - 1) as nat;
        lemma_unlimited_emissions(frames, before);
        lemma_run_preserves(frames, None, before);
        lemma_next_position(before as int, len as int);
    }
}

} // verus!
