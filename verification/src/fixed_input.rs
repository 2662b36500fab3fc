//! When input seen by fixed steps is cleared.
//!
//! Presses and releases of a frame are gathered at its start. A frame that follows
//! one in which a fixed step ran first clears what that fixed step saw, before it
//! gathers its own input; a fixed step that runs after another in the same frame
//! clears what the earlier one saw. So a press stays just pressed through the end
//! of the frame whose fixed step saw it, and a frame in which no fixed step ran
//! keeps its input for the next fixed step.

use vstd::prelude::*;

verus! {

/// Whether a fixed step has run since the input was last cleared at a frame's start.
#[derive(Debug, Clone, Copy, PartialEq, Eq, Structural)]
pub struct ClearFlag {
    pub enabled: bool,
}

impl ClearFlag {
    /// No fixed step has run yet.
    pub fn new() -> (flag: ClearFlag)
        ensures
            !flag.enabled,
    {
        ClearFlag { enabled: false }
    }

    /// At the start of a fixed step: whether to clear the input first (a fixed step
    /// ran before in this frame), and the flag set.
    pub fn on_fixed_step(&mut self) -> (clear: bool)
        ensures
            clear == old(self).enabled,
            final(self).enabled,
    {
        let clear = self.enabled;
        self.enabled = true;
        clear
    }

    /// At the start of a frame, before its input is gathered: whether to clear the
    /// input (a fixed step ran in the frame before), and the flag reset.
    pub fn on_frame_start(&mut self) -> (clear: bool)
        ensures
            clear == old(self).enabled,
            !final(self).enabled,
    {
        let clear = self.enabled;
        self.enabled = false;
        clear
    }
}

/// What happens to input seen by fixed steps.
pub enum InputStep {
    /// A frame starts: the input is cleared if a fixed step ran before.
    FrameStart,
    /// The frame's input holds a press (or release) of the input followed.
    Press,
    /// The frame's input holds no news of it.
    Quiet,
    /// A fixed step runs.
    FixedStep,
}

/// The flag, and whether the press followed is still just pressed, after `steps`.
pub open spec fn run(enabled: bool, pending: bool, steps: Seq<InputStep>) -> (bool, bool)
    decreases steps.len(),
{
    if steps.len() == 0 {
        (enabled, pending)
    } else {
        let (e, p) = run(enabled, pending, steps.drop_last());
        match steps.last() {
            InputStep::FrameStart => (false, p && !e),
            InputStep::Press => (e, true),
            InputStep::Quiet => (e, p),
            InputStep::FixedStep => (true, p && !e),
        }
    }
}

/// The number of fixed steps in `steps` that see the press followed: those that
/// run while it is still just pressed, after the clear they may make.
pub open spec fn seen(enabled: bool, pending: bool, steps: Seq<InputStep>) -> nat
    decreases steps.len(),
{
    if steps.len() == 0 {
        0
    } else {
        let (e, p) = run(enabled, pending, steps.drop_last());
        seen(enabled, pending, steps.drop_last()) + match steps.last() {
            InputStep::FixedStep => if p && !e { 1nat } else { 0nat },
            _ => 0nat,
        }
    }
}

/// A frame: it starts, gathers news of the input or none, and runs some fixed steps.
pub open spec fn is_frame(steps: Seq<InputStep>) -> bool {
    &&& steps.len() >= 2
    &&& steps[0] is FrameStart
    &&& (steps[1] is Press || steps[1] is Quiet)
    &&& forall|i: int| 2 <= i < steps.len() ==> #[trigger] steps[i] is FixedStep
}

/// Frames one after another.
pub open spec fn is_frames(frames: Seq<Seq<InputStep>>) -> bool {
    forall|i: int| 0 <= i < frames.len() ==> is_frame(#[trigger] frames[i])
}

/// The number of fixed steps in a frame.
pub open spec fn fixed_steps(frame: Seq<InputStep>) -> int {
    frame.len() - 2
}

/// The state after the first `k` steps of a frame, from flag `enabled`: the press
/// is still just pressed after the start when it was before and no fixed step ran
/// before; after the input when it was then or the input holds it; and after the
/// first fixed step, which sees it, but not after a second one.
proof fn lemma_frame_prefix(enabled: bool, pending: bool, frame: Seq<InputStep>, k: int)
    requires
        is_frame(frame),
        1 <= k <= frame.len(),
    ensures
        ({
            let p1 = (pending && !enabled) || frame[1] is Press;
            &&& run(enabled, pending, frame.take(k)).0 == (k > 2)
            &&& k == 1 ==> run(enabled, pending, frame.take(k)).1 == (pending && !enabled)
            &&& k >= 2 ==> run(enabled, pending, frame.take(k)).1 == (p1 && k <= 3)
            &&& seen(enabled, pending, frame.take(k)) == if p1 && k > 2 { 1nat } else { 0nat }
        }),
    decreases k,
{
    let t = frame.take(k);
    assert(t.last() == frame[k - 1]);
    if k == 1 {
        assert(t.drop_last() =~= Seq::<InputStep>::empty());
        reveal_with_fuel(run, 2);
        reveal_with_fuel(seen, 2);
    } else {
        lemma_frame_prefix(enabled, pending, frame, k - 1);
        assert(t.drop_last() =~= frame.take(k - 1));
        if k > 2 {
            assert(frame[k - 1] is FixedStep);
        }
    }
}

/// Running a frame from flag `enabled`: the flag is set after it exactly when a
/// fixed step ran; the press is still just pressed after it exactly when it was
/// just pressed after the start or the frame's input holds it, and at most one
/// fixed step ran; and one fixed step sees it exactly when it was so and some
/// fixed step ran.
proof fn lemma_frame(enabled: bool, pending: bool, frame: Seq<InputStep>)
    requires
        is_frame(frame),
    ensures
        ({
            let p1 = (pending && !enabled) || frame[1] is Press;
            &&& run(enabled, pending, frame).0 == (fixed_steps(frame) > 0)
            &&& run(enabled, pending, frame).1 == (p1 && fixed_steps(frame) <= 1)
            &&& seen(enabled, pending, frame) == if p1 && fixed_steps(frame) > 0 { 1nat } else { 0nat }
        }),
{
    lemma_frame_prefix(enabled, pending, frame, frame.len() as int);
    assert(frame.take(frame.len() as int) =~= frame);
}

/// The steps of `frames`, one frame after another.
pub open spec fn flatten(frames: Seq<Seq<InputStep>>) -> Seq<InputStep>
    decreases frames.len(),
{
    if frames.len() == 0 {
        Seq::empty()
    } else {
        flatten(frames.drop_last()) + frames.last()
    }
}

/// Running `a` then `b` is running `a + b`.
proof fn lemma_run_append(enabled: bool, pending: bool, a: Seq<InputStep>, b: Seq<InputStep>)
    ensures
        run(enabled, pending, a + b) == run(run(enabled, pending, a).0, run(enabled, pending, a).1, b),
        seen(enabled, pending, a + b) == seen(enabled, pending, a) + seen(
            run(enabled, pending, a).0,
            run(enabled, pending, a).1,
            b,
        ),
    decreases b.len(),
{
    if b.len() == 0 {
        assert(a + b =~= a);
    } else {
        lemma_run_append(enabled, pending, a, b.drop_last());
        assert((a + b).drop_last() =~= a + b.drop_last());
        assert((a + b).last() == b.last());
    }
}

/// A press gathered at the start of the first of some frames is seen by exactly one
/// fixed step when fixed steps run in them, and by none otherwise. It is still
/// just pressed after the frames exactly when no frame before the last ran a fixed
/// step and the last ran at most one: it lasts through the end of the frame whose
/// fixed step saw it, and a frame without fixed steps keeps it for a later one.
/// After the frames, the flag is set exactly when the last frame ran a fixed step.
pub proof fn lemma_press_seen_once(frames: Seq<Seq<InputStep>>)
    requires
        is_frames(frames),
        frames.len() >= 1,
        frames[0][1] is Press,
        forall|i: int| 1 <= i < frames.len() ==> #[trigger] frames[i][1] is Quiet,
    ensures
        run(false, false, flatten(frames)).0 == (fixed_steps(frames.last()) > 0),
        seen(false, false, flatten(frames)) == if exists|i: int|
            0 <= i < frames.len() && fixed_steps(#[trigger] frames[i]) > 0 {
            1nat
        } else {
            0nat
        },
        run(false, false, flatten(frames)).1 == ((forall|i: int|
            0 <= i < frames.len() - 1 ==> fixed_steps(#[trigger] frames[i]) == 0)
            && fixed_steps(frames.last()) <= 1),
    decreases frames.len(),
{
    let last = frames.last();
    let init = frames.drop_last();
    assert(flatten(frames) == flatten(init) + last);
    lemma_run_append(false, false, flatten(init), last);
    assert(is_frame(last));
    if frames.len() == 1 {
        assert(flatten(init) =~= Seq::<InputStep>::empty());
        lemma_frame(false, false, last);
        if fixed_steps(last) > 0 {
            assert(fixed_steps(frames[0]) > 0);
        }
    } else {
        assert forall|i: int| 0 <= i < init.len() implies is_frame(#[trigger] init[i]) by {
            assert(init[i] == frames[i]);
        }
        assert forall|i: int| 1 <= i < init.len() implies #[trigger] init[i][1] is Quiet by {
            assert(init[i] == frames[i]);
        }
        assert(init[0] == frames[0]);
        lemma_press_seen_once(init);
        let r = run(false, false, flatten(init));
        assert(last[1] is Quiet);
        lemma_frame(r.0, r.1, last);
        let n = frames.len() as int;
        assert(init.last() == frames[n - 2]);
        // some frame ran a fixed step exactly when an earlier one or the last did
        if exists|i: int| 0 <= i < init.len() && fixed_steps(#[trigger] init[i]) > 0 {
            let i = choose|i: int| 0 <= i < init.len() && fixed_steps(#[trigger] init[i]) > 0;
            assert(frames[i] == init[i]);
        }
        if exists|i: int| 0 <= i < frames.len() && fixed_steps(#[trigger] frames[i]) > 0 {
            let i = choose|i: int| 0 <= i < frames.len() && fixed_steps(#[trigger] frames[i]) > 0;
            if i < init.len() {
                assert(init[i] == frames[i]);
            }
        }
        // no frame before the last ran one exactly when none before the one before
        // did and the one before did not
        if forall|i: int| 0 <= i < n - 1 ==> fixed_steps(#[trigger] frames[i]) == 0 {
            assert forall|i: int| 0 <= i < init.len() - 1 implies fixed_steps(#[trigger] init[i]) == 0 by {
                assert(init[i] == frames[i]);
            }
            assert(fixed_steps(frames[n - 2]) == 0);
            assert forall|i: int| 0 <= i < init.len() implies fixed_steps(#[trigger] init[i]) == 0 by {
                assert(init[i] == frames[i]);
            }
        } else {
            let i = choose|i: int| !(0 <= i < n - 1 ==> fixed_steps(#[trigger] frames[i]) == 0);
            assert(frames[i] == init[i]);
            if i < n - 2 {
                assert(!(forall|j: int| 0 <= j < init.len() - 1 ==> fixed_steps(#[trigger] init[j]) == 0));
            }
        }
        if forall|i: int| 0 <= i < init.len() - 1 ==> fixed_steps(#[trigger] init[i]) == 0 {
            if fixed_steps(init.last()) == 0 {
                assert forall|i: int| 0 <= i < n - 1 implies fixed_steps(#[trigger] frames[i]) == 0 by {
                    assert(init[i] == frames[i]);
                }
            }
        }
    }
}

} // verus!
