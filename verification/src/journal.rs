//! The record of the calls a root makes to its sub-engines, and the shapes
//! that a pass over the four of them can have.

use vstd::prelude::*;
use crate::engine::EngineKind;

verus! {

/// The three lifecycle calls a sub-engine answers.
#[derive(Clone, Copy, Debug, PartialEq, Eq, Structural)]
pub enum Phase {
    Launch,
    Update,
    Shutdown,
}

/// One call from the root to a sub-engine, with what came back.
pub struct Call {
    /// The sub-engine that was called.
    pub kind: EngineKind,
    /// The lifecycle call that was made.
    pub phase: Phase,
    /// Whether the sub-engine reported success.
    pub ok: bool,
    /// Whether the sub-engine asked for a stop during the call. Only an
    /// `Update` call hands out a handle, so it is false for the other two.
    pub stop: bool,
}

/// The journal entry for a `launch` call that returned `outcome`.
pub open spec fn launched(kind: EngineKind, outcome: Result<(), ()>) -> Call {
    Call { kind, phase: Phase::Launch, ok: outcome.is_ok(), stop: false }
}

/// The journal entry for an `update` call that returned `outcome`, `stop`
/// telling whether the engine asked for a stop through its handle.
pub open spec fn updated(kind: EngineKind, outcome: Result<(), ()>, stop: bool) -> Call {
    Call { kind, phase: Phase::Update, ok: outcome.is_ok(), stop }
}

/// The journal entry for a `shutdown` call that returned `outcome`.
pub open spec fn shut_down(kind: EngineKind, outcome: Result<(), ()>) -> Call {
    Call { kind, phase: Phase::Shutdown, ok: outcome.is_ok(), stop: false }
}

/// Launch order: scripting first, video last.
pub open spec fn launch_order() -> Seq<EngineKind> {
    seq![EngineKind::Script, EngineKind::Control, EngineKind::Audio, EngineKind::Video]
}

/// Update order within a frame: scripting and audio lead, video trails.
pub open spec fn update_order() -> Seq<EngineKind> {
    seq![EngineKind::Script, EngineKind::Audio, EngineKind::Control, EngineKind::Video]
}

/// Shutdown order: video is released last.
pub open spec fn shutdown_order() -> Seq<EngineKind> {
    seq![EngineKind::Audio, EngineKind::Control, EngineKind::Script, EngineKind::Video]
}

/// The calls that `after` holds beyond those of `before`.
pub open spec fn new_calls(before: Seq<Call>, after: Seq<Call>) -> Seq<Call> {
    after.skip(before.len() as int)
}

/// Every call in `calls` succeeded.
pub open spec fn all_ok(calls: Seq<Call>) -> bool {
    forall|i: int| 0 <= i < calls.len() ==> (#[trigger] calls[i]).ok
}

/// Some call in `calls` came back with a stop request.
pub open spec fn any_stop(calls: Seq<Call>) -> bool {
    exists|i: int| 0 <= i < calls.len() && (#[trigger] calls[i]).stop
}

/// `calls` are calls of `phase`, made to the engines of `order` from its
/// start, one each, without a gap. A stop request is found on `Update` calls
/// only.
pub open spec fn follows(calls: Seq<Call>, phase: Phase, order: Seq<EngineKind>) -> bool {
    &&& calls.len() <= order.len()
    &&& forall|i: int|
        0 <= i < calls.len() ==> (#[trigger] calls[i]).phase == phase && calls[i].kind == order[i]
            && (calls[i].stop ==> phase == Phase::Update)
}

/// A fail-fast pass over `order`: the engines are called in order up to and
/// including the first one that fails, and none after it.
pub open spec fn fail_fast_pass(calls: Seq<Call>, phase: Phase, order: Seq<EngineKind>) -> bool {
    &&& follows(calls, phase, order)
    &&& calls.len() >= 1
    &&& all_ok(calls.drop_last())
    &&& calls.len() < order.len() ==> !calls.last().ok
}

/// An exhaustive pass over `order`: every engine is called, in order,
/// whatever the earlier ones answered.
pub open spec fn exhaustive_pass(calls: Seq<Call>, phase: Phase, order: Seq<EngineKind>) -> bool {
    &&& follows(calls, phase, order)
    &&& calls.len() == order.len()
}

/// How many frames the update calls of a frame loop span: four calls make a
/// frame, and what is left over is a frame that was cut short.
pub open spec fn frames_begun(updates: Seq<Call>) -> nat {
    (updates.len() + 3) / 4
}

/// The update calls of the frame with the given index, counted from zero.
pub open spec fn frame(updates: Seq<Call>, index: int) -> Seq<Call> {
    if 4 * index + 4 <= updates.len() {
        updates.subrange(4 * index, 4 * index + 4)
    } else {
        updates.subrange(4 * index, updates.len() as int)
    }
}

/// The update calls of a frame loop: each frame is a fail-fast pass in update
/// order, and every frame but the last went through without a failure and
/// without a stop request, or the loop would have ended with it.
pub open spec fn frame_loop(updates: Seq<Call>) -> bool {
    &&& forall|index: int|
        0 <= index < frames_begun(updates) ==> fail_fast_pass(
            #[trigger] frame(updates, index),
            Phase::Update,
            update_order(),
        )
    &&& forall|index: int|
        0 <= index < frames_begun(updates) - 1 ==> all_ok(#[trigger] frame(updates, index))
            && !any_stop(frame(updates, index))
}

/// The calls of a run that got past its launch, with at most `budget` frames:
/// four successful launches, a frame loop that ended for a reason, and an
/// exhaustive shutdown.
pub open spec fn full_run(calls: Seq<Call>, budget: nat) -> bool {
    let updates = calls.subrange(4, calls.len() - 4);
    &&& calls.len() >= 8
    &&& fail_fast_pass(calls.take(4), Phase::Launch, launch_order())
    &&& all_ok(calls.take(4))
    &&& frame_loop(updates)
    &&& frames_begun(updates) <= budget
    &&& !all_ok(updates) || any_stop(updates) || frames_begun(updates) == budget
    &&& exhaustive_pass(calls.skip(calls.len() - 4), Phase::Shutdown, shutdown_order())
}

/// The calls of a run whose launch failed: the failed launch pass, and
/// nothing after it.
pub open spec fn failed_launch(calls: Seq<Call>) -> bool {
    &&& fail_fast_pass(calls, Phase::Launch, launch_order())
    &&& !all_ok(calls)
}

/// The calls of a whole run with at most `budget` frames: either the launch
/// failed and nothing followed, or the run went its full way.
pub open spec fn run_calls(calls: Seq<Call>, budget: nat) -> bool {
    failed_launch(calls) || full_run(calls, budget)
}

/// The running flag after a run that made `calls`. A failed launch leaves it
/// as it was; a run that got past its launch sets it, and only a stop
/// request clears it again.
pub open spec fn running_after(calls: Seq<Call>, was_running: bool) -> bool {
    if failed_launch(calls) {
        was_running
    } else {
        !any_stop(calls)
    }
}

/// All calls of two stretches in a row succeeded exactly if all of each did.
pub proof fn lemma_all_ok_concat(first: Seq<Call>, second: Seq<Call>)
    ensures
        all_ok(first + second) <==> all_ok(first) && all_ok(second),
{
    let both = first + second;
    if all_ok(both) {
        assert forall|i: int| 0 <= i < first.len() implies (#[trigger] first[i]).ok by {
            assert(both[i].ok);
        }
        assert forall|i: int| 0 <= i < second.len() implies (#[trigger] second[i]).ok by {
            assert(both[first.len() + i].ok);
        }
    }
    if all_ok(first) && all_ok(second) {
        assert forall|i: int| 0 <= i < both.len() implies (#[trigger] both[i]).ok by {
            if i < first.len() {
                assert(first[i].ok);
            } else {
                assert(second[i - first.len()].ok);
            }
        }
    }
}

/// Two stretches in a row hold a stop request exactly if one of them does.
pub proof fn lemma_any_stop_concat(first: Seq<Call>, second: Seq<Call>)
    ensures
        any_stop(first + second) <==> any_stop(first) || any_stop(second),
{
    let both = first + second;
    if any_stop(both) {
        let at = choose|i: int| 0 <= i < both.len() && (#[trigger] both[i]).stop;
        if at < first.len() {
            assert(first[at].stop);
        } else {
            assert(second[at - first.len()].stop);
        }
    }
    if any_stop(first) {
        let at = choose|i: int| 0 <= i < first.len() && (#[trigger] first[i]).stop;
        assert(both[at].stop);
    }
    if any_stop(second) {
        let at = choose|i: int| 0 <= i < second.len() && (#[trigger] second[i]).stop;
        assert(both[first.len() + at].stop);
    }
}

/// A stretch cut out of calls that all succeeded holds only calls that
/// succeeded, and one cut out of calls without a stop request holds none.
pub proof fn lemma_subrange_keeps(calls: Seq<Call>, from: int, to: int)
    requires
        0 <= from <= to <= calls.len(),
    ensures
        all_ok(calls) ==> all_ok(calls.subrange(from, to)),
        !any_stop(calls) ==> !any_stop(calls.subrange(from, to)),
{
    let part = calls.subrange(from, to);
    if all_ok(calls) {
        assert forall|i: int| 0 <= i < part.len() implies (#[trigger] part[i]).ok by {
            assert(calls[from + i].ok);
        }
    }
    if any_stop(part) {
        let at = choose|i: int| 0 <= i < part.len() && (#[trigger] part[i]).stop;
        assert(calls[from + at].stop);
    }
}

/// A frame loop in which no update failed consists of whole frames.
pub proof fn lemma_whole_frames(updates: Seq<Call>)
    requires
        frame_loop(updates),
        all_ok(updates),
    ensures
        updates.len() == 4 * frames_begun(updates),
{
    if updates.len() > 0 {
        let last = frames_begun(updates) - 1;
        assert(fail_fast_pass(frame(updates, last), Phase::Update, update_order()));
        lemma_subrange_keeps(updates, 4 * last, updates.len() as int);
        if 4 * last + 4 <= updates.len() {
            lemma_subrange_keeps(updates, 4 * last, 4 * last + 4);
        }
        assert(frame(updates, last).last().ok);
    }
}

/// A frame loop that has seen only successful frames without a stop request
/// is still a frame loop after one more frame, whatever that frame brought,
/// and has begun one frame more.
pub proof fn lemma_frame_appended(updates: Seq<Call>, next: Seq<Call>)
    requires
        frame_loop(updates),
        all_ok(updates),
        !any_stop(updates),
        fail_fast_pass(next, Phase::Update, update_order()),
    ensures
        frame_loop(updates + next),
        frames_begun(updates + next) == frames_begun(updates) + 1,
{
    let longer = updates + next;
    let begun = frames_begun(updates) as int;
    lemma_whole_frames(updates);
    assert(frame(longer, begun) =~= next);
    assert forall|index: int| 0 <= index < begun implies #[trigger] frame(longer, index) == frame(
        updates,
        index,
    ) && all_ok(frame(updates, index)) && !any_stop(frame(updates, index)) by {
        assert(frame(longer, index) =~= frame(updates, index));
        lemma_subrange_keeps(updates, 4 * index, 4 * index + 4);
    }
    assert forall|index: int| 0 <= index < frames_begun(longer) implies fail_fast_pass(
        #[trigger] frame(longer, index),
        Phase::Update,
        update_order(),
    ) by {
        if index < begun {
            assert(fail_fast_pass(frame(updates, index), Phase::Update, update_order()));
        }
    }
}

/// A fail-fast pass in which every call succeeded has called every engine
/// of the order exactly once, in that order.
pub proof fn successful_pass_is_complete(calls: Seq<Call>, phase: Phase, order: Seq<EngineKind>)
    requires
        fail_fast_pass(calls, phase, order),
        all_ok(calls),
    ensures
        calls.len() == order.len(),
        forall|i: int|
            0 <= i < order.len() ==> (#[trigger] calls[i]).kind == order[i] && calls[i].phase
                == phase && calls[i].ok,
{
    assert(calls.last().ok);
}

/// A fail-fast pass in which a call failed ends with that call: it is the
/// only failure, every engine before it in the order was called and
/// succeeded, and no engine after it was called.
pub proof fn failed_pass_ends_at_failure(calls: Seq<Call>, phase: Phase, order: Seq<EngineKind>)
    requires
        fail_fast_pass(calls, phase, order),
        !all_ok(calls),
    ensures
        1 <= calls.len() <= order.len(),
        !calls.last().ok,
        forall|i: int| 0 <= i < calls.len() - 1 ==> (#[trigger] calls[i]).ok,
        forall|i: int|
            0 <= i < calls.len() ==> (#[trigger] calls[i]).kind == order[i] && calls[i].phase
                == phase,
{
    let bad = choose|i: int| 0 <= i < calls.len() && !(#[trigger] calls[i]).ok;
    if bad < calls.len() - 1 {
        assert(calls.drop_last()[bad].ok);
    }
    assert forall|i: int| 0 <= i < calls.len() - 1 implies (#[trigger] calls[i]).ok by {
        assert(calls.drop_last()[i].ok);
    }
}

/// An exhaustive pass calls every engine of the order exactly once, in that
/// order, whether or not any of them failed.
pub proof fn exhaustive_pass_is_complete(calls: Seq<Call>, phase: Phase, order: Seq<EngineKind>)
    requires
        exhaustive_pass(calls, phase, order),
    ensures
        calls.len() == order.len(),
        forall|i: int|
            0 <= i < order.len() ==> (#[trigger] calls[i]).kind == order[i] && calls[i].phase
                == phase,
{
}

/// A stop request ends a run with its own frame. In a run that got past its
/// launch, a stop request during the update at position `at` of the frame
/// loop lies in the last frame, so no frame is begun after it, and the
/// exhaustive shutdown follows the loop. If no update of that frame failed,
/// the frame is whole: the engines after the one that asked were still
/// updated.
pub proof fn stop_ends_run_with_its_frame(calls: Seq<Call>, budget: nat, at: int)
    requires
        full_run(calls, budget),
        0 <= at < calls.len() - 8,
        calls[4 + at].stop,
    ensures
        at / 4 == frames_begun(calls.subrange(4, calls.len() - 4)) - 1,
        all_ok(frame(calls.subrange(4, calls.len() - 4), at / 4)) ==> (calls.len() - 8) % 4 == 0,
        exhaustive_pass(calls.skip(calls.len() - 4), Phase::Shutdown, shutdown_order()),
{
    let updates = calls.subrange(4, calls.len() - 4);
    let index = at / 4;
    let around = frame(updates, index);
    assert(updates[at].stop);
    assert(around[at - 4 * index].stop);
    assert(any_stop(around));
    assert(fail_fast_pass(around, Phase::Update, update_order()));
    if all_ok(around) {
        assert(around.last().ok);
    }
}

/// Of two outcomes in a row, the one that is reported: the earlier failure
/// wins, and without one the later outcome stands.
pub open spec fn first_failure_of(earlier: Result<(), ()>, later: Result<(), ()>) -> Result<(), ()> {
    if earlier.is_err() {
        earlier
    } else {
        later
    }
}

/// Picks the outcome to report from two outcomes in a row.
pub fn first_failure(earlier: Result<(), ()>, later: Result<(), ()>) -> (res: Result<(), ()>)
    ensures
        res == first_failure_of(earlier, later),
{
    if earlier.is_err() {
        earlier
    } else {
        later
    }
}

} // verus!
