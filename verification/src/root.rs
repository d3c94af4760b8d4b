//! The root: owner of the four sub-engines and driver of their lifecycle.

use std::sync::Arc;
use vstd::prelude::*;
use crate::engine::{AudioEngine, ControlEngine, EngineKind, ScriptEngine, VideoEngine};
use crate::journal::{
    all_ok, any_stop, exhaustive_pass, fail_fast_pass, first_failure, frame_loop, frames_begun,
    launch_order, launched, lemma_all_ok_concat, lemma_any_stop_concat, lemma_frame_appended,
    new_calls, run_calls, running_after, shut_down, shutdown_order, update_order, updated, Call,
    Phase,
};
use crate::slot::Slot;

verus! {

/// How a root shows itself: by its running flag, and by nothing of its
/// engines.
pub open spec fn description(running: bool) -> Seq<char> {
    if running {
        "Root { is_running: true }"@
    } else {
        "Root { is_running: false }"@
    }
}

/// Owner of one sub-engine of each kind.
///
/// Each engine sits in a slot of its own that is locked for the length of a
/// single call, so the root never holds two slots at once. Beside the slots
/// the root keeps the running flag and, as ghost state, the journal of every
/// call it has made to a sub-engine.
#[verifier::reject_recursive_types(V)]
#[verifier::reject_recursive_types(A)]
#[verifier::reject_recursive_types(S)]
#[verifier::reject_recursive_types(C)]
pub struct Root<V: VideoEngine, A: AudioEngine, S: ScriptEngine, C: ControlEngine> {
    video_engine: Slot<V>,
    audio_engine: Slot<A>,
    script_engine: Slot<S>,
    control_engine: Slot<C>,
    is_running: bool,
    journal: Ghost<Seq<Call>>,
}

impl<V: VideoEngine, A: AudioEngine, S: ScriptEngine, C: ControlEngine> Root<V, A, S, C> {
    /// Whether the frame loop is to go on.
    pub closed spec fn running(&self) -> bool {
        self.is_running
    }

    /// Every call made to a sub-engine so far, oldest first.
    pub closed spec fn journal(&self) -> Seq<Call> {
        self.journal@
    }

    /// The journal of `self` takes up that of `earlier` and goes on from it.
    pub open spec fn continues(&self, earlier: &Self) -> bool {
        earlier.journal().is_prefix_of(self.journal())
    }

    /// The calls made since `earlier`.
    pub open spec fn calls_since(&self, earlier: &Self) -> Seq<Call> {
        new_calls(earlier.journal(), self.journal())
    }

    /// The four slots, in the order video, audio, scripting, control. They
    /// are fixed when the root is made.
    pub closed spec fn engines(&self) -> (
        Arc<spin::mutex::Mutex<V>>,
        Arc<spin::mutex::Mutex<A>>,
        Arc<spin::mutex::Mutex<S>>,
        Arc<spin::mutex::Mutex<C>>,
    ) {
        (
            self.video_engine.shared(),
            self.audio_engine.shared(),
            self.script_engine.shared(),
            self.control_engine.shared(),
        )
    }

    /// Each slot holds the engine of the kind that its field is named after.
    #[verifier::type_invariant]
    spec fn slots_in_place(&self) -> bool {
        &&& self.video_engine.kind() == EngineKind::Video
        &&& self.audio_engine.kind() == EngineKind::Audio
        &&& self.script_engine.kind() == EngineKind::Script
        &&& self.control_engine.kind() == EngineKind::Control
    }

    /// Wires the four engines into a root. Nothing is launched.
    pub fn new(video_engine: V, audio_engine: A, script_engine: S, control_engine: C) -> (root: Self)
        ensures
            !root.running(),
            root.journal() == Seq::<Call>::empty(),
    {
        Root {
            video_engine: Slot::new(EngineKind::Video, video_engine),
            audio_engine: Slot::new(EngineKind::Audio, audio_engine),
            script_engine: Slot::new(EngineKind::Script, script_engine),
            control_engine: Slot::new(EngineKind::Control, control_engine),
            is_running: false,
            journal: Ghost(Seq::empty()),
        }
    }

    /// Launches the engine of one kind and enters the call in the journal.
    fn launch(&mut self, kind: EngineKind) -> (res: Result<(), ()>)
        ensures
            final(self).engines() == old(self).engines(),
            final(self).running() == old(self).running(),
            final(self).journal() == old(self).journal().push(launched(kind, res)),
    {
        proof {
            use_type_invariant(&*self);
        }
        let (res, entry) = match kind {
            EngineKind::Video => self.video_engine.launch(),
            EngineKind::Audio => self.audio_engine.launch(),
            EngineKind::Control => self.control_engine.launch(),
            EngineKind::Script => self.script_engine.launch(),
        };
        proof {
            self.journal@ = self.journal@.push(entry@);
        }
        res
    }

    /// Launches the sub-engines: scripting, control, audio, video.
    ///
    /// The pass is fail-fast: the first failure is returned at once and the
    /// engines after it are not launched.
    pub fn start_engines(&mut self) -> (res: Result<(), ()>)
        ensures
            final(self).engines() == old(self).engines(),
            final(self).running() == old(self).running(),
            final(self).continues(old(self)),
            fail_fast_pass(final(self).calls_since(old(self)), Phase::Launch, launch_order()),
            res.is_ok() <==> all_ok(final(self).calls_since(old(self))),
    {
        let ghost before = self.journal();
        let script = self.launch(EngineKind::Script);
        assert(new_calls(before, self.journal()) =~= seq![launched(EngineKind::Script, script)]);
        if script.is_err() {
            assert(!new_calls(before, self.journal())[0].ok);
            return script;
        }
        let control = self.launch(EngineKind::Control);
        assert(new_calls(before, self.journal()) =~= seq![
            launched(EngineKind::Script, script),
            launched(EngineKind::Control, control),
        ]);
        if control.is_err() {
            assert(!new_calls(before, self.journal())[1].ok);
            return control;
        }
        let audio = self.launch(EngineKind::Audio);
        assert(new_calls(before, self.journal()) =~= seq![
            launched(EngineKind::Script, script),
            launched(EngineKind::Control, control),
            launched(EngineKind::Audio, audio),
        ]);
        if audio.is_err() {
            assert(!new_calls(before, self.journal())[2].ok);
            return audio;
        }
        let video = self.launch(EngineKind::Video);
        assert(new_calls(before, self.journal()) =~= seq![
            launched(EngineKind::Script, script),
            launched(EngineKind::Control, control),
            launched(EngineKind::Audio, audio),
            launched(EngineKind::Video, video),
        ]);
        if video.is_err() {
            assert(!new_calls(before, self.journal())[3].ok);
        }
        video
    }

    /// Updates the engine of one kind with a fresh handle, enters the call in
    /// the journal and clears the running flag if the engine asked for a stop.
    /// The second component of the result is that request.
    fn update(&mut self, kind: EngineKind) -> (res: (Result<(), ()>, bool))
        ensures
            final(self).engines() == old(self).engines(),
            final(self).running() == (old(self).running() && !res.1),
            final(self).journal() == old(self).journal().push(updated(kind, res.0, res.1)),
    {
        proof {
            use_type_invariant(&*self);
        }
        let (res, stop, entry) = match kind {
            EngineKind::Video => self.video_engine.update(),
            EngineKind::Audio => self.audio_engine.update(),
            EngineKind::Control => self.control_engine.update(),
            EngineKind::Script => self.script_engine.update(),
        };
        if stop {
            self.is_running = false;
        }
        proof {
            self.journal@ = self.journal@.push(entry@);
        }
        (res, stop)
    }

    /// Shuts the engine of one kind down and enters the call in the journal.
    fn shutdown(&mut self, kind: EngineKind) -> (res: Result<(), ()>)
        ensures
            final(self).engines() == old(self).engines(),
            final(self).running() == old(self).running(),
            final(self).journal() == old(self).journal().push(shut_down(kind, res)),
    {
        proof {
            use_type_invariant(&*self);
        }
        let (res, entry) = match kind {
            EngineKind::Video => self.video_engine.shutdown(),
            EngineKind::Audio => self.audio_engine.shutdown(),
            EngineKind::Control => self.control_engine.shutdown(),
            EngineKind::Script => self.script_engine.shutdown(),
        };
        proof {
            self.journal@ = self.journal@.push(entry@);
        }
        res
    }

    /// Runs one frame: updates scripting, audio, control, video.
    ///
    /// The pass is fail-fast: the first failure is returned at once and the
    /// engines after it are skipped for this frame. A stop request clears the
    /// running flag but never cuts the frame short.
    pub fn update_engines(&mut self) -> (res: Result<(), ()>)
        ensures
            final(self).engines() == old(self).engines(),
            final(self).continues(old(self)),
            fail_fast_pass(final(self).calls_since(old(self)), Phase::Update, update_order()),
            res.is_ok() <==> all_ok(final(self).calls_since(old(self))),
            final(self).running() == (old(self).running() && !any_stop(
                final(self).calls_since(old(self)),
            )),
    {
        let ghost before = self.journal();
        let script = self.update(EngineKind::Script);
        assert(new_calls(before, self.journal()) =~= seq![
            updated(EngineKind::Script, script.0, script.1),
        ]);
        if script.0.is_err() {
            assert(!new_calls(before, self.journal())[0].ok);
            assert(script.1 ==> new_calls(before, self.journal())[0].stop);
            return script.0;
        }
        let audio = self.update(EngineKind::Audio);
        assert(new_calls(before, self.journal()) =~= seq![
            updated(EngineKind::Script, script.0, script.1),
            updated(EngineKind::Audio, audio.0, audio.1),
        ]);
        if audio.0.is_err() {
            assert(!new_calls(before, self.journal())[1].ok);
            assert(script.1 ==> new_calls(before, self.journal())[0].stop);
            assert(audio.1 ==> new_calls(before, self.journal())[1].stop);
            return audio.0;
        }
        let control = self.update(EngineKind::Control);
        assert(new_calls(before, self.journal()) =~= seq![
            updated(EngineKind::Script, script.0, script.1),
            updated(EngineKind::Audio, audio.0, audio.1),
            updated(EngineKind::Control, control.0, control.1),
        ]);
        if control.0.is_err() {
            assert(!new_calls(before, self.journal())[2].ok);
            assert(script.1 ==> new_calls(before, self.journal())[0].stop);
            assert(audio.1 ==> new_calls(before, self.journal())[1].stop);
            assert(control.1 ==> new_calls(before, self.journal())[2].stop);
            return control.0;
        }
        let video = self.update(EngineKind::Video);
        assert(new_calls(before, self.journal()) =~= seq![
            updated(EngineKind::Script, script.0, script.1),
            updated(EngineKind::Audio, audio.0, audio.1),
            updated(EngineKind::Control, control.0, control.1),
            updated(EngineKind::Video, video.0, video.1),
        ]);
        assert(video.0.is_err() ==> !new_calls(before, self.journal())[3].ok);
        assert(script.1 ==> new_calls(before, self.journal())[0].stop);
        assert(audio.1 ==> new_calls(before, self.journal())[1].stop);
        assert(control.1 ==> new_calls(before, self.journal())[2].stop);
        assert(video.1 ==> new_calls(before, self.journal())[3].stop);
        video.0
    }

    /// Shuts the sub-engines down: audio, control, scripting, video.
    ///
    /// The pass is exhaustive: every engine is shut down whatever the ones
    /// before it answered. If any of them failed, the first failure is
    /// returned.
    pub fn shutdown_engines(&mut self) -> (res: Result<(), ()>)
        ensures
            final(self).engines() == old(self).engines(),
            final(self).running() == old(self).running(),
            final(self).continues(old(self)),
            exhaustive_pass(final(self).calls_since(old(self)), Phase::Shutdown, shutdown_order()),
            res.is_ok() <==> all_ok(final(self).calls_since(old(self))),
    {
        let ghost before = self.journal();
        let audio = self.shutdown(EngineKind::Audio);
        let control = self.shutdown(EngineKind::Control);
        let script = self.shutdown(EngineKind::Script);
        let video = self.shutdown(EngineKind::Video);
        assert(new_calls(before, self.journal()) =~= seq![
            shut_down(EngineKind::Audio, audio),
            shut_down(EngineKind::Control, control),
            shut_down(EngineKind::Script, script),
            shut_down(EngineKind::Video, video),
        ]);
        assert(audio.is_err() ==> !new_calls(before, self.journal())[0].ok);
        assert(control.is_err() ==> !new_calls(before, self.journal())[1].ok);
        assert(script.is_err() ==> !new_calls(before, self.journal())[2].ok);
        assert(video.is_err() ==> !new_calls(before, self.journal())[3].ok);
        first_failure(first_failure(first_failure(audio, control), script), video)
    }

    /// Drives the whole lifecycle, with at most `max_frames` frames.
    ///
    /// The engines are launched; a failure there is returned at once, with no
    /// shutdown. Otherwise the running flag is set and frames follow one
    /// another until a frame fails, an engine asks for a stop, or `max_frames`
    /// frames are done. Then every engine is shut down. A failed frame is
    /// reported before a failed shutdown.
    pub fn run_for(&mut self, max_frames: u64) -> (res: Result<(), ()>)
        ensures
            final(self).engines() == old(self).engines(),
            final(self).continues(old(self)),
            res.is_ok() <==> all_ok(final(self).calls_since(old(self))),
            run_calls(final(self).calls_since(old(self)), max_frames as nat),
            final(self).running() == running_after(
                final(self).calls_since(old(self)),
                old(self).running(),
            ),
    {
        let ghost before = self.journal();
        let started = self.start_engines();
        if started.is_err() {
            return started;
        }
        let ghost launches = new_calls(before, self.journal());
        assert(self.journal() =~= before + launches);
        proof {
            use_type_invariant(&*self);
        }
        self.is_running = true;
        let mut frames: u64 = 0;
        let mut outcome: Result<(), ()> = Ok(());
        let ghost mut updates = Seq::<Call>::empty();
        while self.is_running && outcome.is_ok() && frames < max_frames
            invariant
                frames <= max_frames,
                self.engines() == old(self).engines(),
                self.journal() == before + launches + updates,
                frame_loop(updates),
                frames_begun(updates) == frames,
                outcome.is_ok() <==> all_ok(updates),
                self.running() == !any_stop(updates),
            decreases max_frames - frames,
        {
            let ghost at_frame = self.journal();
            outcome = self.update_engines();
            frames = frames + 1;
            proof {
                let frame = new_calls(at_frame, self.journal());
                let longer = updates + frame;
                assert(self.journal() =~= at_frame + frame);
                assert(self.journal() =~= before + launches + longer);
                lemma_frame_appended(updates, frame);
                lemma_all_ok_concat(updates, frame);
                lemma_any_stop_concat(updates, frame);
                updates = longer;
            }
        }
        let ghost at_shutdown = self.journal();
        let shutdown = self.shutdown_engines();
        proof {
            let closing = new_calls(at_shutdown, self.journal());
            let calls = new_calls(before, self.journal());
            assert(self.journal() =~= at_shutdown + closing);
            assert(self.journal() =~= before + (launches + updates + closing));
            assert(calls =~= launches + updates + closing);
            assert(calls.take(4) =~= launches);
            assert(calls.subrange(4, calls.len() - 4) =~= updates);
            assert(calls.skip(calls.len() - 4) =~= closing);
            lemma_all_ok_concat(launches, updates);
            lemma_all_ok_concat(launches + updates, closing);
            lemma_any_stop_concat(launches, updates);
            lemma_any_stop_concat(launches + updates, closing);
            assert(!any_stop(launches)) by {
                if any_stop(launches) {
                    let at = choose|i: int| 0 <= i < launches.len() && (#[trigger] launches[i]).stop;
                }
            }
            assert(!any_stop(closing)) by {
                if any_stop(closing) {
                    let at = choose|i: int| 0 <= i < closing.len() && (#[trigger] closing[i]).stop;
                }
            }
        }
        first_failure(outcome, shutdown)
    }

    /// Drives the whole lifecycle until an engine asks for a stop or a frame
    /// fails: `run_for` with the largest frame budget there is.
    pub fn run(&mut self) -> (res: Result<(), ()>)
        ensures
            final(self).engines() == old(self).engines(),
            final(self).continues(old(self)),
            res.is_ok() <==> all_ok(final(self).calls_since(old(self))),
            run_calls(final(self).calls_since(old(self)), u64::MAX as nat),
            final(self).running() == running_after(
                final(self).calls_since(old(self)),
                old(self).running(),
            ),
    {
        self.run_for(u64::MAX)
    }

    /// Asks the frame loop to end. Nothing else changes.
    pub fn stop(&mut self)
        ensures
            final(self).engines() == old(self).engines(),
            !final(self).running(),
            final(self).journal() == old(self).journal(),
    {
        proof {
            use_type_invariant(&*self);
        }
        self.is_running = false;
    }

    /// The slot of the video engine, shared with the root.
    pub fn video_engine(&self) -> (slot: Arc<spin::mutex::Mutex<V>>)
        ensures
            slot == self.engines().0,
    {
        self.video_engine.share()
    }

    /// The slot of the audio engine, shared with the root.
    pub fn audio_engine(&self) -> (slot: Arc<spin::mutex::Mutex<A>>)
        ensures
            slot == self.engines().1,
    {
        self.audio_engine.share()
    }

    /// The slot of the scripting engine, shared with the root.
    pub fn script_engine(&self) -> (slot: Arc<spin::mutex::Mutex<S>>)
        ensures
            slot == self.engines().2,
    {
        self.script_engine.share()
    }

    /// The slot of the control engine, shared with the root.
    pub fn control_engine(&self) -> (slot: Arc<spin::mutex::Mutex<C>>)
        ensures
            slot == self.engines().3,
    {
        self.control_engine.share()
    }

    /// The root as text, for debugging.
    pub fn describe(&self) -> (text: String)
        ensures
            text@ == description(self.running()),
    {
        if self.is_running {
            "Root { is_running: true }".to_owned()
        } else {
            "Root { is_running: false }".to_owned()
        }
    }

    /// Tells whether the frame loop is to go on.
    pub fn is_running(&self) -> (running: bool)
        ensures
            running == self.running(),
    {
        self.is_running
    }
}

} // verus!
