use std::sync::Arc;

use spin::mutex::Mutex;
use zee1::engine::{AudioEngine, ControlEngine, Engine, RootHandle, ScriptEngine, VideoEngine};
use zee1::journal::first_failure;
use zee1::root::Root;

type Log = Arc<Mutex<Vec<String>>>;

/// An engine that answers as it is told and writes every call into a log
/// shared with its siblings.
#[derive(Debug, Clone)]
struct Stub {
    name: &'static str,
    launch: Result<(), ()>,
    update: Result<(), ()>,
    shutdown: Result<(), ()>,
    /// How many updates pass before the engine asks for a stop on each later
    /// one; `None` for an engine that never asks.
    quiet_updates: Option<u32>,
    updates: u32,
    log: Log,
}

impl Stub {
    fn working(name: &'static str, log: &Log) -> Stub {
        Stub {
            name,
            launch: Ok(()),
            update: Ok(()),
            shutdown: Ok(()),
            quiet_updates: None,
            updates: 0,
            log: log.clone(),
        }
    }

    fn broken(name: &'static str, log: &Log) -> Stub {
        Stub { launch: Err(()), update: Err(()), shutdown: Err(()), ..Stub::working(name, log) }
    }

    fn stopping_after(name: &'static str, quiet_updates: u32, log: &Log) -> Stub {
        Stub { quiet_updates: Some(quiet_updates), ..Stub::working(name, log) }
    }
}

impl Engine for Stub {
    fn launch(&self) -> Result<(), ()> {
        self.log.lock().push(format!("{} launch", self.name));
        self.launch
    }

    fn shutdown(&self) -> Result<(), ()> {
        self.log.lock().push(format!("{} shutdown", self.name));
        self.shutdown
    }

    fn update(&mut self, root: &mut RootHandle) -> Result<(), ()> {
        self.log.lock().push(format!("{} update", self.name));
        self.updates += 1;
        if let Some(quiet) = self.quiet_updates {
            if self.updates > quiet {
                root.stop();
            }
        }
        self.update
    }
}

impl VideoEngine for Stub {}

impl AudioEngine for Stub {}

impl ControlEngine for Stub {}

impl ScriptEngine for Stub {}

type StubRoot = Root<Stub, Stub, Stub, Stub>;

fn new_log() -> Log {
    Arc::new(Mutex::new(Vec::new()))
}

fn root_of(video: Stub, audio: Stub, script: Stub, control: Stub) -> StubRoot {
    Root::new(video, audio, script, control)
}

fn working_root(log: &Log) -> StubRoot {
    root_of(
        Stub::working("video", log),
        Stub::working("audio", log),
        Stub::working("script", log),
        Stub::working("control", log),
    )
}

fn entries(log: &Log) -> Vec<String> {
    log.lock().clone()
}

fn count(log: &Log, entry: &str) -> usize {
    log.lock().iter().filter(|seen| seen.as_str() == entry).count()
}

/// The root as the suites below share it. Only the running flag is shown.
struct SharedRoot(StubRoot);

impl std::fmt::Debug for SharedRoot {
    fn fmt(&self, f: &mut std::fmt::Formatter<'_>) -> std::fmt::Result {
        f.write_str(&self.0.describe())
    }
}

#[derive(Debug, Clone)]
struct Environment {
    root: Arc<Mutex<Box<SharedRoot>>>,
    log: Log,
    result: Option<Result<(), ()>>,
}

impl Default for Environment {
    /// All engines in the root launch, update and shut down successfully.
    fn default() -> Self {
        let log = new_log();
        Self {
            root: Arc::new(Mutex::new(Box::new(SharedRoot(working_root(&log))))),
            log,
            result: None,
        }
    }
}

/// Runs a suite block after block, so that what one block does to the shared
/// root is done before the next block starts.
fn run_in_order(suite: &rspec::block::Suite<Environment>) {
    let logger = Arc::new(rspec::Logger::new(std::io::stdout()));
    let configuration = rspec::ConfigurationBuilder::default().parallel(false).build().unwrap();
    let runner = rspec::Runner::new(configuration, vec![logger]);
    runner.run(suite);
}

#[test]
fn lib_bdd() {
    run_in_order(&rspec::given("An engine", Environment::default(), |ctx| {
        ctx.when("Just start the root with working sub-engines.", |ctx| {
            ctx.before_all(|env| {
                env.result = Some(env.root.clone().lock().0.start_engines());
            });

            ctx.then("There is no error.", |env| {
                assert!(env.result.unwrap().is_ok());
            })
        });

        ctx.when("Start the root with broken video engine...", |ctx| {
            ctx.before_all(|env| {
                // A video engine that will fail to launch.
                let video_engine =
                    Stub { launch: Err(()), ..Stub::working("video", &env.log) };

                // Swap it in.
                let slot = env.root.lock().0.video_engine();
                *slot.lock() = video_engine;

                env.result = Some(env.root.lock().0.start_engines());
            });

            ctx.then("It should fail.", |env| {
                assert!(env.result.unwrap().is_err());
            })
        });
    }))
}

#[test]
fn tests_bdd() {
    run_in_order(&rspec::given("An engine", Environment::default(), |ctx| {
        ctx.when("Just start the root with working sub-engines.", |ctx| {
            ctx.before_all(|env| {
                env.result = Some(env.root.clone().lock().0.start_engines());
            });

            ctx.then("There is no error.", |env| {
                assert!(env.result.unwrap().is_ok());
            });

            ctx.when("Update all engines", |ctx| {
                ctx.before_all(|env| {
                    env.result = Some(env.root.clone().lock().0.update_engines())
                });

                ctx.then("There is no error.", |env| {
                    assert!(env.result.unwrap().is_ok());
                });
            });

            ctx.when("Shutdown all engines", |ctx| {
                ctx.before_all(|env| {
                    env.result = Some(env.root.clone().lock().0.shutdown_engines())
                });

                ctx.then("There is no error.", |env| {
                    assert!(env.result.unwrap().is_ok());
                });
            });
        });

        ctx.when("Start the root with broken video engine...", |ctx| {
            ctx.before_all(|env| {
                // A video engine that will fail to launch, shutdown and update.
                let video_engine = Stub::broken("video", &env.log);

                // Swap it into root.
                let slot = env.root.lock().0.video_engine();
                *slot.lock() = video_engine;

                env.result = Some(env.root.lock().0.start_engines());
            });

            ctx.then("It should fail.", |env| {
                assert!(env.result.unwrap().is_err());
            });

            ctx.when("Update all engines", |ctx| {
                ctx.before_all(|env| {
                    env.result = Some(env.root.clone().lock().0.update_engines())
                });

                ctx.then("It should fail.", |env| {
                    assert!(env.result.unwrap().is_err());
                });
            });

            ctx.when("Shutdown all engines", |ctx| {
                ctx.before_all(|env| {
                    env.result = Some(env.root.clone().lock().0.shutdown_engines())
                });

                ctx.then("It should fail.", |env| {
                    assert!(env.result.unwrap().is_err());
                });
            });
        });

        // Running means starting, updating until quit, and shutting down.
        ctx.when("Run root with working engines...", |ctx| {
            ctx.before_all(|env| {
                // The video engine asks the root to stop after a while.
                // Otherwise the loop would go on.
                let video_engine = Stub::stopping_after("video", 10, &env.log);

                // Swap it into root.
                let slot = env.root.lock().0.video_engine();
                *slot.lock() = video_engine;

                env.result = Some(env.root.clone().lock().0.run())
            });

            ctx.then("Run and stop successfully.", |env| {
                assert!(env.result.unwrap().is_ok())
            })
        })
    }));
}

#[test]
fn a_new_root_is_not_running_and_has_called_nothing() {
    let log = new_log();
    let root = working_root(&log);
    assert!(!root.is_running());
    assert!(entries(&log).is_empty());
}

#[test]
fn start_launches_each_engine_once_in_launch_order() {
    let log = new_log();
    let mut root = working_root(&log);
    assert_eq!(root.start_engines(), Ok(()));
    assert_eq!(
        entries(&log),
        ["script launch", "control launch", "audio launch", "video launch"]
    );
    assert!(!root.is_running());
}

#[test]
fn start_stops_at_the_first_failed_launch() {
    let log = new_log();
    let mut root = root_of(
        Stub::working("video", &log),
        Stub::working("audio", &log),
        Stub::working("script", &log),
        Stub::broken("control", &log),
    );
    assert_eq!(root.start_engines(), Err(()));
    assert_eq!(entries(&log), ["script launch", "control launch"]);
}

#[test]
fn start_with_a_broken_script_engine_launches_nothing_else() {
    let log = new_log();
    let mut root = root_of(
        Stub::working("video", &log),
        Stub::working("audio", &log),
        Stub::broken("script", &log),
        Stub::working("control", &log),
    );
    assert_eq!(root.start_engines(), Err(()));
    assert_eq!(entries(&log), ["script launch"]);
}

#[test]
fn start_with_a_broken_video_engine_has_launched_the_others() {
    let log = new_log();
    let mut root = root_of(
        Stub::broken("video", &log),
        Stub::working("audio", &log),
        Stub::working("script", &log),
        Stub::working("control", &log),
    );
    assert_eq!(root.start_engines(), Err(()));
    assert_eq!(
        entries(&log),
        ["script launch", "control launch", "audio launch", "video launch"]
    );
}

#[test]
fn a_frame_updates_each_engine_once_in_update_order() {
    let log = new_log();
    let mut root = working_root(&log);
    assert_eq!(root.update_engines(), Ok(()));
    assert_eq!(
        entries(&log),
        ["script update", "audio update", "control update", "video update"]
    );
}

#[test]
fn a_frame_stops_at_the_first_failed_update() {
    let log = new_log();
    let mut root = root_of(
        Stub::working("video", &log),
        Stub::broken("audio", &log),
        Stub::working("script", &log),
        Stub::working("control", &log),
    );
    assert_eq!(root.update_engines(), Err(()));
    assert_eq!(entries(&log), ["script update", "audio update"]);
}

#[test]
fn shutdown_calls_each_engine_once_in_shutdown_order() {
    let log = new_log();
    let mut root = working_root(&log);
    assert_eq!(root.shutdown_engines(), Ok(()));
    assert_eq!(
        entries(&log),
        ["audio shutdown", "control shutdown", "script shutdown", "video shutdown"]
    );
}

#[test]
fn shutdown_goes_on_after_a_failure() {
    let log = new_log();
    let mut root = root_of(
        Stub::working("video", &log),
        Stub::broken("audio", &log),
        Stub::working("script", &log),
        Stub::working("control", &log),
    );
    assert_eq!(root.shutdown_engines(), Err(()));
    assert_eq!(
        entries(&log),
        ["audio shutdown", "control shutdown", "script shutdown", "video shutdown"]
    );
}

#[test]
fn shutdown_goes_on_when_every_engine_fails() {
    let log = new_log();
    let mut root = root_of(
        Stub::broken("video", &log),
        Stub::broken("audio", &log),
        Stub::broken("script", &log),
        Stub::broken("control", &log),
    );
    assert_eq!(root.shutdown_engines(), Err(()));
    assert_eq!(
        entries(&log),
        ["audio shutdown", "control shutdown", "script shutdown", "video shutdown"]
    );
}

#[test]
fn shutdown_reports_a_failure_of_the_last_engine() {
    let log = new_log();
    let mut root = root_of(
        Stub::broken("video", &log),
        Stub::working("audio", &log),
        Stub::working("script", &log),
        Stub::working("control", &log),
    );
    assert_eq!(root.shutdown_engines(), Err(()));
    assert_eq!(count(&log, "video shutdown"), 1);
}

#[test]
fn run_stops_on_the_eleventh_update_of_the_video_engine() {
    let log = new_log();
    let mut root = root_of(
        Stub::stopping_after("video", 10, &log),
        Stub::working("audio", &log),
        Stub::working("script", &log),
        Stub::working("control", &log),
    );
    assert_eq!(root.run(), Ok(()));
    for name in ["video", "audio", "script", "control"] {
        assert_eq!(count(&log, &format!("{} launch", name)), 1);
        assert_eq!(count(&log, &format!("{} update", name)), 11);
        assert_eq!(count(&log, &format!("{} shutdown", name)), 1);
    }
    assert!(!root.is_running());
    let seen = entries(&log);
    assert_eq!(seen.len(), 4 + 44 + 4);
    assert_eq!(seen[..4], ["script launch", "control launch", "audio launch", "video launch"]);
    for frame in seen[4..48].chunks(4) {
        assert_eq!(frame, ["script update", "audio update", "control update", "video update"]);
    }
    assert_eq!(
        seen[48..],
        ["audio shutdown", "control shutdown", "script shutdown", "video shutdown"]
    );
}

#[test]
fn a_stop_request_never_cuts_its_frame_short() {
    let log = new_log();
    let mut root = root_of(
        Stub::working("video", &log),
        Stub::working("audio", &log),
        Stub::stopping_after("script", 2, &log),
        Stub::working("control", &log),
    );
    assert_eq!(root.run(), Ok(()));
    for name in ["video", "audio", "script", "control"] {
        assert_eq!(count(&log, &format!("{} update", name)), 3);
        assert_eq!(count(&log, &format!("{} shutdown", name)), 1);
    }
    let seen = entries(&log);
    assert_eq!(seen[12..16], ["script update", "audio update", "control update", "video update"]);
    assert_eq!(seen[16], "audio shutdown");
}

#[test]
fn a_stop_request_in_a_single_frame_clears_the_flag_at_once() {
    let log = new_log();
    let mut root = root_of(
        Stub::working("video", &log),
        Stub::stopping_after("audio", 0, &log),
        Stub::working("script", &log),
        Stub::working("control", &log),
    );
    assert_eq!(root.update_engines(), Ok(()));
    assert!(!root.is_running());
    assert_eq!(
        entries(&log),
        ["script update", "audio update", "control update", "video update"]
    );
}

#[test]
fn run_returns_a_failed_launch_without_shutdown() {
    let log = new_log();
    let mut root = root_of(
        Stub::working("video", &log),
        Stub { launch: Err(()), ..Stub::working("audio", &log) },
        Stub::working("script", &log),
        Stub::working("control", &log),
    );
    assert_eq!(root.run(), Err(()));
    assert_eq!(entries(&log), ["script launch", "control launch", "audio launch"]);
    assert!(!root.is_running());
}

#[test]
fn run_shuts_down_after_a_failed_update() {
    let log = new_log();
    let mut root = root_of(
        Stub::working("video", &log),
        Stub::working("audio", &log),
        Stub::working("script", &log),
        Stub { update: Err(()), ..Stub::working("control", &log) },
    );
    assert_eq!(root.run(), Err(()));
    assert_eq!(
        entries(&log),
        [
            "script launch",
            "control launch",
            "audio launch",
            "video launch",
            "script update",
            "audio update",
            "control update",
            "audio shutdown",
            "control shutdown",
            "script shutdown",
            "video shutdown",
        ]
    );
    assert!(root.is_running());
}

#[test]
fn run_reports_a_failed_shutdown_after_a_clean_loop() {
    let log = new_log();
    let mut root = root_of(
        Stub { shutdown: Err(()), ..Stub::stopping_after("video", 0, &log) },
        Stub::working("audio", &log),
        Stub::working("script", &log),
        Stub::working("control", &log),
    );
    assert_eq!(root.run(), Err(()));
    assert_eq!(count(&log, "video update"), 1);
    assert_eq!(count(&log, "audio shutdown"), 1);
    assert_eq!(count(&log, "video shutdown"), 1);
}

#[test]
fn run_for_ends_when_the_frames_are_used_up() {
    let log = new_log();
    let mut root = working_root(&log);
    assert_eq!(root.run_for(3), Ok(()));
    for name in ["video", "audio", "script", "control"] {
        assert_eq!(count(&log, &format!("{} launch", name)), 1);
        assert_eq!(count(&log, &format!("{} update", name)), 3);
        assert_eq!(count(&log, &format!("{} shutdown", name)), 1);
    }
    assert!(root.is_running());
}

#[test]
fn run_for_no_frames_launches_and_shuts_down() {
    let log = new_log();
    let mut root = working_root(&log);
    assert_eq!(root.run_for(0), Ok(()));
    assert_eq!(
        entries(&log),
        [
            "script launch",
            "control launch",
            "audio launch",
            "video launch",
            "audio shutdown",
            "control shutdown",
            "script shutdown",
            "video shutdown",
        ]
    );
}

#[test]
fn run_for_ends_early_on_a_stop_request() {
    let log = new_log();
    let mut root = root_of(
        Stub::stopping_after("video", 1, &log),
        Stub::working("audio", &log),
        Stub::working("script", &log),
        Stub::working("control", &log),
    );
    assert_eq!(root.run_for(100), Ok(()));
    assert_eq!(count(&log, "script update"), 2);
    assert!(!root.is_running());
}

#[test]
fn stop_clears_the_running_flag_and_calls_nothing() {
    let log = new_log();
    let mut root = working_root(&log);
    assert_eq!(root.run_for(1), Ok(()));
    assert!(root.is_running());
    let before = entries(&log).len();
    root.stop();
    assert!(!root.is_running());
    assert_eq!(entries(&log).len(), before);
}

#[test]
fn a_slot_handed_out_is_the_slot_of_the_root() {
    let log = new_log();
    let mut root = working_root(&log);
    assert!(Arc::ptr_eq(&root.video_engine(), &root.video_engine()));
    assert!(Arc::ptr_eq(&root.audio_engine(), &root.audio_engine()));
    assert!(Arc::ptr_eq(&root.script_engine(), &root.script_engine()));
    assert!(Arc::ptr_eq(&root.control_engine(), &root.control_engine()));
    assert_eq!(root.video_engine().lock().name, "video");
    assert_eq!(root.audio_engine().lock().name, "audio");
    assert_eq!(root.script_engine().lock().name, "script");
    assert_eq!(root.control_engine().lock().name, "control");
    *root.control_engine().lock() = Stub::broken("control", &log);
    assert_eq!(root.start_engines(), Err(()));
    assert_eq!(entries(&log), ["script launch", "control launch"]);
}

#[test]
fn a_fresh_handle_has_no_stop_request() {
    let mut handle = RootHandle::new();
    assert!(!handle.is_stop_requested());
    handle.stop();
    assert!(handle.is_stop_requested());
    handle.stop();
    assert!(handle.is_stop_requested());
}

#[test]
fn the_earlier_failure_is_the_one_reported() {
    assert_eq!(first_failure(Ok(()), Ok(())), Ok(()));
    assert_eq!(first_failure(Err(()), Ok(())), Err(()));
    assert_eq!(first_failure(Ok(()), Err(())), Err(()));
    assert_eq!(first_failure(Err(()), Err(())), Err(()));
}

#[test]
fn a_root_describes_itself_by_its_running_flag() {
    let log = new_log();
    let mut root = working_root(&log);
    assert_eq!(root.describe(), "Root { is_running: false }");
    assert_eq!(root.run_for(1), Ok(()));
    assert_eq!(root.describe(), "Root { is_running: true }");
    root.stop();
    assert_eq!(root.describe(), "Root { is_running: false }");
    assert_eq!(format!("{:?}", SharedRoot(root)), "Root { is_running: false }");
}
