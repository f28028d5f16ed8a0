use vstd::prelude::*;
use crate::sink::{ReloadTarget, get_reload, reload_order};

verus! {

/// What the configuration watcher observed during one wait.
#[derive(Debug, Clone, Copy, PartialEq, Eq, Structural)]
pub enum WatchEvent {
    /// The configuration file was modified.
    Modified,
    /// Some other change was reported for the file (created, accessed, removed, ...).
    Other,
    /// No event arrived within the wait period.
    Timeout,
    /// The event channel was closed.
    Disconnected,
}

/// What the watcher does next.
pub enum WatchStep {
    /// Reload these components, in order (the services, then the processor), then keep watching.
    Reload { targets: Vec<ReloadTarget> },
    /// Keep watching.
    Continue,
    /// Stop watching.
    Stop,
}

/// One step of the watch loop: a modification reloads every service and the processor; a quiet
/// period ends the loop once a stop was requested; a closed channel ends it at once.
pub fn next_step(event: WatchEvent, stop_requested: bool) -> (step: WatchStep)
    ensures
        match step {
            WatchStep::Reload { targets } => event == WatchEvent::Modified && targets@
                == reload_order(),
            WatchStep::Continue => event == WatchEvent::Other || (event == WatchEvent::Timeout
                && !stop_requested),
            WatchStep::Stop => event == WatchEvent::Disconnected || (event == WatchEvent::Timeout
                && stop_requested),
        },
{
    match event {
        WatchEvent::Modified => {
            let mut targets = get_reload();
            targets.push(ReloadTarget::Processor);
            assert(targets@ =~= reload_order());
            WatchStep::Reload { targets }
        },
        WatchEvent::Other => WatchStep::Continue,
        WatchEvent::Timeout => if stop_requested {
            WatchStep::Stop
        } else {
            WatchStep::Continue
        },
        WatchEvent::Disconnected => WatchStep::Stop,
    }
}

} // verus!
