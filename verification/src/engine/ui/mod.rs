//! What a front end is told while the workflow runs.
use vstd::prelude::*;

pub mod package;
pub mod system;

use package::PackageEvent;
use system::{NotificationLevel, SystemEvent};

verus! {

/// A front end: it is handed package and system events.
pub trait ConduitUI {
    fn handle_package(&self, event: PackageEvent);

    fn handle_system(&self, event: SystemEvent);

    /// An informational log line.
    fn log(&self, msg: &str) {
        self.handle_system(log_event(msg));
    }
}

/// The event that `log` hands on for a message: an informational log line
/// with that text.
pub fn log_event(msg: &str) -> (e: SystemEvent)
    ensures
        e matches SystemEvent::Log { level, message } && level is Info && message@ == msg@,
{
    SystemEvent::Log { level: NotificationLevel::Info, message: msg.to_string() }
}

} // verus!
