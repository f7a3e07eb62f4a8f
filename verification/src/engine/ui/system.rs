use vstd::prelude::*;

verus! {

pub enum NotificationLevel {
    Info,
    Success,
    Warn,
    Error,
}

/// Log lines and the start and end of longer tasks.
pub enum SystemEvent {
    Log { level: NotificationLevel, message: String },
    TaskStarted(String),
    TaskFinished(String),
}

} // verus!
