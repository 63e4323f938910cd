//! What is logged when a background task ends.
use vstd::prelude::*;
use vstd::string::StringExecFns;

verus! {

/// How urgent a line of the log is.
#[derive(Clone, Copy, Debug, PartialEq, Eq, Structural)]
pub enum LogLevel {
    Error,
    Warn,
}

/// A line of the log.
#[derive(Debug)]
pub struct LogLine {
    pub level: LogLevel,
    pub text: String,
}

/// How a task failed: it panicked or was cancelled, with this description.
#[derive(Debug)]
pub struct TaskFailure {
    pub panicked: bool,
    pub message: String,
}

/// What to log when the task of this name has ended: nothing where it ended by
/// itself, an error where it panicked, a warning where it was cancelled.
pub fn log_task_join(name: &str, result: Result<(), TaskFailure>) -> (r: Option<LogLine>)
    ensures
        r is None <==> result is Ok,
        result matches Err(failure) ==> (r matches Some(line) && line.level == (if failure.panicked {
            LogLevel::Error
        } else {
            LogLevel::Warn
        }) && line.text@ == "task '"@ + name@ + (if failure.panicked {
            "' panicked: "@
        } else {
            "' was cancelled: "@
        }) + failure.message@),
{
    match result {
        Ok(()) => None,
        Err(failure) => {
            let mut text: String = "task '".to_owned();
            text.append(name);
            let level = if failure.panicked {
                text.append("' panicked: ");
                LogLevel::Error
            } else {
                text.append("' was cancelled: ");
                LogLevel::Warn
            };
            text.append(failure.message.as_str());
            Some(LogLine { level, text })
        },
    }
}

} // verus!
