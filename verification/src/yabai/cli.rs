use vstd::prelude::*;

verus! {

/// Why a request to the window manager failed.
#[derive(Debug, PartialEq, Eq)]
pub enum YabaiCommandExecError {
    /// The window manager could not be started; the text says why.
    Exec(String),
    ProcessTerminatedBySignal,
    /// The window manager ended with a status other than zero.
    ExitCode { code: i32, stdout: String, stderr: String },
    /// What the window manager printed is not valid UTF-8; the text says where.
    FromUTF8(String),
}

/// How a run of the window manager ended.
#[derive(Debug, PartialEq, Eq)]
pub struct CommandExit {
    /// Whether the status was zero.
    pub succeeded: bool,
    /// The status, unless a signal ended the run.
    pub code: Option<i32>,
    pub stdout: String,
    pub stderr: String,
}

/// What became of an attempt to run the window manager.
#[derive(Debug, PartialEq, Eq)]
pub enum CommandRun {
    /// It could not be started; the text says why.
    NotStarted(String),
    /// It ran, and printed what is not valid UTF-8; the text says where.
    NotUtf8(String),
    /// It ran to an end.
    Ended(CommandExit),
}

/// What `execute_yabai_cmd` makes of a run.
pub open spec fn judged(run: CommandRun) -> Result<String, YabaiCommandExecError> {
    match run {
        CommandRun::NotStarted(reason) => Err(YabaiCommandExecError::Exec(reason)),
        CommandRun::NotUtf8(place) => Err(YabaiCommandExecError::FromUTF8(place)),
        CommandRun::Ended(exit) => if exit.succeeded {
            Ok(exit.stdout)
        } else {
            match exit.code {
                Some(code) => Err(
                    YabaiCommandExecError::ExitCode {
                        code,
                        stdout: exit.stdout,
                        stderr: exit.stderr,
                    },
                ),
                None => Err(YabaiCommandExecError::ProcessTerminatedBySignal),
            }
        },
    }
}

/// Judges a run of the window manager: what it printed if it ran to an end with the
/// status zero, and else why the request failed.
pub fn execute_yabai_cmd(run: CommandRun) -> (outcome: Result<String, YabaiCommandExecError>)
    ensures
        outcome == judged(run),
{
    let exit = match run {
        CommandRun::NotStarted(reason) => {
            return Err(YabaiCommandExecError::Exec(reason));
        },
        CommandRun::NotUtf8(place) => {
            return Err(YabaiCommandExecError::FromUTF8(place));
        },
        CommandRun::Ended(exit) => exit,
    };
    if !exit.succeeded {
        return Err(
            match exit.code {
                Some(code) => YabaiCommandExecError::ExitCode {
                    code,
                    stdout: exit.stdout,
                    stderr: exit.stderr,
                },
                None => YabaiCommandExecError::ProcessTerminatedBySignal,
            },
        );
    }
    Ok(exit.stdout)
}

} // verus!
