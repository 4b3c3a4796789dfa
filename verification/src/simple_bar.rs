use vstd::prelude::*;

verus! {

/// Why the status bar could not be told to refresh.
#[derive(Debug, PartialEq, Eq)]
pub enum SimpleBarUpdateError {
    /// The script runner could not be started; the text says why.
    IOError(String),
    /// The script runner ended with a status other than zero.
    NonZeroStatusCode { stdout: String },
}

/// What became of an attempt to run the script that refreshes the status bar.
#[derive(Debug, PartialEq, Eq)]
pub enum ScriptRun {
    /// The script runner could not be started; the text says why.
    NotStarted(String),
    /// The script runner ran to an end.
    Ended { succeeded: bool, stdout: String },
}

/// The arguments for the script runner that make the status bar refresh.
pub fn refresh_arguments() -> (args: Vec<String>)
    ensures
        args.deep_view() == seq![
            "-e"@,
            "tell application id \"tracesOf.Uebersicht\" to refresh widget id \"simple-bar-index-jsx\""@,
        ],
{
    let args = vec![
        "-e".to_owned(),
        "tell application id \"tracesOf.Uebersicht\" to refresh widget id \"simple-bar-index-jsx\"".to_owned(),
    ];
    assert(args.deep_view() =~= seq![
        "-e"@,
        "tell application id \"tracesOf.Uebersicht\" to refresh widget id \"simple-bar-index-jsx\""@,
    ]);
    args
}

/// Judges a run of the script: the status bar was refreshed exactly when the script
/// runner ran to an end with the status zero.
pub fn update(run: ScriptRun) -> (outcome: Result<(), SimpleBarUpdateError>)
    ensures
        outcome == (match run {
            ScriptRun::NotStarted(reason) => Err(SimpleBarUpdateError::IOError(reason)),
            ScriptRun::Ended { succeeded, stdout } => if succeeded {
                Ok(())
            } else {
                Err(SimpleBarUpdateError::NonZeroStatusCode { stdout })
            },
        }),
{
    match run {
        ScriptRun::NotStarted(reason) => Err(SimpleBarUpdateError::IOError(reason)),
        ScriptRun::Ended { succeeded, stdout } => {
            if !succeeded {
                return Err(SimpleBarUpdateError::NonZeroStatusCode { stdout });
            }
            Ok(())
        },
    }
}

} // verus!
