use yabaictl::position::Direction;
use yabaictl::simple_bar::{self, ScriptRun, SimpleBarUpdateError};
use yabaictl::yabai::cli::{execute_yabai_cmd, CommandExit, CommandRun, YabaiCommandExecError};
use yabaictl::yabai::command::{
    CreateSpace, DestoySpace, FocusSpaceByIndex, FocusWindowById, LabelSpace, MoveSpace,
    MoveWindowToSpace, QueryDisplays, QuerySpaceByIndex, QuerySpaces, QueryWindows,
    SendSpaceToDisplay, WarpWindow, WarpWindowArg, YabaiCommand,
};
use yabaictl::yabai::transport::{DisplayIndex, SpaceIndex, WindowId};

#[test]
fn focus_space_arguments() {
    assert_eq!(
        FocusSpaceByIndex::new(SpaceIndex(3)).to_args(),
        vec!["-m", "space", "--focus", "3"]
    );
    assert_eq!(
        FocusSpaceByIndex::new(SpaceIndex(u32::MAX)).to_args(),
        vec!["-m", "space", "--focus", "4294967295"]
    );
}

#[test]
fn query_arguments() {
    assert_eq!(
        QuerySpaceByIndex::new(SpaceIndex(12)).to_args(),
        vec!["-m", "query", "--spaces", "--space", "12"]
    );
    assert_eq!(QueryWindows.to_args(), vec!["-m", "query", "--windows"]);
    assert_eq!(QueryDisplays.to_args(), vec!["-m", "query", "--displays"]);
    assert_eq!(
        QuerySpaces { only_current_display: false }.to_args(),
        vec!["-m", "query", "--spaces"]
    );
    assert_eq!(
        QuerySpaces { only_current_display: true }.to_args(),
        vec!["-m", "query", "--spaces", "--display"]
    );
}

#[test]
fn window_arguments() {
    assert_eq!(
        FocusWindowById::new(WindowId(4071)).to_args(),
        vec!["-m", "window", "--focus", "4071"]
    );
    assert_eq!(
        MoveWindowToSpace { target_space_label: "3: mail".to_owned() }.to_args(),
        vec!["-m", "window", "--space", "3: mail"]
    );
    assert_eq!(
        WarpWindow::new(WarpWindowArg::Direction(Direction::West)).to_args(),
        vec!["-m", "window", "--warp", "west"]
    );
    assert_eq!(
        WarpWindow::new(WarpWindowArg::WindowId(WindowId(0))).to_args(),
        vec!["-m", "window", "--warp", "0"]
    );
    assert_eq!(WarpWindowArg::Direction(Direction::South).to_string(), "south");
    assert_eq!(WarpWindowArg::WindowId(WindowId(100)).to_string(), "100");
}

#[test]
fn space_arguments() {
    assert_eq!(
        SendSpaceToDisplay::new(SpaceIndex(4), DisplayIndex(2)).to_args(),
        vec!["-m", "space", "4", "--display", "2"]
    );
    assert_eq!(
        LabelSpace::new(SpaceIndex(10), "7:".to_owned()).to_args(),
        vec!["-m", "space", "10", "--label", "7:"]
    );
    assert_eq!(
        MoveSpace { source_label: "2:".to_owned(), target_label: "5: x".to_owned() }.to_args(),
        vec!["-m", "space", "2:", "--move", "5: x"]
    );
    assert_eq!(CreateSpace.to_args(), vec!["-m", "space", "--create"]);
    assert_eq!(
        DestoySpace { index: SpaceIndex(9) }.to_args(),
        vec!["-m", "space", "--destroy", "9"]
    );
}

fn exit(succeeded: bool, code: Option<i32>) -> CommandRun {
    CommandRun::Ended(CommandExit {
        succeeded,
        code,
        stdout: "out".to_owned(),
        stderr: "err".to_owned(),
    })
}

#[test]
fn a_run_is_judged_by_how_it_ended() {
    assert_eq!(execute_yabai_cmd(exit(true, Some(0))), Ok("out".to_owned()));
    assert_eq!(
        execute_yabai_cmd(exit(false, Some(2))),
        Err(YabaiCommandExecError::ExitCode {
            code: 2,
            stdout: "out".to_owned(),
            stderr: "err".to_owned()
        })
    );
    assert_eq!(
        execute_yabai_cmd(exit(false, None)),
        Err(YabaiCommandExecError::ProcessTerminatedBySignal)
    );
    // The status decides, whatever the code says.
    assert_eq!(execute_yabai_cmd(exit(true, None)), Ok("out".to_owned()));
    assert_eq!(
        execute_yabai_cmd(exit(false, Some(0))),
        Err(YabaiCommandExecError::ExitCode {
            code: 0,
            stdout: "out".to_owned(),
            stderr: "err".to_owned()
        })
    );
}

#[test]
fn a_run_that_did_not_end_is_a_failure() {
    assert_eq!(
        execute_yabai_cmd(CommandRun::NotStarted("no such file".to_owned())),
        Err(YabaiCommandExecError::Exec("no such file".to_owned()))
    );
    assert_eq!(
        execute_yabai_cmd(CommandRun::NotUtf8("at byte 3".to_owned())),
        Err(YabaiCommandExecError::FromUTF8("at byte 3".to_owned()))
    );
}

#[test]
fn the_status_bar_is_refreshed_by_a_script() {
    assert_eq!(
        simple_bar::refresh_arguments(),
        vec![
            "-e",
            "tell application id \"tracesOf.Uebersicht\" to refresh widget id \"simple-bar-index-jsx\""
        ]
    );
    let ended = |succeeded: bool, stdout: &str| ScriptRun::Ended {
        succeeded,
        stdout: stdout.to_owned(),
    };
    assert_eq!(simple_bar::update(ended(true, "ignored")), Ok(()));
    assert_eq!(
        simple_bar::update(ended(false, "what it said")),
        Err(SimpleBarUpdateError::NonZeroStatusCode { stdout: "what it said".to_owned() })
    );
    assert_eq!(
        simple_bar::update(ScriptRun::NotStarted("not found".to_owned())),
        Err(SimpleBarUpdateError::IOError("not found".to_owned()))
    );
}
