use super::transport::{DisplayIndex, SpaceIndex, WindowId};
use crate::position::Direction;
use crate::text::{decimal_digits, decimal_string};
use vstd::prelude::*;

verus! {

/// A request to the window manager, as the arguments of its command line.
pub trait YabaiCommand {
    /// The arguments that make the request, in order.
    spec fn arguments(&self) -> Seq<Seq<char>>;

    fn to_args(&self) -> (args: Vec<String>)
        ensures
            args.deep_view() == self.arguments(),
    ;
}

/// Focuses the space with an index.
#[derive(Debug, PartialEq, Eq)]
pub struct FocusSpaceByIndex {
    index: SpaceIndex,
}

impl FocusSpaceByIndex {
    pub closed spec fn index(&self) -> SpaceIndex {
        self.index
    }

    pub fn new(index: SpaceIndex) -> (command: Self)
        ensures
            command.index() == index,
    {
        Self { index }
    }
}

impl YabaiCommand for FocusSpaceByIndex {
    open spec fn arguments(&self) -> Seq<Seq<char>> {
        seq!["-m"@, "space"@, "--focus"@, decimal_digits(self.index().0 as nat)]
    }

    fn to_args(&self) -> (args: Vec<String>) {
        let args = vec![
            "-m".to_owned(),
            "space".to_owned(),
            "--focus".to_owned(),
            decimal_string(self.index.0),
        ];
        assert(args.deep_view() =~= self.arguments());
        args
    }
}

/// Asks for the description of the space with an index.
#[derive(Debug, PartialEq, Eq)]
pub struct QuerySpaceByIndex {
    index: SpaceIndex,
}

impl QuerySpaceByIndex {
    pub closed spec fn index(&self) -> SpaceIndex {
        self.index
    }

    pub fn new(index: SpaceIndex) -> (command: Self)
        ensures
            command.index() == index,
    {
        Self { index }
    }
}

impl YabaiCommand for QuerySpaceByIndex {
    open spec fn arguments(&self) -> Seq<Seq<char>> {
        seq!["-m"@, "query"@, "--spaces"@, "--space"@, decimal_digits(self.index().0 as nat)]
    }

    fn to_args(&self) -> (args: Vec<String>) {
        let args = vec![
            "-m".to_owned(),
            "query".to_owned(),
            "--spaces".to_owned(),
            "--space".to_owned(),
            decimal_string(self.index.0),
        ];
        assert(args.deep_view() =~= self.arguments());
        args
    }
}

/// Asks for the descriptions of all windows.
#[derive(Debug, PartialEq, Eq)]
pub struct QueryWindows;

impl YabaiCommand for QueryWindows {
    open spec fn arguments(&self) -> Seq<Seq<char>> {
        seq!["-m"@, "query"@, "--windows"@]
    }

    fn to_args(&self) -> (args: Vec<String>) {
        let args = vec!["-m".to_owned(), "query".to_owned(), "--windows".to_owned()];
        assert(args.deep_view() =~= self.arguments());
        args
    }
}

/// Focuses the window with an id.
#[derive(Debug, PartialEq, Eq)]
pub struct FocusWindowById {
    id: WindowId,
}

impl FocusWindowById {
    pub closed spec fn id(&self) -> WindowId {
        self.id
    }

    pub fn new(id: WindowId) -> (command: Self)
        ensures
            command.id() == id,
    {
        Self { id }
    }
}

impl YabaiCommand for FocusWindowById {
    open spec fn arguments(&self) -> Seq<Seq<char>> {
        seq!["-m"@, "window"@, "--focus"@, decimal_digits(self.id().0 as nat)]
    }

    fn to_args(&self) -> (args: Vec<String>) {
        let args = vec![
            "-m".to_owned(),
            "window".to_owned(),
            "--focus".to_owned(),
            decimal_string(self.id.0),
        ];
        assert(args.deep_view() =~= self.arguments());
        args
    }
}

/// Asks for the descriptions of the spaces: of all of them, or of those of the
/// display that has the focus.
#[derive(Debug, PartialEq, Eq)]
pub struct QuerySpaces {
    pub only_current_display: bool,
}

impl YabaiCommand for QuerySpaces {
    open spec fn arguments(&self) -> Seq<Seq<char>> {
        if self.only_current_display {
            seq!["-m"@, "query"@, "--spaces"@, "--display"@]
        } else {
            seq!["-m"@, "query"@, "--spaces"@]
        }
    }

    fn to_args(&self) -> (args: Vec<String>) {
        let mut args = vec!["-m".to_owned(), "query".to_owned(), "--spaces".to_owned()];
        if self.only_current_display {
            args.push("--display".to_owned());
        }
        assert(args.deep_view() =~= self.arguments());
        args
    }
}

/// Asks for the descriptions of all displays.
#[derive(Debug, PartialEq, Eq)]
pub struct QueryDisplays;

impl YabaiCommand for QueryDisplays {
    open spec fn arguments(&self) -> Seq<Seq<char>> {
        seq!["-m"@, "query"@, "--displays"@]
    }

    fn to_args(&self) -> (args: Vec<String>) {
        let args = vec!["-m".to_owned(), "query".to_owned(), "--displays".to_owned()];
        assert(args.deep_view() =~= self.arguments());
        args
    }
}

/// Sends a space to a display.
#[derive(Debug, PartialEq, Eq)]
pub struct SendSpaceToDisplay {
    space_index: SpaceIndex,
    display_index: DisplayIndex,
}

impl SendSpaceToDisplay {
    pub closed spec fn space_index(&self) -> SpaceIndex {
        self.space_index
    }

    pub closed spec fn display_index(&self) -> DisplayIndex {
        self.display_index
    }

    pub fn new(space_index: SpaceIndex, display_index: DisplayIndex) -> (command: Self)
        ensures
            command.space_index() == space_index,
            command.display_index() == display_index,
    {
        Self { space_index, display_index }
    }
}

impl YabaiCommand for SendSpaceToDisplay {
    open spec fn arguments(&self) -> Seq<Seq<char>> {
        seq![
            "-m"@,
            "space"@,
            decimal_digits(self.space_index().0 as nat),
            "--display"@,
            decimal_digits(self.display_index().0 as nat),
        ]
    }

    fn to_args(&self) -> (args: Vec<String>) {
        let args = vec![
            "-m".to_owned(),
            "space".to_owned(),
            decimal_string(self.space_index.0),
            "--display".to_owned(),
            decimal_string(self.display_index.0),
        ];
        assert(args.deep_view() =~= self.arguments());
        args
    }
}

/// Gives a space a label.
#[derive(Debug, PartialEq, Eq)]
pub struct LabelSpace {
    index: SpaceIndex,
    label: String,
}

impl LabelSpace {
    pub closed spec fn index(&self) -> SpaceIndex {
        self.index
    }

    pub closed spec fn label(&self) -> Seq<char> {
        self.label@
    }

    pub fn new(index: SpaceIndex, label: String) -> (command: Self)
        ensures
            command.index() == index,
            command.label() == label@,
    {
        Self { index, label }
    }
}

impl YabaiCommand for LabelSpace {
    open spec fn arguments(&self) -> Seq<Seq<char>> {
        seq!["-m"@, "space"@, decimal_digits(self.index().0 as nat), "--label"@, self.label()]
    }

    fn to_args(&self) -> (args: Vec<String>) {
        let args = vec![
            "-m".to_owned(),
            "space".to_owned(),
            decimal_string(self.index.0),
            "--label".to_owned(),
            self.label.clone(),
        ];
        assert(args.deep_view() =~= self.arguments());
        args
    }
}

/// Moves the space with one label to the place immediately before the space with
/// another.
#[derive(Debug, PartialEq, Eq)]
pub struct MoveSpace {
    pub source_label: String,
    pub target_label: String,
}

impl YabaiCommand for MoveSpace {
    open spec fn arguments(&self) -> Seq<Seq<char>> {
        seq!["-m"@, "space"@, self.source_label@, "--move"@, self.target_label@]
    }

    fn to_args(&self) -> (args: Vec<String>) {
        let args = vec![
            "-m".to_owned(),
            "space".to_owned(),
            self.source_label.clone(),
            "--move".to_owned(),
            self.target_label.clone(),
        ];
        assert(args.deep_view() =~= self.arguments());
        args
    }
}

/// Moves the focused window to the space with a label, or with an index written as
/// a label.
#[derive(Debug, PartialEq, Eq)]
pub struct MoveWindowToSpace {
    pub target_space_label: String,
}

impl YabaiCommand for MoveWindowToSpace {
    open spec fn arguments(&self) -> Seq<Seq<char>> {
        seq!["-m"@, "window"@, "--space"@, self.target_space_label@]
    }

    fn to_args(&self) -> (args: Vec<String>) {
        let args = vec![
            "-m".to_owned(),
            "window".to_owned(),
            "--space".to_owned(),
            self.target_space_label.clone(),
        ];
        assert(args.deep_view() =~= self.arguments());
        args
    }
}

/// Creates a space on the display that has the focus.
#[derive(Debug, PartialEq, Eq)]
pub struct CreateSpace;

impl YabaiCommand for CreateSpace {
    open spec fn arguments(&self) -> Seq<Seq<char>> {
        seq!["-m"@, "space"@, "--create"@]
    }

    fn to_args(&self) -> (args: Vec<String>) {
        let args = vec!["-m".to_owned(), "space".to_owned(), "--create".to_owned()];
        assert(args.deep_view() =~= self.arguments());
        args
    }
}

/// Destroys the space with an index.
#[derive(Debug, PartialEq, Eq)]
pub struct DestoySpace {
    pub index: SpaceIndex,
}

impl YabaiCommand for DestoySpace {
    open spec fn arguments(&self) -> Seq<Seq<char>> {
        seq!["-m"@, "space"@, "--destroy"@, decimal_digits(self.index.0 as nat)]
    }

    fn to_args(&self) -> (args: Vec<String>) {
        let args = vec![
            "-m".to_owned(),
            "space".to_owned(),
            "--destroy".to_owned(),
            decimal_string(self.index.0),
        ];
        assert(args.deep_view() =~= self.arguments());
        args
    }
}

/// Where a window is warped to: in a direction, or onto another window.
#[derive(Debug, Clone, Copy, PartialEq, Eq)]
pub enum WarpWindowArg {
    Direction(Direction),
    WindowId(WindowId),
}

impl WarpWindowArg {
    /// The argument as the window manager reads it.
    pub open spec fn text(&self) -> Seq<char> {
        match self {
            WarpWindowArg::Direction(direction) => direction.name(),
            WarpWindowArg::WindowId(window_id) => decimal_digits(window_id.0 as nat),
        }
    }

    pub fn to_string(&self) -> (text: String)
        ensures
            text@ == self.text(),
    {
        match self {
            WarpWindowArg::Direction(direction) => direction.as_str().to_owned(),
            WarpWindowArg::WindowId(window_id) => decimal_string(window_id.0),
        }
    }
}

/// Warps the focused window.
#[derive(Debug, PartialEq, Eq)]
pub struct WarpWindow {
    arg: WarpWindowArg,
}

impl WarpWindow {
    pub closed spec fn arg(&self) -> WarpWindowArg {
        self.arg
    }

    pub fn new(arg: WarpWindowArg) -> (command: Self)
        ensures
            command.arg() == arg,
    {
        Self { arg }
    }
}

impl YabaiCommand for WarpWindow {
    open spec fn arguments(&self) -> Seq<Seq<char>> {
        seq!["-m"@, "window"@, "--warp"@, self.arg().text()]
    }

    fn to_args(&self) -> (args: Vec<String>) {
        let args = vec![
            "-m".to_owned(),
            "window".to_owned(),
            "--warp".to_owned(),
            self.arg.to_string(),
        ];
        assert(args.deep_view() =~= self.arguments());
        args
    }
}

} // verus!
