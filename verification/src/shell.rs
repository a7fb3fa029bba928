//! The desktop shell's decisions: command-line handling, the window to
//! create, what each window event does (ESC and close quit cleanly), and the
//! embedded browser's key and sub-process rules. The host performs what these
//! functions decide.

use vstd::prelude::*;
use crate::text::text_eq;

verus! {

/// The command-line help text.
pub const HELP: &'static str = "CARVILON CyberDesk\n\nUSAGE:\n    cyberdesk [OPTIONS]\n\nOPTIONS:\n    --windowed          Start in a 1600x900 dev window (default: borderless\n                        fullscreen on the primary monitor).\n    --capture <PATH>    Render a single ring frame off-screen to a PNG and exit\n                        (visual self-test; does not open a window).\n    -h, --help          Print this help.\n\nPress ESC to quit.\n";

/// The shell window's title.
pub const WINDOW_TITLE: &'static str = "CARVILON CyberDesk";

/// Page loaded into the embedded surf-zone view.
pub const HOME_URL: &'static str = "https://www.google.com/";

/// Windows virtual-key code for ESC.
pub const VK_ESCAPE: i32 = 0x1B;

/// What the command line asks for.
#[derive(Debug, PartialEq, Eq)]
pub enum CliCommand {
    /// Open the shell (in a dev window when `windowed`).
    Run { windowed: bool },
    /// Render one frame off-screen to `path` and exit.
    Capture { path: String },
    /// Print the help and exit successfully.
    Help,
    /// `--capture` without its path: an error.
    MissingCapturePath,
    /// An argument the shell does not know: an error, with the help.
    UnknownArgument(String),
}

/// The spec form of [`CliCommand`].
pub enum CliView {
    Run { windowed: bool },
    Capture { path: Seq<char> },
    Help,
    MissingCapturePath,
    UnknownArgument(Seq<char>),
}

impl View for CliCommand {
    type V = CliView;

    open spec fn view(&self) -> CliView {
        match self {
            CliCommand::Run { windowed } => CliView::Run { windowed: *windowed },
            CliCommand::Capture { path } => CliView::Capture { path: path@ },
            CliCommand::Help => CliView::Help,
            CliCommand::MissingCapturePath => CliView::MissingCapturePath,
            CliCommand::UnknownArgument(a) => CliView::UnknownArgument(a@),
        }
    }
}

/// Arguments are read left to right: `--windowed` sets the dev window,
/// `--capture` takes the next argument as its path (the last one given
/// wins), help and errors end the reading at once. With no error and no
/// help, a capture path means a capture, else the shell runs.
pub open spec fn cli_from(
    args: Seq<Seq<char>>,
    i: int,
    windowed: bool,
    capture: Option<Seq<char>>,
) -> CliView
    decreases args.len() - i,
{
    if i >= args.len() || i < 0 {
        match capture {
            Some(p) => CliView::Capture { path: p },
            None => CliView::Run { windowed },
        }
    } else {
        let a = args[i];
        if a == "--windowed"@ {
            cli_from(args, i + 1, true, capture)
        } else if a == "--capture"@ {
            if i + 1 < args.len() {
                cli_from(args, i + 2, windowed, Some(args[i + 1]))
            } else {
                CliView::MissingCapturePath
            }
        } else if a == "-h"@ || a == "--help"@ {
            CliView::Help
        } else {
            CliView::UnknownArgument(a)
        }
    }
}

pub open spec fn args_view(args: Seq<String>) -> Seq<Seq<char>> {
    args.map_values(|a: String| a@)
}

/// Read the command line (without the program name).
pub fn parse_args(args: &Vec<String>) -> (r: CliCommand)
    ensures
        r@ == cli_from(args_view(args@), 0, false, None),
{
    let mut windowed = false;
    let mut capture: Option<String> = None;
    let mut i: usize = 0;
    while i < args.len()
        invariant
            i <= args.len(),
            cli_from(args_view(args@), 0, false, None) == cli_from(
                args_view(args@),
                i as int,
                windowed,
                match capture {
                    Some(c) => Some(c@),
                    None => None,
                },
            ),
        decreases args.len() - i,
    {
        let a = args[i].as_str();
        if text_eq(a, "--windowed") {
            windowed = true;
            i = i + 1;
        } else if text_eq(a, "--capture") {
            if i + 1 < args.len() {
                capture = Some(args[i + 1].clone());
                i = i + 2;
            } else {
                return CliCommand::MissingCapturePath;
            }
        } else if text_eq(a, "-h") || text_eq(a, "--help") {
            return CliCommand::Help;
        } else {
            return CliCommand::UnknownArgument(args[i].clone());
        }
    }
    match capture {
        Some(path) => CliCommand::Capture { path },
        None => CliCommand::Run { windowed },
    }
}

/// The shell window to create.
#[derive(Debug, PartialEq, Eq, Clone, Copy)]
pub enum WindowMode {
    /// A resizable dev window of the given logical size.
    Windowed { width: u32, height: u32 },
    /// Borderless fullscreen on the primary monitor, without decorations.
    BorderlessFullscreen,
}

/// The dev window is 1600x900; otherwise borderless fullscreen.
pub fn window_mode(windowed: bool) -> (r: WindowMode)
    ensures
        windowed ==> r == (WindowMode::Windowed { width: 1600, height: 900 }),
        !windowed ==> r == WindowMode::BorderlessFullscreen,
{
    if windowed {
        WindowMode::Windowed { width: 1600, height: 900 }
    } else {
        WindowMode::BorderlessFullscreen
    }
}

/// The shell's own state: the requested mode, and whether its window (and
/// renderer) exist.
#[derive(Debug, PartialEq, Eq, Clone, Copy)]
pub struct ShellState {
    pub windowed: bool,
    pub has_window: bool,
}

/// What the event loop reports.
#[derive(Debug, PartialEq, Eq, Clone, Copy)]
pub enum ShellEvent {
    Resumed,
    CloseRequested,
    Key { pressed: bool, escape: bool },
    Resized { width: u32, height: u32 },
    RedrawRequested,
    AboutToWait,
    Other,
}

/// What the host does in answer.
#[derive(Debug, PartialEq, Eq, Clone, Copy)]
pub enum ShellAction {
    Nothing,
    CreateWindow(WindowMode),
    Exit,
    Resize { width: u32, height: u32 },
    Render,
    RequestRedraw,
}

pub open spec fn shell_step_spec(st: ShellState, ev: ShellEvent) -> (ShellState, ShellAction) {
    match ev {
        ShellEvent::Resumed => if st.has_window {
            (st, ShellAction::Nothing)
        } else {
            (
                ShellState { has_window: true, ..st },
                ShellAction::CreateWindow(
                    if st.windowed {
                        WindowMode::Windowed { width: 1600, height: 900 }
                    } else {
                        WindowMode::BorderlessFullscreen
                    },
                ),
            )
        },
        ShellEvent::CloseRequested => (st, ShellAction::Exit),
        ShellEvent::Key { pressed, escape } => if pressed && escape {
            (st, ShellAction::Exit)
        } else {
            (st, ShellAction::Nothing)
        },
        ShellEvent::Resized { width, height } => if st.has_window {
            (st, ShellAction::Resize { width, height })
        } else {
            (st, ShellAction::Nothing)
        },
        ShellEvent::RedrawRequested => if st.has_window {
            (st, ShellAction::Render)
        } else {
            (st, ShellAction::Nothing)
        },
        ShellEvent::AboutToWait => if st.has_window {
            (st, ShellAction::RequestRedraw)
        } else {
            (st, ShellAction::Nothing)
        },
        ShellEvent::Other => (st, ShellAction::Nothing),
    }
}

/// One step of the shell: the window is created once on resume, close and a
/// pressed ESC exit, resizes and redraws go to the renderer once it exists,
/// and every idle turn asks for another frame.
pub fn shell_step(st: ShellState, ev: ShellEvent) -> (r: (ShellState, ShellAction))
    ensures
        r == shell_step_spec(st, ev),
{
    match ev {
        ShellEvent::Resumed => if st.has_window {
            (st, ShellAction::Nothing)
        } else {
            (ShellState { has_window: true, ..st }, ShellAction::CreateWindow(window_mode(st.windowed)))
        },
        ShellEvent::CloseRequested => (st, ShellAction::Exit),
        ShellEvent::Key { pressed, escape } => if pressed && escape {
            (st, ShellAction::Exit)
        } else {
            (st, ShellAction::Nothing)
        },
        ShellEvent::Resized { width, height } => if st.has_window {
            (st, ShellAction::Resize { width, height })
        } else {
            (st, ShellAction::Nothing)
        },
        ShellEvent::RedrawRequested => if st.has_window {
            (st, ShellAction::Render)
        } else {
            (st, ShellAction::Nothing)
        },
        ShellEvent::AboutToWait => if st.has_window {
            (st, ShellAction::RequestRedraw)
        } else {
            (st, ShellAction::Nothing)
        },
        ShellEvent::Other => (st, ShellAction::Nothing),
    }
}

/// The window is created at most once: after the first resume, a second
/// resume creates nothing.
pub proof fn law_window_created_once(st: ShellState)
    ensures
        shell_step_spec(shell_step_spec(st, ShellEvent::Resumed).0, ShellEvent::Resumed).1
            == ShellAction::Nothing,
        shell_step_spec(st, ShellEvent::Resumed).0.has_window,
{
}

/// A first resume creates the window in the mode the command line asked
/// for: the 1600x900 dev window with `--windowed`, borderless fullscreen
/// otherwise. Close and a pressed ESC always exit, and nothing but those
/// two exits.
pub proof fn law_shell_window_and_exit(st: ShellState, ev: ShellEvent)
    ensures
        !st.has_window && st.windowed ==> shell_step_spec(st, ShellEvent::Resumed).1
            == ShellAction::CreateWindow(WindowMode::Windowed { width: 1600, height: 900 }),
        !st.has_window && !st.windowed ==> shell_step_spec(st, ShellEvent::Resumed).1
            == ShellAction::CreateWindow(WindowMode::BorderlessFullscreen),
        shell_step_spec(st, ShellEvent::CloseRequested).1 == ShellAction::Exit,
        shell_step_spec(st, ShellEvent::Key { pressed: true, escape: true }).1 == ShellAction::Exit,
        shell_step_spec(st, ev).1 == ShellAction::Exit ==> (ev == ShellEvent::CloseRequested || ev
            == (ShellEvent::Key { pressed: true, escape: true })),
        shell_step_spec(st, ev).0.windowed == st.windowed,
        ev != ShellEvent::Resumed ==> shell_step_spec(st, ev).0 == st,
        forall|w: u32, h: u32|
            #![trigger shell_step_spec(st, ShellEvent::Resized { width: w, height: h })]
            shell_step_spec(st, ShellEvent::Resized { width: w, height: h }).1 == if st.has_window {
                ShellAction::Resize { width: w, height: h }
            } else {
                ShellAction::Nothing
            },
        st.has_window ==> shell_step_spec(st, ShellEvent::RedrawRequested).1 == ShellAction::Render,
        st.has_window ==> shell_step_spec(st, ShellEvent::AboutToWait).1
            == ShellAction::RequestRedraw,
        !st.has_window && ev != ShellEvent::Resumed && ev != ShellEvent::CloseRequested && ev != (
        ShellEvent::Key { pressed: true, escape: true }) ==> shell_step_spec(st, ev).1
            == ShellAction::Nothing,
{
}

proof fn lemma_option_texts_differ()
    ensures
        "-h"@ != "--windowed"@,
        "-h"@ != "--capture"@,
        "--help"@ != "--windowed"@,
        "--help"@ != "--capture"@,
        "--windowed"@ != "--capture"@,
{
    reveal_strlit("-h");
    reveal_strlit("--help");
    reveal_strlit("--windowed");
    reveal_strlit("--capture");
    assert("-h"@.len() != "--windowed"@.len());
    assert("-h"@.len() != "--capture"@.len());
    assert("--help"@.len() != "--windowed"@.len());
    assert("--help"@.len() != "--capture"@.len());
    assert("--windowed"@.len() != "--capture"@.len());
}

proof fn lemma_windowed_prefix(args: Seq<Seq<char>>, j: int, k: int, w: bool)
    requires
        0 <= j <= k < args.len(),
        forall|m: int| 0 <= m < k ==> #[trigger] args[m] == "--windowed"@,
    ensures
        cli_from(args, j, w, None) == cli_from(args, k, w || j < k, None),
    decreases k - j,
{
    if j < k {
        lemma_windowed_prefix(args, j + 1, k, true);
        assert(cli_from(args, j, w, None) == cli_from(args, j + 1, true, None));
    }
}

/// Reading the command line: `-h` or `--help` asks for the help wherever
/// the reading reaches it, and in particular after any number of
/// `--windowed`; an argument that is none of the options is reported as
/// unknown; no argument runs the shell fullscreen, `--windowed` alone runs
/// it windowed, and `--capture <PATH>` captures to that path.
pub proof fn law_command_line(
    args: Seq<Seq<char>>,
    i: int,
    w: bool,
    c: Option<Seq<char>>,
    k: int,
    path: Seq<char>,
)
    ensures
        0 <= i < args.len() && (args[i] == "-h"@ || args[i] == "--help"@) ==> cli_from(args, i, w, c)
            == CliView::Help,
        0 <= k < args.len() && (args[k] == "-h"@ || args[k] == "--help"@) && (forall|m: int|
            0 <= m < k ==> #[trigger] args[m] == "--windowed"@) ==> cli_from(args, 0, false, None)
            == CliView::Help,
        0 <= i < args.len() && args[i] != "-h"@ && args[i] != "--help"@ && args[i]
            != "--windowed"@ && args[i] != "--capture"@ ==> cli_from(args, i, w, c)
            == CliView::UnknownArgument(args[i]),
        cli_from(Seq::<Seq<char>>::empty(), 0, false, None) == (CliView::Run { windowed: false }),
        cli_from(seq!["--windowed"@], 0, false, None) == (CliView::Run { windowed: true }),
        cli_from(seq!["--capture"@, path], 0, false, None) == (CliView::Capture { path }),
        cli_from(seq!["--capture"@], 0, false, None) == CliView::MissingCapturePath,
        0 <= i < args.len() && args[i] == "--windowed"@ ==> cli_from(args, i, w, c) == cli_from(
            args,
            i + 1,
            true,
            c,
        ),
        0 <= i && i + 1 < args.len() && args[i] == "--capture"@ ==> cli_from(args, i, w, c)
            == cli_from(args, i + 2, w, Some(args[i + 1])),
        i >= args.len() ==> cli_from(args, i, w, c) == match c {
            Some(p) => CliView::Capture { path: p },
            None => CliView::Run { windowed: w },
        },
{
    lemma_option_texts_differ();
    if 0 <= k < args.len() && (args[k] == "-h"@ || args[k] == "--help"@) && (forall|m: int|
        0 <= m < k ==> #[trigger] args[m] == "--windowed"@) {
        lemma_windowed_prefix(args, 0, k, false);
    }
    assert(cli_from(seq!["--windowed"@], 1, true, None) == (CliView::Run { windowed: true }));
    assert(cli_from(seq!["--capture"@, path], 2, false, Some(path)) == (CliView::Capture { path }));
}

/// What the embedded browser does with a key before the page sees it.
#[derive(Debug, PartialEq, Eq, Clone, Copy)]
pub struct KeyDecision {
    /// Ask the shell to quit.
    pub quit: bool,
    /// Keep the key from the page.
    pub consume: bool,
}

/// ESC inside the browser view requests quit and is consumed so the page
/// never sees it; every other key goes through (typing must work).
pub fn pre_key_event(windows_key_code: Option<i32>) -> (r: KeyDecision)
    ensures
        windows_key_code == Some(VK_ESCAPE) ==> r == (KeyDecision { quit: true, consume: true }),
        windows_key_code != Some(VK_ESCAPE) ==> r == (KeyDecision { quit: false, consume: false }),
{
    match windows_key_code {
        Some(code) => if code == VK_ESCAPE {
            KeyDecision { quit: true, consume: true }
        } else {
            KeyDecision { quit: false, consume: false }
        },
        None => KeyDecision { quit: false, consume: false },
    }
}

/// The CEF sub-process rule: a non-negative code from running the
/// sub-process logic means this process was a CEF sub-process that has
/// finished, and it exits with that code; a negative one means the browser
/// process goes on.
pub fn subprocess_exit_code(code: i32) -> (r: Option<i32>)
    ensures
        code >= 0 ==> r == Some(code),
        code < 0 ==> r is None,
{
    if code >= 0 {
        Some(code)
    } else {
        None
    }
}

} // verus!
