use cyberdesk::logging::log_location;
use cyberdesk::memory::{
    is_favorite, query_suggestions, record_visit, toggle_favorite, update_title, HistoryCommand,
};
use cyberdesk::shell::{
    parse_args, pre_key_event, shell_step, subprocess_exit_code, window_mode, CliCommand,
    KeyDecision, ShellAction, ShellEvent, ShellState, WindowMode, VK_ESCAPE,
};

fn args(a: &[&str]) -> Vec<String> {
    a.iter().map(|s| s.to_string()).collect()
}

#[test]
fn command_line_forms() {
    assert_eq!(parse_args(&args(&[])), CliCommand::Run { windowed: false });
    assert_eq!(parse_args(&args(&["--windowed"])), CliCommand::Run { windowed: true });
    assert_eq!(
        parse_args(&args(&["--capture", "ring.png"])),
        CliCommand::Capture { path: "ring.png".to_string() }
    );
    assert_eq!(
        parse_args(&args(&["--capture", "a.png", "--windowed", "--capture", "b.png"])),
        CliCommand::Capture { path: "b.png".to_string() }
    );
    assert_eq!(parse_args(&args(&["--capture"])), CliCommand::MissingCapturePath);
    assert_eq!(parse_args(&args(&["-h", "--bogus"])), CliCommand::Help);
    assert_eq!(
        parse_args(&args(&["--bogus", "--help"])),
        CliCommand::UnknownArgument("--bogus".to_string())
    );
}

#[test]
fn shell_creates_its_window_once_and_quits_on_escape() {
    let st = ShellState { windowed: true, has_window: false };
    assert_eq!(shell_step(st, ShellEvent::AboutToWait).1, ShellAction::Nothing);
    let (st, a) = shell_step(st, ShellEvent::Resumed);
    assert_eq!(a, ShellAction::CreateWindow(WindowMode::Windowed { width: 1600, height: 900 }));
    assert!(st.has_window);
    assert_eq!(shell_step(st, ShellEvent::Resumed).1, ShellAction::Nothing);
    assert_eq!(shell_step(st, ShellEvent::Key { pressed: true, escape: true }).1, ShellAction::Exit);
    assert_eq!(shell_step(st, ShellEvent::Key { pressed: false, escape: true }).1, ShellAction::Nothing);
    assert_eq!(shell_step(st, ShellEvent::CloseRequested).1, ShellAction::Exit);
    assert_eq!(
        shell_step(st, ShellEvent::Resized { width: 800, height: 600 }).1,
        ShellAction::Resize { width: 800, height: 600 }
    );
    assert_eq!(shell_step(st, ShellEvent::RedrawRequested).1, ShellAction::Render);
    assert_eq!(shell_step(st, ShellEvent::AboutToWait).1, ShellAction::RequestRedraw);
    assert_eq!(window_mode(false), WindowMode::BorderlessFullscreen);
}

#[test]
fn browser_key_and_subprocess_rules() {
    assert_eq!(pre_key_event(Some(VK_ESCAPE)), KeyDecision { quit: true, consume: true });
    assert_eq!(pre_key_event(Some(0x41)), KeyDecision { quit: false, consume: false });
    assert_eq!(pre_key_event(None), KeyDecision { quit: false, consume: false });
    assert_eq!(subprocess_exit_code(0), Some(0));
    assert_eq!(subprocess_exit_code(-1), None);
}

#[test]
fn internal_and_blank_pages_never_reach_the_store() {
    for url in ["", "about:blank", "cyberdesk://settings/", "cyberdesk://command/"] {
        assert_eq!(record_visit(url, "t"), None);
        assert_eq!(update_title(url, "t"), None);
        assert_eq!(is_favorite(url), None);
        assert_eq!(toggle_favorite(url, "t"), None);
    }
    assert_eq!(
        record_visit("https://example.org/", "Example"),
        Some(HistoryCommand::RecordVisit {
            url: "https://example.org/".to_string(),
            title: "Example".to_string()
        })
    );
    assert_eq!(update_title("https://example.org/", ""), None);
    assert_eq!(
        is_favorite("cyberdesk:x"),
        Some(HistoryCommand::IsFavorite { url: "cyberdesk:x".to_string() })
    );
    assert_eq!(
        query_suggestions("", 8),
        HistoryCommand::QuerySuggestions { input: String::new(), limit: 8 }
    );
}

#[test]
fn log_location_under_the_app_data_dir() {
    assert_eq!(
        log_location(Some("C:\\Users\\a\\AppData\\Local".to_string()), Some("R".to_string())),
        "C:\\Users\\a\\AppData\\Local\\CyberDesk\\logs\\cyberdesk.log*"
    );
    assert_eq!(log_location(None, Some("R\\".to_string())), "R\\CyberDesk\\logs\\cyberdesk.log*");
    assert_eq!(log_location(None, None), ".\\CyberDesk\\logs\\cyberdesk.log*");
    assert_eq!(log_location(Some("D:".to_string()), None), "D:CyberDesk\\logs\\cyberdesk.log*");
}
