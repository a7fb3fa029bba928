//! Where the rolling daily log file lives: `%LOCALAPPDATA%\CyberDesk\logs\`
//! (else `%APPDATA%`, else the working directory), with the appender's date
//! suffix shown as `cyberdesk.log*`.

use vstd::prelude::*;
use crate::json::opt_string_view;

verus! {

/// Is `c` a Windows path separator?
pub open spec fn is_sep(c: char) -> bool {
    c == '\\' || c == '/'
}

/// A bare drive prefix such as `C:`.
pub open spec fn is_drive(p: Seq<char>) -> bool {
    p.len() == 2 && p[1] == ':' && (('a' <= p[0] <= 'z') || ('A' <= p[0] <= 'Z'))
}

/// `PathBuf::push` of a relative single component on Windows: a separator
/// is inserted unless the path is empty, already ends in one, or is a bare
/// drive.
pub open spec fn win_join(base: Seq<char>, seg: Seq<char>) -> Seq<char> {
    if base.len() == 0 || is_sep(base.last()) || is_drive(base) {
        base + seg
    } else {
        base + seq!['\\'] + seg
    }
}

/// The logs directory base: `LOCALAPPDATA`, else `APPDATA`, else `.`.
pub open spec fn log_base(local: Option<Seq<char>>, roaming: Option<Seq<char>>) -> Seq<char> {
    match local {
        Some(l) => l,
        None => match roaming {
            Some(r) => r,
            None => "."@,
        },
    }
}

pub open spec fn log_location_text(local: Option<Seq<char>>, roaming: Option<Seq<char>>) -> Seq<char> {
    win_join(
        win_join(win_join(log_base(local, roaming), "CyberDesk"@), "logs"@),
        "cyberdesk.log*"@,
    )
}

fn join_into(base: String, seg: &str) -> (r: String)
    ensures
        r@ == win_join(base@, seg@),
{
    let cs = crate::text::chars_of(base.as_str());
    let n = cs.len();
    let drive = n == 2 && cs[1] == ':' && (('a' <= cs[0] && cs[0] <= 'z') || ('A' <= cs[0]
        && cs[0] <= 'Z'));
    let mut out = base;
    if !(n == 0 || cs[n - 1] == '\\' || cs[n - 1] == '/' || drive) {
        out.push('\\');
    }
    out.append(seg);
    out
}

/// The human-facing log location, from the `LOCALAPPDATA` and `APPDATA`
/// environment values (absent when unset or not Unicode).
pub fn log_location(local_app_data: Option<String>, app_data: Option<String>) -> (r: String)
    ensures
        r@ == log_location_text(opt_string_view(local_app_data), opt_string_view(app_data)),
{
    let base = match local_app_data {
        Some(l) => l,
        None => match app_data {
            Some(a) => a,
            None => ".".to_string(),
        },
    };
    let d = join_into(base, "CyberDesk");
    let d = join_into(d, "logs");
    join_into(d, "cyberdesk.log*")
}

} // verus!
