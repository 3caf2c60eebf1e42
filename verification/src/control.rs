use crate::text::{chars_of, decimal, parse_trimmed_u64_range, parse_u64, to_decimal, trim};
use vstd::prelude::*;

verus! {

/// The command-line arguments with which the daemon process is started.
pub open spec fn daemon_arg_list(shell: Seq<char>, scrollback: nat, cols: nat, rows: nat) -> Seq<
    Seq<char>,
> {
    seq![
        "--daemon-mode"@,
        "--shell"@,
        shell,
        "--scrollback"@,
        decimal(scrollback),
        "--cols"@,
        decimal(cols),
        "--rows"@,
        decimal(rows),
    ]
}

/// The daemon is started in daemon mode with the shell as given, and each
/// number is passed as text that reads back as that same number: the
/// scrollback setting, the columns and the rows, for every value.
pub proof fn lemma_daemon_args_carry_settings(shell: Seq<char>, scrollback: usize, cols: u16, rows: u16)
    ensures
        ({
            let args = daemon_arg_list(shell, scrollback as nat, cols as nat, rows as nat);
            &&& args.len() == 9
            &&& args[0] == "--daemon-mode"@
            &&& args[1] == "--shell"@ && args[2] == shell
            &&& args[3] == "--scrollback"@
            &&& crate::text::parse_unsigned(args[4], usize::MAX as nat) == Ok::<nat, crate::text::IntParseError>(scrollback as nat)
            &&& args[5] == "--cols"@
            &&& crate::text::parse_unsigned(args[6], u16::MAX as nat) == Ok::<nat, crate::text::IntParseError>(cols as nat)
            &&& args[7] == "--rows"@
            &&& crate::text::parse_unsigned(args[8], u16::MAX as nat) == Ok::<nat, crate::text::IntParseError>(rows as nat)
        }),
{
    crate::text::lemma_decimal_parses(scrollback as nat, usize::MAX as nat);
    crate::text::lemma_decimal_parses(cols as nat, u16::MAX as nat);
    crate::text::lemma_decimal_parses(rows as nat, u16::MAX as nat);
}

/// Arguments for starting the daemon in the background with the given shell,
/// scrollback setting and terminal size.
pub fn daemon_args(shell: &str, scrollback: usize, cols: u16, rows: u16) -> (args: Vec<String>)
    ensures
        args@.len() == 9,
        forall|k: int|
            0 <= k < 9 ==> #[trigger] args@[k]@ == daemon_arg_list(
                shell@,
                scrollback as nat,
                cols as nat,
                rows as nat,
            )[k],
{
    let mut args: Vec<String> = Vec::new();
    args.push(String::from_str("--daemon-mode"));
    args.push(String::from_str("--shell"));
    args.push(String::from_str(shell));
    args.push(String::from_str("--scrollback"));
    args.push(to_decimal(scrollback as u64));
    args.push(String::from_str("--cols"));
    args.push(to_decimal(cols as u64));
    args.push(String::from_str("--rows"));
    args.push(to_decimal(rows as u64));
    args
}

/// The text of the session file the daemon writes when it starts: its
/// start time in seconds since the Unix epoch, a line feed, then the shell
/// command.
pub open spec fn info_text(started: u64, shell: Seq<char>) -> Seq<char> {
    decimal(started as nat) + "\n"@ + shell
}

/// The text of the session file for a daemon started at `started` running
/// `shell`.
pub fn session_info_text(started: u64, shell: &str) -> (text: String)
    ensures
        text@ == info_text(started, shell@),
{
    to_decimal(started).concat("\n").concat(shell)
}

/// The index of the first `c` in `t`, if there is one.
pub open spec fn find_char(t: Seq<char>, c: char) -> Option<nat>
    decreases t.len(),
{
    if t.len() == 0 {
        None
    } else if t[0] == c {
        Some(0)
    } else {
        match find_char(t.drop_first(), c) {
            Some(i) => Some(i + 1),
            None => None,
        }
    }
}

/// `find_char` gives the first index holding `c`, and `None` only when
/// there is none.
proof fn lemma_find_char(t: Seq<char>, c: char, i: int)
    requires
        0 <= i <= t.len(),
        forall|j: int| 0 <= j < i ==> t[j] != c,
        i < t.len() ==> t[i] == c,
    ensures
        find_char(t, c) == if i < t.len() {
            Some(i as nat)
        } else {
            None::<nat>
        },
    decreases i,
{
    if i > 0 {
        let rest = t.drop_first();
        assert forall|j: int| 0 <= j < i - 1 implies rest[j] != c by {
            assert(rest[j] == t[j + 1]);
        }
        lemma_find_char(rest, c, i - 1);
    }
}

/// The start time and shell a session file records, if it can be read: the
/// first line must be a number, and the rest is the shell command.
pub open spec fn session_info(t: Seq<char>) -> Option<(u64, Seq<char>)> {
    match find_char(t, '\n') {
        None => None,
        Some(i) => match parse_u64(trim(t.take(i as int))) {
            Ok(started) => Some((started, t.skip(i + 1 as int))),
            Err(_) => None,
        },
    }
}

/// Read a session file back.
pub fn parse_session_info(text: &str) -> (info: Option<(u64, String)>)
    ensures
        match (info, session_info(text@)) {
            (Some((started, shell)), Some((s, sh))) => started == s && shell@ == sh,
            (None, None) => true,
            _ => false,
        },
{
    let chars = chars_of(text);
    let n = chars.len();
    let mut i: usize = 0;
    while i < n && chars[i] != '\n'
        invariant
            i <= n == chars@.len(),
            chars@ == text@,
            forall|j: int| 0 <= j < i ==> chars@[j] != '\n',
        decreases n - i,
    {
        i = i + 1;
    }
    proof {
        lemma_find_char(text@, '\n', i as int);
    }
    if i == n {
        return None;
    }
    assert(chars@.subrange(0, i as int) == text@.take(i as int));
    match parse_trimmed_u64_range(&chars, 0, i) {
        Ok(started) => Some((started, String::from_str(text.substring_char(i + 1, n)))),
        Err(_) => None,
    }
}

/// What the daemon writes is read back whole, whatever the shell command.
pub proof fn lemma_session_info_roundtrip(started: u64, shell: Seq<char>)
    ensures
        session_info(info_text(started, shell)) == Some((started, shell)),
{
    let d = decimal(started as nat);
    let t = info_text(started, shell);
    crate::text::lemma_decimal_digits(started as nat);
    assert forall|j: int| 0 <= j < d.len() implies t[j] != '\n' by {
        assert(t[j] == d[j]);
        assert(crate::text::is_digit(d[j]));
    }
    reveal_strlit("\n");
    assert(t[d.len() as int] == '\n');
    lemma_find_char(t, '\n', d.len() as int);
    assert(t.take(d.len() as int) =~= d);
    assert(t.skip(d.len() + 1 as int) =~= shell);
    crate::text::lemma_decimal_roundtrip_u64(started);
}

/// Seconds the session has been up, at `now`, if it started at `started`
/// (none when the clock reads earlier than the start).
pub fn uptime(now: u64, started: u64) -> (secs: u64)
    ensures
        secs == if now >= started {
            now - started
        } else {
            0
        },
{
    if now >= started {
        now - started
    } else {
        0
    }
}

/// A duration in hours, minutes and seconds, such as `2h 5m 7s`.
pub open spec fn duration_text(secs: u64) -> Seq<char> {
    decimal((secs / 3600) as nat) + "h "@ + decimal(((secs / 60) % 60) as nat) + "m "@ + decimal(
        (secs % 60) as nat,
    ) + "s"@
}

/// Format a duration in hours, minutes and seconds.
pub fn format_duration(secs: u64) -> (text: String)
    ensures
        text@ == duration_text(secs),
{
    to_decimal(secs / 3600).concat("h ").concat(to_decimal((secs / 60) % 60).as_str()).concat(
        "m ",
    ).concat(to_decimal(secs % 60).as_str()).concat("s")
}

/// The lines `mm status` prints for the daemon found running with this
/// PID, or for none; for a running daemon whose session file was read,
/// also its uptime in seconds and its shell.
pub open spec fn status_report(pid: Option<u32>, details: Option<(u64, Seq<char>)>) -> Seq<
    Seq<char>,
> {
    match pid {
        Some(p) => {
            let head = seq!["Session: running"@, "PID:     "@ + decimal(p as nat)];
            match details {
                Some((up, shell)) => head + seq![
                    "Uptime:  "@ + duration_text(up),
                    "Shell:   "@ + shell,
                ],
                None => head,
            }
        },
        None => seq!["Session: not running"@],
    }
}

/// What `mm status` prints.
pub fn status_lines(pid: Option<u32>, details: Option<(u64, String)>) -> (lines: Vec<String>)
    ensures
        lines@.len() == status_report(
            pid,
            match details {
                Some((up, shell)) => Some((up, shell@)),
                None => None,
            },
        ).len(),
        forall|k: int|
            0 <= k < lines@.len() ==> #[trigger] lines@[k]@ == status_report(
                pid,
                match details {
                    Some((up, shell)) => Some((up, shell@)),
                    None => None,
                },
            )[k],
{
    let mut lines: Vec<String> = Vec::new();
    match pid {
        Some(p) => {
            lines.push(String::from_str("Session: running"));
            let n = to_decimal(p as u64);
            lines.push(String::from_str("PID:     ").concat(n.as_str()));
            match details {
                Some((up, shell)) => {
                    let d = format_duration(up);
                    lines.push(String::from_str("Uptime:  ").concat(d.as_str()));
                    lines.push(String::from_str("Shell:   ").concat(shell.as_str()));
                },
                None => {},
            }
        },
        None => {
            lines.push(String::from_str("Session: not running"));
        },
    }
    lines
}

/// The line `mm kill` prints after killing the daemon with this PID, or
/// when none was running.
pub open spec fn kill_message(pid: Option<u32>) -> Seq<char> {
    match pid {
        Some(p) => "Daemon (PID "@ + decimal(p as nat) + ") killed."@,
        None => "No daemon running."@,
    }
}

/// What `mm kill` prints.
pub fn kill_report(pid: Option<u32>) -> (line: String)
    ensures
        line@ == kill_message(pid),
{
    match pid {
        Some(p) => {
            let n = to_decimal(p as u64);
            String::from_str("Daemon (PID ").concat(n.as_str()).concat(") killed.")
        },
        None => String::from_str("No daemon running."),
    }
}

} // verus!
