//! Reading the system's process list: which profiles run, under which pid.
use vstd::prelude::*;

use crate::command::{CommandSpec, CommandView};
use crate::paths::{
    char_is_separator, is_separator, is_valid_profile_id, profile_id_is_valid, separator,
    separator_char, Platform,
};
use crate::running::{lists_keys_once, RunningProfiles};
use crate::text::{
    chars_contain, chars_range, contains_text, find_chars, find_from, first_token,
    first_token_chars, parse_u32, parse_u32_chars, str_chars, string_from_chars,
};

verus! {

// ---------------------------------------------------------------------------
// Lines, as `str::lines` splits them
// ---------------------------------------------------------------------------

/// The index of the first `'\n'` at or after `i`, or the length of `t`.
pub open spec fn next_newline(t: Seq<char>, i: int) -> int
    decreases t.len() - i,
{
    if i < 0 || i >= t.len() {
        t.len() as int
    } else if t[i] == '\n' {
        i
    } else {
        next_newline(t, i + 1)
    }
}

/// The line that starts at `i`: up to the next `'\n'`, without the `'\r'`
/// of a `"\r\n"` ending.
pub open spec fn line_at(t: Seq<char>, i: int) -> Seq<char> {
    let k = next_newline(t, i);
    if k < t.len() && i < k && t[k - 1] == '\r' {
        t.subrange(i, k - 1)
    } else {
        t.subrange(i, k)
    }
}

/// The lines of `t` from index `i` on.
pub open spec fn lines_from(t: Seq<char>, i: int) -> Seq<Seq<char>>
    decreases t.len() + 1 - i,
{
    let k = next_newline(t, i);
    if i < 0 || i >= t.len() || k < i || k > t.len() {
        Seq::empty()
    } else {
        seq![line_at(t, i)] + lines_from(t, k + 1)
    }
}

/// The lines of `t`, as `str::lines` gives them.
pub open spec fn text_lines(t: Seq<char>) -> Seq<Seq<char>> {
    lines_from(t, 0)
}

// ---------------------------------------------------------------------------
// One line of the process list
// ---------------------------------------------------------------------------

/// The path text that precedes a profile id in the command line of a
/// profile's process: `.codex_manager/profiles/`, written with the
/// platform's separator.
pub open spec fn profile_marker(p: Platform) -> Seq<char> {
    if p == Platform::Windows {
        ".codex_manager\\profiles\\"@
    } else {
        ".codex_manager/profiles/"@
    }
}

/// The text names the desktop app: it holds `Codex`, `codex` or `ChatGPT`.
pub open spec fn names_codex_app(s: Seq<char>) -> bool {
    contains_text(s, "Codex"@) || contains_text(s, "codex"@) || contains_text(s, "ChatGPT"@)
}

/// The index of the first path separator at or after `i`.
pub open spec fn id_end(p: Platform, s: Seq<char>, i: int) -> int
    decreases s.len() - i,
{
    if 0 <= i < s.len() && !is_separator(p, s[i]) {
        id_end(p, s, i + 1)
    } else {
        i
    }
}

/// The `(profile id, pid)` that a line of the process list reports. The
/// line starts with the pid; the text before the first occurrence of the
/// profile marker names the desktop app, as the program path of the app and
/// of its helpers does; and right after the marker comes a valid profile
/// id, ended by the platform's separator, as in the profile's data path.
pub open spec fn line_entry(p: Platform, line: Seq<char>) -> Option<(Seq<char>, u32)> {
    match first_token(line) {
        None => None,
        Some(tok) => match parse_u32(tok) {
            None => None,
            Some(pid) => match find_from(line, profile_marker(p), 0) {
                None => None,
                Some(pos) => {
                    let start = pos + profile_marker(p).len();
                    let end = id_end(p, line, start);
                    let id = line.subrange(start, end);
                    if names_codex_app(line.subrange(0, pos)) && end < line.len() && line[end]
                        == separator(p) && is_valid_profile_id(p, id) {
                        Some((id, pid))
                    } else {
                        None
                    }
                },
            },
        },
    }
}

/// `acc` with the entries of `lines` recorded in order, a later line for
/// the same id replacing an earlier one.
pub open spec fn record_lines(p: Platform, acc: Map<Seq<char>, u32>, lines: Seq<Seq<char>>) -> Map<
    Seq<char>,
    u32,
>
    decreases lines.len(),
{
    if lines.len() == 0 {
        acc
    } else {
        let next = match line_entry(p, lines[0]) {
            Some(e) => acc.insert(e.0, e.1),
            None => acc,
        };
        record_lines(p, next, lines.drop_first())
    }
}

/// The running profiles that a process listing reports.
pub open spec fn running_from_text(p: Platform, text: Seq<char>) -> Map<Seq<char>, u32> {
    record_lines(p, Map::empty(), text_lines(text))
}

/// What one line of the process list reports.
pub fn parse_process_line(p: Platform, line: &Vec<char>) -> (r: Option<(String, u32)>)
    ensures
        match r {
            Some(e) => line_entry(p, line@) == Some((e.0@, e.1)),
            None => line_entry(p, line@) is None,
        },
{
    let marker = if p == Platform::Windows {
        str_chars(".codex_manager\\profiles\\")
    } else {
        str_chars(".codex_manager/profiles/")
    };
    let tok = match first_token_chars(line) {
        Some(t) => t,
        None => {
            return None;
        },
    };
    let pid = match parse_u32_chars(&tok) {
        Some(v) => v,
        None => {
            return None;
        },
    };
    let pos = match find_chars(line, &marker) {
        Some(k) => k,
        None => {
            return None;
        },
    };
    proof {
        crate::text::lemma_find_from(line@, marker@, 0);
        assert(crate::text::occurs_at(line@, marker@, pos as int));
        assert(pos + marker@.len() <= line@.len());
    }
    let prefix = chars_range(line, 0, pos);
    if !(chars_contain(&prefix, &str_chars("Codex")) || chars_contain(&prefix, &str_chars("codex"))
        || chars_contain(&prefix, &str_chars("ChatGPT"))) {
        return None;
    }
    let line_len = line.len();
    let marker_len = marker.len();
    assert(pos + marker_len <= line_len);
    let start = pos + marker_len;
    let mut end = start;
    while end < line.len() && !char_is_separator(p, line[end])
        invariant
            start <= end <= line.len(),
            id_end(p, line@, start as int) == id_end(p, line@, end as int),
        decreases line.len() - end,
    {
        end = end + 1;
    }
    if end >= line.len() || line[end] != separator_char(p) {
        return None;
    }
    let id = string_from_chars(line, start, end);
    if !profile_id_is_valid(p, id.as_str()) {
        return None;
    }
    Some((id, pid))
}

/// The running profiles that a process listing reports (the listing's text
/// split into lines, each line read by `parse_process_line`).
pub fn running_profiles_from_text(p: Platform, text: &str) -> (r: RunningProfiles)
    ensures
        r@ == running_from_text(p, text@),
        lists_keys_once(r.ids(), r@),
{
    let t = str_chars(text);
    let mut r = RunningProfiles::new();
    let mut pos: usize = 0;
    while pos < t.len()
        invariant
            t@ == text@,
            pos <= t.len(),
            record_lines(p, r@, lines_from(t@, pos as int)) == running_from_text(p, text@),
            lists_keys_once(r.ids(), r@),
        decreases t.len() - pos,
    {
        let mut k = pos;
        while k < t.len() && t[k] != '\n'
            invariant
                pos <= k <= t.len(),
                next_newline(t@, pos as int) == next_newline(t@, k as int),
            decreases t.len() - k,
        {
            k = k + 1;
        }
        let end = if k < t.len() && pos < k && t[k - 1] == '\r' {
            k - 1
        } else {
            k
        };
        let line = chars_range(&t, pos, end);
        proof {
            let ls = lines_from(t@, pos as int);
            assert(line@ == line_at(t@, pos as int));
            assert(ls[0] == line@);
            assert(ls.drop_first() =~= lines_from(t@, k + 1));
        }
        match parse_process_line(p, &line) {
            Some(e) => {
                r.insert(e.0, e.1);
            },
            None => {},
        }
        if k >= t.len() {
            pos = t.len();
        } else {
            pos = k + 1;
        }
    }
    r
}

/// The text that `String::from_utf8_lossy` makes of `bytes`.
pub uninterp spec fn lossy_text(bytes: Seq<u8>) -> Seq<char>;

/// `String::from_utf8_lossy`. The contract claims that the result is a
/// function of the bytes alone, and, as the function's documentation says,
/// that valid UTF-8 is decoded as it stands. What replaces invalid sequences
/// is left unsaid.
#[verifier::external_body]
pub(crate) fn decode_utf8_lossy(bytes: &[u8]) -> (r: String)
    ensures
        r@ == lossy_text(bytes@),
        vstd::utf8::valid_utf8(bytes@) ==> r@ == vstd::utf8::decode_utf8(bytes@),
{
    String::from_utf8_lossy(bytes).into_owned()
}

/// The running profiles that the raw output of the process listing reports,
/// or none when the listing could not be taken.
pub fn running_profiles_from_output(p: Platform, output: Option<Vec<u8>>) -> (r: RunningProfiles)
    ensures
        lists_keys_once(r.ids(), r@),
        match output {
            None => r@ == Map::<Seq<char>, u32>::empty(),
            Some(bytes) => {
                &&& r@ == running_from_text(p, lossy_text(bytes@))
                &&& vstd::utf8::valid_utf8(bytes@) ==> r@ == running_from_text(
                    p,
                    vstd::utf8::decode_utf8(bytes@),
                )
            },
        },
{
    match output {
        None => RunningProfiles::new(),
        Some(bytes) => {
            let text = decode_utf8_lossy(bytes.as_slice());
            running_profiles_from_text(p, text.as_str())
        },
    }
}

/// The program and arguments that list the processes with their full
/// command lines.
pub open spec fn process_list_spec(p: Platform) -> CommandView {
    if p == Platform::Windows {
        CommandView {
            program: "powershell"@,
            args: seq![
                "-Command"@,
                "Get-CimInstance Win32_Process | Select-Object ProcessId, CommandLine | Format-Table -HideTableHeaders"@,
            ],
            envs: Seq::empty(),
        }
    } else {
        CommandView {
            program: "/bin/ps"@,
            args: seq!["-ax"@, "-o"@, "pid,command"@],
            envs: Seq::empty(),
        }
    }
}

/// The command that lists the processes with their full command lines.
pub fn process_list_command(p: Platform) -> (r: CommandSpec)
    ensures
        r@ == process_list_spec(p),
{
    if p == Platform::Windows {
        let mut c = CommandSpec::new("powershell");
        c.arg_str("-Command");
        c.arg_str(
            "Get-CimInstance Win32_Process | Select-Object ProcessId, CommandLine | Format-Table -HideTableHeaders",
        );
        assert(c@ =~= process_list_spec(p));
        c
    } else {
        let mut c = CommandSpec::new("/bin/ps");
        c.arg_str("-ax");
        c.arg_str("-o");
        c.arg_str("pid,command");
        assert(c@ =~= process_list_spec(p));
        c
    }
}

} // verus!
