//! Platform services: desktop notifications, process ancestry and port
//! scanning, with the parsing of what the operating system reports about
//! processes (`/proc/<pid>/status`, `/proc/<pid>/task/<pid>/children` on
//! Linux, the output of `ps` on macOS).
use vstd::prelude::*;

use crate::policy::{line_ranges, lines};
use crate::text::{
    chars_eq_str, chars_of, parse_u32, parse_u32_spec, push_char, push_str, split_words, string_from_range,
    string_views, trim, trim_str, words,
};

verus! {

/// Urgency level for desktop notifications.
#[derive(Debug, Clone, Copy, PartialEq, Eq, Structural)]
pub enum NotifyUrgency {
    Low,
    Normal,
    Critical,
}

/// Platform-specific desktop notification sender.
pub trait DesktopNotifier {
    /// Shows a notification; the error is the platform's description.
    fn send_notification(&self, title: &str, body: &str, urgency: NotifyUrgency) -> Result<(), String>;
}

/// Platform-specific process ancestry checking.
pub trait ProcessAncestryChecker {
    /// Check if `child_pid` is a descendant of `ancestor_pid`.
    fn is_descendant(&self, child_pid: u32, ancestor_pid: u32) -> bool;

    /// Get child PIDs of a process (direct children).
    fn child_pids(&self, pid: u32) -> Vec<u32>;
}

/// Platform-specific port scanner.
pub trait PortScanner {
    /// Scan for listening TCP ports, optionally filtered by PIDs.
    fn scan_listening_ports(&self, pids: &[u32]) -> Vec<u16>;
}

/// Linux desktop notifications (through the desktop's notification service).
pub struct LinuxNotifier;

/// Linux process ancestry, read from `/proc`.
pub struct LinuxProcessChecker;

/// Linux listening-port scanning.
pub struct LinuxPortScanner;

/// macOS desktop notifications (through `osascript`).
pub struct MacosNotifier;

/// macOS process ancestry, read from `ps`.
pub struct MacosProcessChecker;

/// macOS listening-port scanning.
pub struct MacosPortScanner;

// ---------------------------------------------------------------------------
// /proc on Linux
// ---------------------------------------------------------------------------

/// The index of the first line that starts with `prefix`.
pub open spec fn first_line_with(ls: Seq<Seq<char>>, prefix: Seq<char>) -> Option<int>
    decreases ls.len(),
{
    if ls.len() == 0 {
        None
    } else if crate::text::starts_with(ls[0], prefix) {
        Some(0)
    } else {
        match first_line_with(ls.drop_first(), prefix) {
            Some(i) => Some(i + 1),
            None => None,
        }
    }
}

/// The parent pid that `/proc/<pid>/status` reports: the first line that
/// starts with `PPid:` and a tab, its rest trimmed and read as a number.
pub open spec fn status_ppid(status: Seq<char>) -> Option<u32> {
    match first_line_with(lines(status), "PPid:\t"@) {
        Some(i) => parse_u32_spec(trim(lines(status)[i].skip(6))),
        None => None,
    }
}

/// Where `first_line_with` stops, the line has the prefix and none before
/// it has.
proof fn lemma_first_line_with(ls: Seq<Seq<char>>, prefix: Seq<char>)
    ensures
        match first_line_with(ls, prefix) {
            Some(i) => 0 <= i < ls.len() && crate::text::starts_with(ls[i], prefix) && forall|j: int|
                0 <= j < i ==> !crate::text::starts_with(#[trigger] ls[j], prefix),
            None => forall|j: int| 0 <= j < ls.len() ==> !crate::text::starts_with(#[trigger] ls[j], prefix),
        },
    decreases ls.len(),
{
    if ls.len() > 0 && !crate::text::starts_with(ls[0], prefix) {
        lemma_first_line_with(ls.drop_first(), prefix);
        assert forall|j: int| 1 <= j < ls.len() implies ls[j] == ls.drop_first()[j - 1] by {}
    }
}

/// The parent pid in the text of `/proc/<pid>/status`.
pub fn ppid_from_status(status: &str) -> (r: Option<u32>)
    ensures
        r == status_ppid(status@),
{
    let v = chars_of(status);
    let ranges = line_ranges(&v);
    let ghost ls = lines(v@);
    proof {
        lemma_first_line_with(ls, "PPid:\t"@);
        reveal_strlit("PPid:\t");
    }
    let mut k: usize = 0;
    while k < ranges.len()
        invariant
            0 <= k <= ranges@.len(),
            ranges@.len() == ls.len(),
            ls == lines(v@),
            v@ == status@,
            forall|j: int| 0 <= j < ranges@.len() ==> (#[trigger] ranges@[j]).0 <= ranges@[j].1 <= v@.len()
                && v@.subrange(ranges@[j].0 as int, ranges@[j].1 as int) == ls[j],
            forall|j: int| 0 <= j < k ==> !crate::text::starts_with(#[trigger] ls[j], "PPid:\t"@),
            "PPid:\t"@ == seq!['P', 'P', 'i', 'd', ':', '\t'],
        decreases ranges.len() - k,
    {
        let (a, b) = ranges[k];
        let ghost line = ls[k as int];
        assert(line == v@.subrange(a as int, b as int));
        if b - a >= 6 && v[a] == 'P' && v[a + 1] == 'P' && v[a + 2] == 'i' && v[a + 3] == 'd' && v[a + 4]
            == ':' && v[a + 5] == '\t' {
            assert(line.take(6) =~= "PPid:\t"@);
            proof {
                lemma_first_line_with(ls, "PPid:\t"@);
            }
            let rest = string_from_range(&v, a + 6, b);
            assert(rest@ =~= line.skip(6));
            let t = trim_str(rest.as_str());
            let tv = chars_of(t.as_str());
            return parse_u32(&tv);
        }
        assert(!crate::text::starts_with(line, "PPid:\t"@)) by {
            if line.len() >= 6 {
                if line.take(6) == "PPid:\t"@ {
                    assert(line.take(6)[0] == line[0]);
                    assert(line.take(6)[5] == line[5]);
                    assert(line[0] == v@[a as int]);
                    assert(line[1] == v@[a + 1]);
                    assert(line[2] == v@[a + 2]);
                    assert(line[3] == v@[a + 3]);
                    assert(line[4] == v@[a + 4]);
                    assert(line[5] == v@[a + 5]);
                    assert(line.take(6)[1] == line[1]);
                    assert(line.take(6)[2] == line[2]);
                    assert(line.take(6)[3] == line[3]);
                    assert(line.take(6)[4] == line[4]);
                }
            }
        }
        k = k + 1;
    }
    None
}

/// The numbers among a list of words, in order; words that are not a
/// number are skipped.
pub open spec fn numbers_in(ws: Seq<Seq<char>>) -> Seq<u32>
    decreases ws.len(),
{
    if ws.len() == 0 {
        Seq::empty()
    } else {
        numbers_in(ws.drop_last()) + match parse_u32_spec(ws.last()) {
            Some(n) => seq![n],
            None => Seq::empty(),
        }
    }
}

/// The pids listed, whitespace-separated, in `/proc/<pid>/task/<pid>/children`;
/// anything that is not a pid is skipped.
pub fn pid_list(content: &str) -> (r: Vec<u32>)
    ensures
        r@ == numbers_in(words(content@)),
{
    let ws = split_words(content);
    let mut out: Vec<u32> = Vec::new();
    let mut i: usize = 0;
    while i < ws.len()
        invariant
            0 <= i <= ws@.len(),
            string_views(ws@) == words(content@),
            out@ == numbers_in(string_views(ws@).take(i as int)),
        decreases ws.len() - i,
    {
        let wv = chars_of(ws[i].as_str());
        assert(string_views(ws@).take(i + 1).drop_last() =~= string_views(ws@).take(i as int));
        assert(string_views(ws@).take(i + 1).last() == ws@[i as int]@);
        match parse_u32(&wv) {
            Some(n) => out.push(n),
            None => {},
        }
        i = i + 1;
    }
    assert(string_views(ws@).take(ws@.len() as int) =~= string_views(ws@));
    out
}

// ---------------------------------------------------------------------------
// ps on macOS
// ---------------------------------------------------------------------------

/// The parent pid in the output of `ps -o ppid= -p <pid>`: the trimmed text
/// read as a number.
pub fn ppid_from_ps(output: &str) -> (r: Option<u32>)
    ensures
        r == parse_u32_spec(trim(output@)),
{
    let t = trim_str(output);
    let v = chars_of(t.as_str());
    parse_u32(&v)
}

/// The pid of one line of `ps -ax -o pid=,ppid=` when its parent is
/// `parent`: the line's first two words, both numbers.
pub open spec fn ps_child(line: Seq<char>, parent: u32) -> Option<u32> {
    let ws = words(line);
    if ws.len() < 2 {
        None
    } else {
        match (parse_u32_spec(ws[0]), parse_u32_spec(ws[1])) {
            (Some(pid), Some(ppid)) => if ppid == parent {
                Some(pid)
            } else {
                None
            },
            _ => None,
        }
    }
}

/// The children that lines of `ps` output list, in order.
pub open spec fn ps_children(ls: Seq<Seq<char>>, parent: u32) -> Seq<u32>
    decreases ls.len(),
{
    if ls.len() == 0 {
        Seq::empty()
    } else {
        ps_children(ls.drop_last(), parent) + match ps_child(ls.last(), parent) {
            Some(p) => seq![p],
            None => Seq::empty(),
        }
    }
}

/// The children of `parent` in the output of `ps -ax -o pid=,ppid=`.
pub fn children_from_ps(output: &str, parent: u32) -> (r: Vec<u32>)
    ensures
        r@ == ps_children(lines(output@), parent),
{
    let v = chars_of(output);
    let ranges = line_ranges(&v);
    let ghost ls = lines(v@);
    let mut out: Vec<u32> = Vec::new();
    let mut k: usize = 0;
    while k < ranges.len()
        invariant
            0 <= k <= ranges@.len(),
            ranges@.len() == ls.len(),
            ls == lines(v@),
            v@ == output@,
            forall|j: int| 0 <= j < ranges@.len() ==> (#[trigger] ranges@[j]).0 <= ranges@[j].1 <= v@.len()
                && v@.subrange(ranges@[j].0 as int, ranges@[j].1 as int) == ls[j],
            out@ == ps_children(ls.take(k as int), parent),
        decreases ranges.len() - k,
    {
        let (a, b) = ranges[k];
        let line = string_from_range(&v, a, b);
        assert(line@ == ls[k as int]);
        assert(ls.take(k + 1).drop_last() =~= ls.take(k as int));
        assert(ls.take(k + 1).last() == ls[k as int]);
        let ws = split_words(line.as_str());
        if ws.len() >= 2 {
            let w0 = chars_of(ws[0].as_str());
            let w1 = chars_of(ws[1].as_str());
            assert(string_views(ws@)[0] == ws@[0]@);
            assert(string_views(ws@)[1] == ws@[1]@);
            match (parse_u32(&w0), parse_u32(&w1)) {
                (Some(pid), Some(ppid)) => {
                    if ppid == parent {
                        out.push(pid);
                    }
                },
                _ => {},
            }
        }
        k = k + 1;
    }
    assert(ls.take(ls.len() as int) =~= ls);
    out
}

// ---------------------------------------------------------------------------
// Notifications on macOS
// ---------------------------------------------------------------------------

/// Text made safe inside an AppleScript string literal: each backslash is
/// doubled, then each double quote is escaped.
pub open spec fn applescript_escape(s: Seq<char>) -> Seq<char>
    decreases s.len(),
{
    if s.len() == 0 {
        Seq::empty()
    } else {
        applescript_escape(s.drop_last()) + if s.last() == '\\' {
            seq!['\\', '\\']
        } else if s.last() == '"' {
            seq!['\\', '"']
        } else {
            seq![s.last()]
        }
    }
}

/// Appends `s`, made safe inside an AppleScript string literal, to `out`.
fn push_applescript_escaped(out: &mut String, s: &str)
    ensures
        final(out)@ == old(out)@ + applescript_escape(s@),
{
    let v = chars_of(s);
    let ghost start = out@;
    let mut i: usize = 0;
    while i < v.len()
        invariant
            0 <= i <= v@.len(),
            v@ == s@,
            out@ == start + applescript_escape(v@.take(i as int)),
        decreases v.len() - i,
    {
        let c = v[i];
        if c == '\\' {
            push_char(out, '\\');
            push_char(out, '\\');
        } else if c == '"' {
            push_char(out, '\\');
            push_char(out, '"');
        } else {
            push_char(out, c);
        }
        assert(v@.take(i + 1).drop_last() =~= v@.take(i as int));
        i = i + 1;
        assert(out@ =~= start + applescript_escape(v@.take(i as int)));
    }
    assert(v@.take(v@.len() as int) =~= v@);
}

/// The AppleScript that shows a notification with `title` and `body`.
pub open spec fn notification_script_spec(title: Seq<char>, body: Seq<char>) -> Seq<char> {
    "display notification \""@ + applescript_escape(body) + "\" with title \""@ + applescript_escape(title)
        + "\""@
}

/// The AppleScript that `osascript` runs to show a notification.
pub fn notification_script(title: &str, body: &str) -> (r: String)
    ensures
        r@ == notification_script_spec(title@, body@),
{
    let mut r = String::new();
    push_str(&mut r, "display notification \"");
    push_applescript_escaped(&mut r, body);
    push_str(&mut r, "\" with title \"");
    push_applescript_escaped(&mut r, title);
    push_str(&mut r, "\"");
    r
}

/// In an escaped text every double quote directly follows a backslash.
pub proof fn lemma_applescript_escape_quotes(s: Seq<char>)
    ensures
        forall|i: int| 0 <= i < applescript_escape(s).len() && #[trigger] applescript_escape(s)[i] == '"' ==> i > 0
            && applescript_escape(s)[i - 1] == '\\',
    decreases s.len(),
{
    if s.len() > 0 {
        lemma_applescript_escape_quotes(s.drop_last());
        let p = applescript_escape(s.drop_last());
        let t = if s.last() == '\\' {
            seq!['\\', '\\']
        } else if s.last() == '"' {
            seq!['\\', '"']
        } else {
            seq![s.last()]
        };
        assert(applescript_escape(s) == p + t);
        assert forall|i: int| 0 <= i < applescript_escape(s).len() && #[trigger] applescript_escape(s)[i] == '"'
            implies i > 0 && applescript_escape(s)[i - 1] == '\\' by {
            if i < p.len() {
                assert(applescript_escape(s)[i] == p[i]);
                assert(applescript_escape(s)[i - 1] == p[i - 1]);
            } else {
                assert(applescript_escape(s)[i] == t[i - p.len()]);
            }
        }
    }
}

} // verus!
