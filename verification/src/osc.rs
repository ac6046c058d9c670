//! Parsing of OSC (Operating System Command) sequences emitted by terminals.
use vstd::prelude::*;

use crate::text::{
    chars_eq, chars_of, find_char, find_char_from, first_index_of, parse_i32, parse_i32_spec,
    starts_with, starts_with_exec, string_from_chars, string_from_range,
};

verus! {

/// Parsed OSC (Operating System Command) sequence.
#[derive(Debug, Clone, PartialEq)]
pub enum OscEvent {
    /// OSC 0: Set window title.
    SetTitle(String),
    /// OSC 7: Set current working directory.
    SetCwd(String),
    /// OSC 9: iTerm2-style notification.
    Notification { body: String },
    /// OSC 99: Kitty notification protocol.
    KittyNotification { payload: String },
    /// OSC 777: rxvt-unicode notification.
    RxvtNotification { title: String, body: String },
    /// OSC 133: Shell integration mark.
    ShellIntegration(ShellMark),
    /// Unrecognized OSC.
    Unknown { number: u32, payload: String },
}

/// Shell integration marks (OSC 133).
#[derive(Debug, Clone, PartialEq)]
pub enum ShellMark {
    /// Prompt start (A)
    PromptStart,
    /// Command start (B)
    CommandStart,
    /// Command executed (C)
    CommandExecuted,
    /// Command finished (D) with optional exit code
    CommandFinished(Option<i32>),
}

/// The mathematical value of an `OscEvent`: its strings as character sequences.
pub enum OscModel {
    SetTitle(Seq<char>),
    SetCwd(Seq<char>),
    Notification(Seq<char>),
    KittyNotification(Seq<char>),
    RxvtNotification(Seq<char>, Seq<char>),
    ShellIntegration(ShellMark),
    Unknown(u32, Seq<char>),
}

impl View for OscEvent {
    type V = OscModel;

    open spec fn view(&self) -> OscModel {
        match self {
            OscEvent::SetTitle(t) => OscModel::SetTitle(t@),
            OscEvent::SetCwd(c) => OscModel::SetCwd(c@),
            OscEvent::Notification { body } => OscModel::Notification(body@),
            OscEvent::KittyNotification { payload } => OscModel::KittyNotification(payload@),
            OscEvent::RxvtNotification { title, body } => OscModel::RxvtNotification(title@, body@),
            OscEvent::ShellIntegration(m) => OscModel::ShellIntegration(*m),
            OscEvent::Unknown { number, payload } => OscModel::Unknown(*number, payload@),
        }
    }
}

/// The path of an OSC 7 `file://hostname/path` URI: everything from the first
/// `/` after the scheme. Anything else is taken as it stands.
pub open spec fn osc7_path(uri: Seq<char>) -> Seq<char> {
    let scheme = "file://"@;
    if starts_with(uri, scheme) {
        let rest = uri.skip(scheme.len() as int);
        match first_index_of(rest, '/') {
            Some(k) => rest.skip(k),
            None => uri,
        }
    } else {
        uri
    }
}

/// `s` without its leading `;` characters.
pub open spec fn trim_leading_semicolons(s: Seq<char>) -> Seq<char>
    decreases s.len(),
{
    if s.len() > 0 && s[0] == ';' {
        trim_leading_semicolons(s.drop_first())
    } else {
        s
    }
}

/// The exit code carried by an OSC 133 `D` mark: the text from the third
/// character on (when the second is a single-byte character), without leading
/// `;`, read as an `i32`.
pub open spec fn osc133_exit_code(p: Seq<char>) -> Option<i32> {
    if p.len() >= 2 && (p[1] as u32) < 128 {
        parse_i32_spec(trim_leading_semicolons(p.skip(2)))
    } else {
        None
    }
}

/// The event for an OSC 133 payload.
pub open spec fn osc133_model(p: Seq<char>) -> OscModel {
    if p.len() > 0 && p[0] == 'A' {
        OscModel::ShellIntegration(ShellMark::PromptStart)
    } else if p.len() > 0 && p[0] == 'B' {
        OscModel::ShellIntegration(ShellMark::CommandStart)
    } else if p.len() > 0 && p[0] == 'C' {
        OscModel::ShellIntegration(ShellMark::CommandExecuted)
    } else if p.len() > 0 && p[0] == 'D' {
        OscModel::ShellIntegration(ShellMark::CommandFinished(osc133_exit_code(p)))
    } else {
        OscModel::Unknown(133, p)
    }
}

/// The event for an OSC 777 payload: `notify;<title>;<body>`, where the body
/// may itself hold `;`.
pub open spec fn osc777_model(p: Seq<char>) -> OscModel {
    match first_index_of(p, ';') {
        Some(i) => {
            let rest = p.skip(i + 1);
            match first_index_of(rest, ';') {
                Some(j) => if p.take(i) == "notify"@ {
                    OscModel::RxvtNotification(rest.take(j), rest.skip(j + 1))
                } else {
                    OscModel::Unknown(777, p)
                },
                None => OscModel::Unknown(777, p),
            }
        },
        None => OscModel::Unknown(777, p),
    }
}

/// The event that an OSC sequence with this number and payload denotes.
pub open spec fn osc_model(number: u32, p: Seq<char>) -> OscModel {
    if number == 0 || number == 2 {
        OscModel::SetTitle(p)
    } else if number == 7 {
        OscModel::SetCwd(osc7_path(p))
    } else if number == 9 {
        OscModel::Notification(p)
    } else if number == 99 {
        OscModel::KittyNotification(p)
    } else if number == 133 {
        osc133_model(p)
    } else if number == 777 {
        osc777_model(p)
    } else {
        OscModel::Unknown(number, p)
    }
}

/// Parse an OSC sequence number and payload into a structured event.
pub fn parse_osc(number: u32, payload: &str) -> (r: OscEvent)
    ensures
        r@ == osc_model(number, payload@),
{
    if number == 0 || number == 2 {
        OscEvent::SetTitle(payload.to_owned())
    } else if number == 7 {
        OscEvent::SetCwd(parse_osc7_uri(payload))
    } else if number == 9 {
        OscEvent::Notification { body: payload.to_owned() }
    } else if number == 99 {
        OscEvent::KittyNotification { payload: payload.to_owned() }
    } else if number == 133 {
        parse_osc133(payload)
    } else if number == 777 {
        parse_osc777(payload)
    } else {
        OscEvent::Unknown { number, payload: payload.to_owned() }
    }
}

/// Parse an OSC 777 payload (`notify;<title>;<body>`).
fn parse_osc777(payload: &str) -> (r: OscEvent)
    ensures
        r@ == osc777_model(payload@),
{
    let v = chars_of(payload);
    let n = v.len();
    let unknown = OscEvent::Unknown { number: 777, payload: payload.to_owned() };
    let i = match find_char(v.as_slice(), ';') {
        Some(i) => i,
        None => return unknown,
    };
    let ghost rest = v@.skip(i + 1);
    let j = match find_char_from(v.as_slice(), ';', i + 1) {
        Some(j) => j,
        None => {
            proof {
                crate::text::lemma_first_index_of(rest, ';');
                if let Some(k) = first_index_of(rest, ';') {
                    assert(rest[k] == v@[i + 1 + k]);
                }
            }
            return unknown;
        },
    };
    proof {
        assert forall|k: int| 0 <= k < j - i - 1 implies rest[k] != ';' by {
            assert(rest[k] == v@[i + 1 + k]);
        }
        crate::text::lemma_first_index_of_unique(rest, ';', j - i - 1);
    }
    let head = string_from_range(v.as_slice(), 0, i);
    let notify = chars_of("notify");
    let head_chars = chars_of(head.as_str());
    if chars_eq(head_chars.as_slice(), notify.as_slice()) {
        let title = string_from_range(v.as_slice(), i + 1, j);
        let body = string_from_range(v.as_slice(), j + 1, n);
        proof {
            assert(v@.take(i as int) =~= v@.subrange(0, i as int));
            assert(rest.take(j - i - 1) =~= v@.subrange(i + 1, j as int));
            assert(rest.skip(j - i) =~= v@.subrange(j + 1, v@.len() as int));
        }
        OscEvent::RxvtNotification { title, body }
    } else {
        proof {
            assert(v@.take(i as int) =~= v@.subrange(0, i as int));
        }
        unknown
    }
}

/// Parse OSC 7 URI: `file://hostname/path`
fn parse_osc7_uri(uri: &str) -> (r: String)
    ensures
        r@ == osc7_path(uri@),
{
    let v = chars_of(uri);
    let scheme = chars_of("file://");
    if starts_with_exec(v.as_slice(), scheme.as_slice()) {
        let n = scheme.len();
        let ghost rest = v@.skip(n as int);
        match find_char_from(v.as_slice(), '/', n) {
            Some(k) => {
                proof {
                    assert forall|m: int| 0 <= m < k - n implies rest[m] != '/' by {
                        assert(rest[m] == v@[n + m]);
                    }
                    crate::text::lemma_first_index_of_unique(rest, '/', k - n);
                    assert(rest.skip(k - n) =~= v@.subrange(k as int, v@.len() as int));
                }
                return string_from_range(v.as_slice(), k, v.len());
            },
            None => {
                proof {
                    if let Some(m) = first_index_of(rest, '/') {
                        crate::text::lemma_first_index_of(rest, '/');
                        assert(v@[n + m] == '/');
                    }
                }
            },
        }
    }
    uri.to_owned()
}

/// `v[from..]` without its leading `;` characters, as a start position.
fn skip_semicolons(v: &[char], from: usize) -> (r: usize)
    requires
        from <= v@.len(),
    ensures
        from <= r <= v@.len(),
        v@.skip(r as int) == trim_leading_semicolons(v@.skip(from as int)),
    decreases v@.len() - from,
{
    if from < v.len() && v[from] == ';' {
        let r = skip_semicolons(v, from + 1);
        assert(v@.skip(from as int).drop_first() =~= v@.skip(from + 1));
        r
    } else {
        r_is_from(v, from)
    }
}

/// The start position itself, when it holds no `;`.
fn r_is_from(v: &[char], from: usize) -> (r: usize)
    requires
        from <= v@.len(),
        !(from < v@.len() && v@[from as int] == ';'),
    ensures
        r == from,
        v@.skip(r as int) == trim_leading_semicolons(v@.skip(from as int)),
{
    assert(v@.skip(from as int).len() > 0 ==> v@.skip(from as int)[0] == v@[from as int]);
    from
}

/// Parse OSC 133 shell integration marks.
fn parse_osc133(payload: &str) -> (r: OscEvent)
    ensures
        r@ == osc133_model(payload@),
{
    let v = chars_of(payload);
    if v.len() > 0 && v[0] == 'A' {
        OscEvent::ShellIntegration(ShellMark::PromptStart)
    } else if v.len() > 0 && v[0] == 'B' {
        OscEvent::ShellIntegration(ShellMark::CommandStart)
    } else if v.len() > 0 && v[0] == 'C' {
        OscEvent::ShellIntegration(ShellMark::CommandExecuted)
    } else if v.len() > 0 && v[0] == 'D' {
        let exit_code = if v.len() >= 2 && (v[1] as u32) < 128 {
            let start = skip_semicolons(v.as_slice(), 2);
            let tail = string_from_range(v.as_slice(), start, v.len());
            let tail_chars = chars_of(tail.as_str());
            assert(tail_chars@ =~= v@.skip(start as int));
            parse_i32(tail_chars.as_slice())
        } else {
            None
        };
        OscEvent::ShellIntegration(ShellMark::CommandFinished(exit_code))
    } else {
        OscEvent::Unknown { number: 133, payload: string_from_chars(v.as_slice()) }
    }
}

/// An OSC 777 notification `notify;<title>;<body>` whose title holds no `;`
/// carries that title and the whole body, every `;` in the body included:
/// the body is everything after the second `;`.
pub proof fn lemma_osc777_notification(title: Seq<char>, body: Seq<char>)
    requires
        !title.contains(';'),
    ensures
        osc_model(777, "notify;"@ + title + ";"@ + body) == OscModel::RxvtNotification(title, body),
{
    reveal_strlit("notify;");
    reveal_strlit(";");
    reveal_strlit("notify");
    let p = "notify;"@ + title + ";"@ + body;
    assert(p[6] == ';');
    assert forall|k: int| 0 <= k < 6 implies p[k] != ';' by {
        assert(p[k] == "notify"@[k]);
    }
    crate::text::lemma_first_index_of_unique(p, ';', 6);
    let rest = p.skip(7);
    assert(rest =~= title + ";"@ + body);
    let j = title.len() as int;
    assert(rest[j] == ';');
    assert forall|k: int| 0 <= k < j implies rest[k] != ';' by {
        assert(rest[k] == title[k]);
        if rest[k] == ';' {
            assert(title.contains(';'));
        }
    }
    crate::text::lemma_first_index_of_unique(rest, ';', j);
    assert(p.take(6) =~= "notify"@);
    assert(rest.take(j) =~= title);
    assert(rest.skip(j + 1) =~= body);
}

/// What each OSC number means: 0 and 2 set the title to the payload, 9 is
/// an iTerm2 notification and 99 a Kitty notification carrying the payload,
/// and a number thane does not know is reported with its payload unchanged.
pub proof fn lemma_osc_passthrough_events(number: u32, p: Seq<char>)
    ensures
        number == 0 || number == 2 ==> osc_model(number, p) == OscModel::SetTitle(p),
        number == 9 ==> osc_model(number, p) == OscModel::Notification(p),
        number == 99 ==> osc_model(number, p) == OscModel::KittyNotification(p),
        number != 0 && number != 2 && number != 7 && number != 9 && number != 99 && number != 133 && number
            != 777 ==> osc_model(number, p) == OscModel::Unknown(number, p),
{
}

/// OSC 7 reports the working directory as a `file://<host>/<path>` URI: the
/// directory is the path, from the `/` that ends the host name on. A payload
/// that is not a `file://` URI is taken as the directory itself.
pub proof fn lemma_osc7_cwd(host: Seq<char>, path: Seq<char>, p: Seq<char>)
    ensures
        !host.contains('/') ==> osc_model(7, "file://"@ + host + "/"@ + path) == OscModel::SetCwd("/"@ + path),
        !(p.len() >= 7 && p.take(7) == "file://"@) ==> osc_model(7, p) == OscModel::SetCwd(p),
{
    reveal_strlit("file://");
    reveal_strlit("/");
    if !host.contains('/') {
        let u = "file://"@ + host + "/"@ + path;
        assert(u.take(7) =~= "file://"@);
        assert(starts_with(u, "file://"@));
        let rest = u.skip(7);
        assert(rest =~= host + "/"@ + path);
        let j = host.len() as int;
        assert(rest[j] == '/');
        assert forall|k: int| 0 <= k < j implies rest[k] != '/' by {
            assert(rest[k] == host[k]);
            if rest[k] == '/' {
                assert(host.contains('/'));
            }
        }
        crate::text::lemma_first_index_of_unique(rest, '/', j);
        assert(rest.skip(j) =~= "/"@ + path);
    }
    if !(p.len() >= 7 && p.take(7) == "file://"@) {
        assert(!starts_with(p, "file://"@));
    }
}

/// OSC 133 marks: a payload starting with `A`, `B` or `C` marks the prompt
/// start, the command start and the command's execution; `D` marks the
/// command's end, with no exit code when nothing follows, and with exit code
/// `n` for `D;<n>`.
pub proof fn lemma_osc133_marks(rest: Seq<char>, code: nat)
    requires
        code <= i32::MAX,
    ensures
        osc_model(133, seq!['A'] + rest) == OscModel::ShellIntegration(ShellMark::PromptStart),
        osc_model(133, seq!['B'] + rest) == OscModel::ShellIntegration(ShellMark::CommandStart),
        osc_model(133, seq!['C'] + rest) == OscModel::ShellIntegration(ShellMark::CommandExecuted),
        osc_model(133, seq!['D']) == OscModel::ShellIntegration(ShellMark::CommandFinished(None)),
        osc_model(133, seq!['D', ';'] + crate::text::decimal(code)) == OscModel::ShellIntegration(
            ShellMark::CommandFinished(Some(code as i32)),
        ),
{
    assert((seq!['A'] + rest)[0] == 'A');
    assert((seq!['B'] + rest)[0] == 'B');
    assert((seq!['C'] + rest)[0] == 'C');
    let p = seq!['D', ';'] + crate::text::decimal(code);
    crate::text::lemma_decimal(code);
    assert(p[0] == 'D' && p[1] == ';');
    let d = crate::text::decimal(code);
    assert(p.skip(2) =~= d);
    assert(d[0] != ';') by {
        assert(crate::text::is_digit(d[0]));
    }
    assert(trim_leading_semicolons(d) == d);
    assert(crate::text::parse_i32_spec(d) == Some(code as i32));
}

} // verus!
