//! Policy limits for session persistence.
use vstd::prelude::*;

use crate::text::{chars_of, find_char_from, first_index_of, push_char, string_from_chars};

verus! {

/// Policy limits for session persistence.
#[derive(Debug, Clone)]
pub struct PersistPolicy {
    /// Maximum scrollback lines to capture per terminal.
    pub max_scrollback_lines: usize,
    /// Maximum number of workspaces to persist.
    pub max_workspaces: usize,
    /// Auto-save interval in seconds.
    pub auto_save_interval_secs: u64,
    /// Maximum total snapshot size in bytes.
    pub max_snapshot_bytes: usize,
}

impl Default for PersistPolicy {
    /// 5000 scrollback lines, 50 workspaces, an auto-save every 8 seconds and
    /// snapshots of at most 50 MB.
    fn default() -> (r: Self)
        ensures
            r.max_scrollback_lines == 5000,
            r.max_workspaces == 50,
            r.auto_save_interval_secs == 8,
            r.max_snapshot_bytes == 50 * 1024 * 1024,
    {
        Self {
            max_scrollback_lines: 5000,
            max_workspaces: 50,
            auto_save_interval_secs: 8,
            max_snapshot_bytes: 50 * 1024 * 1024,  // 50 MB
        }
    }
}

// ---------------------------------------------------------------------------
// Lines
// ---------------------------------------------------------------------------

/// A line without the carriage return of a `\r\n` ending.
pub open spec fn strip_cr(l: Seq<char>) -> Seq<char> {
    if l.len() > 0 && l.last() == '\r' {
        l.drop_last()
    } else {
        l
    }
}

/// The lines of a text, as std's `str::lines` gives them: split at `\n` or
/// `\r\n`; a final line ending is optional and adds no empty line.
pub open spec fn lines(s: Seq<char>) -> Seq<Seq<char>>
    decreases s.len(),
{
    if s.len() == 0 {
        Seq::empty()
    } else {
        match first_index_of(s, '\n') {
            None => seq![s],
            Some(i) => {
                proof {
                    crate::text::lemma_first_index_of(s, '\n');
                }
                seq![strip_cr(s.take(i))] + lines(s.skip(i + 1))
            },
        }
    }
}

/// Lines joined with `\n` between them.
pub open spec fn join_lines(ls: Seq<Seq<char>>) -> Seq<char>
    decreases ls.len(),
{
    if ls.len() == 0 {
        Seq::empty()
    } else if ls.len() == 1 {
        ls[0]
    } else {
        join_lines(ls.drop_last()) + seq!['\n'] + ls.last()
    }
}

/// Whether `c` may occur in the parameters of an ANSI CSI sequence.
pub open spec fn csi_param_char(c: char) -> bool {
    ('0' <= c && c <= '9') || c == ';' || c == 'm' || c == '['
}

/// Whether a line looks like the tail of a cut ANSI escape sequence: shorter
/// than 20 characters and made only of digits, `;`, `m` and `[`.
pub open spec fn looks_partial_escape(first: Seq<char>) -> bool {
    first.len() < 20 && forall|k: int| 0 <= k < first.len() ==> csi_param_char(#[trigger] first[k])
}

/// `s` without a first line that looks like the tail of a cut ANSI escape
/// sequence: a first line (not starting with ESC) shorter than 20 characters
/// made only of digits, `;`, `m` and `[`, followed by a further line.
pub open spec fn sanitize_ansi_start_spec(s: Seq<char>) -> Seq<char> {
    if s.len() > 0 && s[0] != '\x1b' {
        let end: int = match first_index_of(s, '\n') {
            Some(i) => i,
            None => s.len() as int,
        };
        if looks_partial_escape(s.take(end)) && end < s.len() {
            s.skip(end + 1)
        } else {
            s
        }
    } else {
        s
    }
}

/// The scrollback kept under a line limit: the text itself when it has no
/// more lines than the limit, else its last `max` lines joined with `\n`, with
/// a leading cut escape sequence removed.
pub open spec fn truncated_scrollback(max: nat, s: Seq<char>) -> Seq<char> {
    let ls = lines(s);
    if ls.len() <= max {
        s
    } else {
        sanitize_ansi_start_spec(join_lines(ls.skip(ls.len() - max)))
    }
}

/// The number of `c` in `s`.
pub open spec fn count_char(s: Seq<char>, c: char) -> nat
    decreases s.len(),
{
    if s.len() == 0 {
        0
    } else {
        count_char(s.drop_last(), c) + if s.last() == c {
            1nat
        } else {
            0nat
        }
    }
}

// ---------------------------------------------------------------------------
// Lemmas
// ---------------------------------------------------------------------------

/// Counting over a concatenation adds the counts.
proof fn lemma_count_concat(a: Seq<char>, b: Seq<char>, c: char)
    ensures
        count_char(a + b, c) == count_char(a, c) + count_char(b, c),
    decreases b.len(),
{
    if b.len() == 0 {
        assert(a + b =~= a);
    } else {
        lemma_count_concat(a, b.drop_last(), c);
        assert((a + b).drop_last() =~= a + b.drop_last());
        assert((a + b).last() == b.last());
    }
}

/// A single `c` counts once.
proof fn lemma_count_single(c: char)
    ensures
        count_char(seq![c], c) == 1,
{
    assert(seq![c].drop_last() =~= Seq::<char>::empty());
    assert(seq![c].last() == c);
    assert(count_char(Seq::<char>::empty(), c) == 0);
}

/// A run without `c` counts none.
proof fn lemma_count_none(s: Seq<char>, c: char)
    requires
        !s.contains(c),
    ensures
        count_char(s, c) == 0,
    decreases s.len(),
{
    if s.len() > 0 {
        assert(!s.drop_last().contains(c)) by {
            if s.drop_last().contains(c) {
                let k = choose|k: int| 0 <= k < s.drop_last().len() && s.drop_last()[k] == c;
                assert(s[k] == c);
            }
        }
        lemma_count_none(s.drop_last(), c);
        assert(s.last() == s[s.len() - 1]);
    }
}

/// A text has at most one line more than it has line feeds, and no line holds
/// a line feed.
pub proof fn lemma_lines_bound(s: Seq<char>)
    ensures
        lines(s).len() <= count_char(s, '\n') + 1,
        forall|k: int| 0 <= k < lines(s).len() ==> !(#[trigger] lines(s)[k]).contains('\n'),
    decreases s.len(),
{
    if s.len() > 0 {
        crate::text::lemma_first_index_of(s, '\n');
        match first_index_of(s, '\n') {
            None => {
                assert(lines(s) == seq![s]);
                assert(!s.contains('\n')) by {
                    if s.contains('\n') {
                        let k = choose|k: int| 0 <= k < s.len() && s[k] == '\n';
                    }
                }
            },
            Some(i) => {
                lemma_lines_bound(s.skip(i + 1));
                assert(s =~= s.take(i) + seq!['\n'] + s.skip(i + 1));
                lemma_count_concat(s.take(i) + seq!['\n'], s.skip(i + 1), '\n');
                lemma_count_concat(s.take(i), seq!['\n'], '\n');
                lemma_count_single('\n');
                let first = strip_cr(s.take(i));
                assert(!first.contains('\n')) by {
                    if first.contains('\n') {
                        let k = choose|k: int| 0 <= k < first.len() && first[k] == '\n';
                        assert(s[k] == '\n');
                    }
                }
                let ls = lines(s);
                assert(ls == seq![first] + lines(s.skip(i + 1)));
                assert forall|k: int| 0 <= k < ls.len() implies !(#[trigger] ls[k]).contains('\n') by {
                    if k > 0 {
                        assert(ls[k] == lines(s.skip(i + 1))[k - 1]);
                    }
                }
            },
        }
    }
}

/// Lines without line feeds, joined, hold one line feed fewer than there are lines.
proof fn lemma_join_count(ls: Seq<Seq<char>>)
    requires
        ls.len() > 0,
        forall|k: int| 0 <= k < ls.len() ==> !(#[trigger] ls[k]).contains('\n'),
    ensures
        count_char(join_lines(ls), '\n') == ls.len() - 1,
    decreases ls.len(),
{
    if ls.len() == 1 {
        lemma_count_none(ls[0], '\n');
    } else {
        let init = ls.drop_last();
        assert forall|k: int| 0 <= k < init.len() implies !(#[trigger] init[k]).contains('\n') by {
            assert(init[k] == ls[k]);
        }
        lemma_join_count(init);
        lemma_count_concat(join_lines(init) + seq!['\n'], ls.last(), '\n');
        lemma_count_concat(join_lines(init), seq!['\n'], '\n');
        lemma_count_single('\n');
        lemma_count_none(ls.last(), '\n');
    }
}

/// Removing a first line never adds lines.
proof fn lemma_sanitize_lines(s: Seq<char>)
    ensures
        lines(sanitize_ansi_start_spec(s)).len() <= lines(s).len(),
{
    if s.len() > 0 && s[0] != '\x1b' {
        crate::text::lemma_first_index_of(s, '\n');
        if let Some(i) = first_index_of(s, '\n') {
            assert(lines(s) == seq![strip_cr(s.take(i))] + lines(s.skip(i + 1)));
        }
    }
}

/// Truncated scrollback never has more lines than the policy keeps, whenever
/// it had to be truncated; otherwise it is the scrollback itself.
pub proof fn lemma_truncated_within_limit(max: nat, s: Seq<char>)
    ensures
        lines(truncated_scrollback(max, s)).len() <= max || truncated_scrollback(max, s) == s,
{
    let ls = lines(s);
    if ls.len() > max {
        let kept = ls.skip(ls.len() - max);
        lemma_lines_bound(s);
        if max > 0 {
            assert forall|k: int| 0 <= k < kept.len() implies !(#[trigger] kept[k]).contains('\n') by {
                assert(kept[k] == ls[ls.len() - max + k]);
            }
            lemma_join_count(kept);
            lemma_lines_bound(join_lines(kept));
        } else {
            assert(kept.len() == 0);
            assert(join_lines(kept) == Seq::<char>::empty());
        }
        lemma_sanitize_lines(join_lines(kept));
    }
}

// ---------------------------------------------------------------------------
// Executable code
// ---------------------------------------------------------------------------

/// The position of the first `\n` in `v[from..]`, or the end.
fn line_end(v: &[char], from: usize) -> (r: usize)
    requires
        from <= v@.len(),
    ensures
        from <= r <= v@.len(),
        r < v@.len() ==> first_index_of(v@.skip(from as int), '\n') == Some(r - from),
        r == v@.len() ==> first_index_of(v@.skip(from as int), '\n') is None,
{
    let ghost rest = v@.skip(from as int);
    proof {
        crate::text::lemma_first_index_of(rest, '\n');
    }
    match find_char_from(v, '\n', from) {
        Some(j) => {
            proof {
                assert forall|k: int| 0 <= k < j - from implies rest[k] != '\n' by {
                    assert(rest[k] == v@[from + k]);
                }
                crate::text::lemma_first_index_of_unique(rest, '\n', j - from);
            }
            j
        },
        None => {
            proof {
                if let Some(k) = first_index_of(rest, '\n') {
                    assert(v@[from + k] == '\n');
                }
            }
            v.len()
        },
    }
}

/// The line ranges `(start, end)` of the text in `v`, `\r` of `\r\n` excluded.
pub fn line_ranges(v: &[char]) -> (r: Vec<(usize, usize)>)
    ensures
        r@.len() == lines(v@).len(),
        forall|k: int| 0 <= k < r@.len() ==> (#[trigger] r@[k]).0 <= r@[k].1 <= v@.len()
            && v@.subrange(r@[k].0 as int, r@[k].1 as int) == lines(v@)[k],
{
    let mut r: Vec<(usize, usize)> = Vec::new();
    let mut pos: usize = 0;
    assert(v@.skip(0) =~= v@);
    while pos < v.len()
        invariant
            0 <= pos <= v@.len(),
            lines(v@) == Seq::new(r@.len(), |k: int| v@.subrange(r@[k].0 as int, r@[k].1 as int))
                + lines(v@.skip(pos as int)),
            forall|k: int| 0 <= k < r@.len() ==> (#[trigger] r@[k]).0 <= r@[k].1 <= v@.len(),
        decreases v.len() - pos,
    {
        let ghost rest = v@.skip(pos as int);
        let ghost before = Seq::new(r@.len(), |k: int| v@.subrange(r@[k].0 as int, r@[k].1 as int));
        let e = line_end(v, pos);
        let next: usize;
        let mut stop = e;
        if e < v.len() {
            if e > pos && v[e - 1] == '\r' {
                stop = e - 1;
            }
            next = e + 1;
            proof {
                let line = rest.take(e - pos);
                assert(lines(rest) == seq![strip_cr(line)] + lines(rest.skip(e - pos + 1)));
                assert(rest.skip(e - pos + 1) =~= v@.skip(e + 1));
                if e > pos && v@[e - 1] == '\r' {
                    assert(line.last() == v@[e - 1]);
                    assert(strip_cr(line) =~= v@.subrange(pos as int, stop as int));
                } else {
                    if line.len() > 0 {
                        assert(line.last() == v@[e - 1]);
                    }
                    assert(strip_cr(line) =~= v@.subrange(pos as int, stop as int));
                }
            }
        } else {
            next = v.len();
            proof {
                assert(lines(rest) == seq![rest]);
                assert(rest =~= v@.subrange(pos as int, stop as int));
                assert(v@.skip(v@.len() as int) =~= Seq::<char>::empty());
            }
        }
        r.push((pos, stop));
        proof {
            let after = Seq::new(r@.len(), |k: int| v@.subrange(r@[k].0 as int, r@[k].1 as int));
            assert(after =~= before.push(v@.subrange(pos as int, stop as int)));
            assert(lines(v@) =~= after + lines(v@.skip(next as int)));
        }
        pos = next;
    }
    proof {
        assert(v@.skip(pos as int) =~= Seq::<char>::empty());
        let all = Seq::new(r@.len(), |k: int| v@.subrange(r@[k].0 as int, r@[k].1 as int));
        assert(lines(v@) =~= all);
    }
    r
}

/// Joins the lines `ranges[from..]` of `v` with `\n`.
fn join_ranges(v: &[char], ranges: &Vec<(usize, usize)>, from: usize) -> (r: Vec<char>)
    requires
        from <= ranges@.len(),
        forall|k: int| 0 <= k < ranges@.len() ==> (#[trigger] ranges@[k]).0 <= ranges@[k].1 <= v@.len(),
    ensures
        r@ == join_lines(
            Seq::new(
                (ranges@.len() - from) as nat,
                |k: int| v@.subrange(ranges@[from + k].0 as int, ranges@[from + k].1 as int),
            ),
        ),
{
    let ghost ls = Seq::new(
        (ranges@.len() - from) as nat,
        |k: int| v@.subrange(ranges@[from + k].0 as int, ranges@[from + k].1 as int),
    );
    let mut r: Vec<char> = Vec::new();
    let mut i = from;
    while i < ranges.len()
        invariant
            from <= i <= ranges@.len(),
            forall|k: int| 0 <= k < ranges@.len() ==> (#[trigger] ranges@[k]).0 <= ranges@[k].1 <= v@.len(),
            ls == Seq::new(
                (ranges@.len() - from) as nat,
                |k: int| v@.subrange(ranges@[from + k].0 as int, ranges@[from + k].1 as int),
            ),
            r@ == join_lines(ls.take(i - from)),
        decreases ranges.len() - i,
    {
        let ghost before = r@;
        if i > from {
            r.push('\n');
        }
        let (a, b) = ranges[i];
        let mut j = a;
        while j < b
            invariant
                a <= j <= b <= v@.len(),
                r@ == before + (if i > from { seq!['\n'] } else { Seq::empty() }) + v@.subrange(
                    a as int,
                    j as int,
                ),
            decreases b - j,
        {
            r.push(v[j]);
            j = j + 1;
            assert(r@ =~= before + (if i > from { seq!['\n'] } else { Seq::empty() }) + v@.subrange(
                a as int,
                j as int,
            ));
        }
        proof {
            let t = ls.take(i + 1 - from);
            assert(t.last() == v@.subrange(a as int, b as int));
            assert(t.drop_last() =~= ls.take(i - from));
            if i == from {
                assert(r@ =~= t[0]);
            } else {
                assert(r@ =~= join_lines(t.drop_last()) + seq!['\n'] + t.last());
            }
        }
        i = i + 1;
    }
    assert(ls.take(ranges@.len() - from) =~= ls);
    r
}

/// The text itself, or without its first line when that line looks like the
/// tail of a cut ANSI escape sequence.
fn sanitize_ansi_start(v: &[char]) -> (r: Vec<char>)
    ensures
        r@ == sanitize_ansi_start_spec(v@),
{
    // Check if we're inside an escape sequence (no ESC byte before a CSI parameter).
    // A partial escape looks like: missing ESC but has `;`, `[`, or ends with `m`.
    // This is a heuristic — we look for common incomplete CSI patterns.
    let mut skip_to: usize = 0;
    assert(v@.skip(0) =~= v@);
    if v.len() > 0 && v[0] != '\x1b' {
        let first_line_end = line_end(v, 0);
        assert(v@.skip(0) =~= v@);
        // The characters checked are all ASCII, so the line's length in
        // characters is its length in bytes.
        let mut looks_partial = first_line_end < 20;
        let mut k: usize = 0;
        while k < first_line_end
            invariant
                0 <= k <= first_line_end <= v@.len(),
                looks_partial == (first_line_end < 20 && forall|m: int| 0 <= m < k ==> csi_param_char(
                    #[trigger] v@[m],
                )),
            decreases first_line_end - k,
        {
            let c = v[k];
            if !(('0' <= c && c <= '9') || c == ';' || c == 'm' || c == '[') {
                looks_partial = false;
            }
            k = k + 1;
        }
        proof {
            let first = v@.take(first_line_end as int);
            if looks_partial {
                assert forall|m: int| 0 <= m < first.len() implies csi_param_char(#[trigger] first[m]) by {
                    assert(first[m] == v@[m]);
                }
            } else if first_line_end < 20 {
                let m = choose|m: int| 0 <= m < first_line_end && !csi_param_char(#[trigger] v@[m]);
                assert(first[m] == v@[m]);
            }
            assert(looks_partial == looks_partial_escape(first));
        }
        proof {
            let end: int = match first_index_of(v@, '\n') {
                Some(i) => i,
                None => v@.len() as int,
            };
            assert(end == first_line_end);
            let first = v@.take(end);
            assert(first.len() == first_line_end);
        }
        if looks_partial && first_line_end < v.len() {
            skip_to = first_line_end + 1;
            assert(sanitize_ansi_start_spec(v@) == v@.skip(skip_to as int));
        } else {
            assert(sanitize_ansi_start_spec(v@) == v@);
        }
    } else {
        assert(sanitize_ansi_start_spec(v@) == v@);
    }
    assert(sanitize_ansi_start_spec(v@) == v@.skip(skip_to as int));
    let mut r: Vec<char> = Vec::new();
    let mut i = skip_to;
    while i < v.len()
        invariant
            skip_to <= i <= v@.len(),
            r@ == v@.subrange(skip_to as int, i as int),
        decreases v.len() - i,
    {
        r.push(v[i]);
        i = i + 1;
        assert(r@ =~= v@.subrange(skip_to as int, i as int));
    }
    assert(r@ =~= v@.skip(skip_to as int));
    r
}

impl PersistPolicy {
    /// Truncate scrollback to the configured limit, ensuring we don't cut
    /// in the middle of an ANSI escape sequence.
    pub fn truncate_scrollback(&self, scrollback: &str) -> (r: String)
        ensures
            r@ == truncated_scrollback(self.max_scrollback_lines as nat, scrollback@),
    {
        let v = chars_of(scrollback);
        let ranges = line_ranges(v.as_slice());
        if ranges.len() <= self.max_scrollback_lines {
            return string_from_chars(v.as_slice());
        }
        // Keep the last N lines
        let start = ranges.len() - self.max_scrollback_lines;
        let joined = join_ranges(v.as_slice(), &ranges, start);
        proof {
            let ls = lines(v@);
            let kept = Seq::new(
                (ranges@.len() - start) as nat,
                |k: int| v@.subrange(ranges@[start + k].0 as int, ranges@[start + k].1 as int),
            );
            assert(kept =~= ls.skip(ls.len() - self.max_scrollback_lines));
        }
        // Ensure we're not in the middle of an escape sequence.
        // If the truncated content starts with a partial ESC sequence, skip to the next line.
        let clean = sanitize_ansi_start(joined.as_slice());
        string_from_chars(clean.as_slice())
    }
}

} // verus!
