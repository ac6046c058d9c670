//! Comparison of release version strings, for the update check: `remote`
//! is newer than `local` when its numeric parts are greater, or when the
//! numbers agree and only `local` is a pre-release.
use vstd::prelude::*;

use crate::platform::numbers_in;
use crate::text::{
    chars_of, find_char, first_index_of, lemma_first_index_of, parse_u32, string_from_range, trim, trim_str,
};

verus! {

/// The text without one leading `v`.
pub open spec fn strip_v(s: Seq<char>) -> Seq<char> {
    if s.len() > 0 && s[0] == 'v' {
        s.skip(1)
    } else {
        s
    }
}

/// The pieces of `s` between dots (std's `str::split('.')`): empty pieces
/// included, one piece for a text without a dot.
pub open spec fn dot_pieces(s: Seq<char>) -> Seq<Seq<char>>
    decreases s.len(),
{
    match first_index_of(s, '.') {
        None => seq![s],
        Some(i) => {
            proof {
                lemma_first_index_of(s, '.');
            }
            seq![s.take(i)] + dot_pieces(s.skip(i + 1))
        },
    }
}

/// The numeric part of a version: before the first `-`, if any.
pub open spec fn numeric_part(s: Seq<char>) -> Seq<char> {
    match first_index_of(s, '-') {
        Some(i) => s.take(i),
        None => s,
    }
}

/// Whether a version carries a pre-release suffix (a `-`).
pub open spec fn is_prerelease(s: Seq<char>) -> bool {
    first_index_of(strip_v(s), '-') is Some
}

/// The numbers of a version: the dot-separated pieces of its numeric part
/// that are numbers, in order.
pub open spec fn version_numbers(s: Seq<char>) -> Seq<u32> {
    numbers_in(dot_pieces(numeric_part(strip_v(s))))
}

/// The `i`-th number of a version, zero past its end.
pub open spec fn number_at(v: Seq<u32>, i: int) -> u32 {
    if 0 <= i < v.len() {
        v[i]
    } else {
        0
    }
}

/// The first difference between two version numbers from position `i` on:
/// whether the first is greater there; `None` where they agree throughout.
pub open spec fn first_difference(r: Seq<u32>, l: Seq<u32>, i: nat) -> Option<bool>
    decreases (if r.len() > l.len() { r.len() } else { l.len() }) - i,
{
    if i >= r.len() && i >= l.len() {
        None
    } else if number_at(r, i as int) > number_at(l, i as int) {
        Some(true)
    } else if number_at(r, i as int) < number_at(l, i as int) {
        Some(false)
    } else {
        first_difference(r, l, i + 1)
    }
}

/// Whether `remote` is a newer version than `local`.
pub open spec fn is_version_newer_spec(remote: Seq<char>, local: Seq<char>) -> bool {
    match first_difference(version_numbers(remote), version_numbers(local), 0) {
        Some(greater) => greater,
        None => !is_prerelease(remote) && is_prerelease(local),
    }
}

/// The numbers among the dot-separated pieces of `v[from..to]`.
fn dotted_numbers(v: &[char], from: usize, to: usize) -> (r: Vec<u32>)
    requires
        from <= to <= v@.len(),
    ensures
        r@ == numbers_in(dot_pieces(v@.subrange(from as int, to as int))),
{
    let mut out: Vec<u32> = Vec::new();
    let mut start = from;
    let ghost pieces = dot_pieces(v@.subrange(from as int, to as int));
    assert(v@.subrange(from as int, to as int) == v@.subrange(start as int, to as int));
    loop
        invariant
            from <= start <= to <= v@.len(),
            numbers_in(pieces) == out@ + numbers_in(dot_pieces(v@.subrange(start as int, to as int))),
            pieces == dot_pieces(v@.subrange(from as int, to as int)),
        decreases to - start,
    {
        let rest = string_from_range(v, start, to);
        let rv = chars_of(rest.as_str());
        let ghost s = v@.subrange(start as int, to as int);
        assert(rv@ == s);
        proof {
            lemma_first_index_of(s, '.');
        }
        match find_char(&rv, '.') {
            None => {
                proof {
                    lemma_numbers_in_one(s);
                }
                match parse_u32(&rv) {
                    Some(n) => out.push(n),
                    None => {},
                }
                proof {
                    assert(dot_pieces(s) == seq![s]);
                }
                return out;
            },
            Some(k) => {
                let piece = string_from_range(&rv, 0, k);
                let pv = chars_of(piece.as_str());
                assert(pv@ =~= s.take(k as int));
                proof {
                    lemma_numbers_in_cons(s.take(k as int), dot_pieces(s.skip(k + 1)));
                    assert(s.skip(k + 1) =~= v@.subrange(start + k + 1, to as int));
                }
                let ghost before = out@;
                match parse_u32(&pv) {
                    Some(n) => out.push(n),
                    None => {},
                }
                assert(out@ =~= before + match crate::text::parse_u32_spec(s.take(k as int)) {
                    Some(n) => seq![n],
                    None => Seq::empty(),
                });
                start = start + k + 1;
            },
        }
    }
}

/// The numbers of a one-piece list.
proof fn lemma_numbers_in_one(s: Seq<char>)
    ensures
        numbers_in(seq![s]) == match crate::text::parse_u32_spec(s) {
            Some(n) => seq![n],
            None => Seq::<u32>::empty(),
        },
{
    assert(seq![s].drop_last() =~= Seq::<Seq<char>>::empty());
    assert(numbers_in(Seq::<Seq<char>>::empty()) =~= Seq::<u32>::empty());
    assert(seq![s].last() == s);
    let tail = match crate::text::parse_u32_spec(s) {
        Some(n) => seq![n],
        None => Seq::<u32>::empty(),
    };
    assert(Seq::<u32>::empty() + tail =~= tail);
}

/// The numbers of a piece followed by more pieces.
proof fn lemma_numbers_in_cons(p: Seq<char>, ps: Seq<Seq<char>>)
    ensures
        numbers_in(seq![p] + ps) == match crate::text::parse_u32_spec(p) {
            Some(n) => seq![n],
            None => Seq::<u32>::empty(),
        } + numbers_in(ps),
    decreases ps.len(),
{
    if ps.len() == 0 {
        assert(seq![p] + ps =~= seq![p]);
        lemma_numbers_in_one(p);
    } else {
        lemma_numbers_in_cons(p, ps.drop_last());
        assert((seq![p] + ps).drop_last() =~= seq![p] + ps.drop_last());
    }
}

/// The numbers of a version and whether it is a pre-release.
fn parse_version(s: &str) -> (r: (Vec<u32>, bool))
    ensures
        r.0@ == version_numbers(s@),
        r.1 == is_prerelease(s@),
{
    let v = chars_of(s);
    let from: usize = if v.len() > 0 && v[0] == 'v' { 1 } else { 0 };
    let body = string_from_range(&v, from, v.len());
    let b = chars_of(body.as_str());
    assert(b@ == strip_v(s@)) by {
        if from == 0 {
            assert(v@.subrange(0, v@.len() as int) =~= v@);
        }
    }
    proof {
        lemma_first_index_of(b@, '-');
    }
    match find_char(&b, '-') {
        Some(i) => {
            let nums = dotted_numbers(&b, 0, i);
            assert(b@.subrange(0, i as int) =~= b@.take(i as int));
            (nums, true)
        },
        None => {
            let nums = dotted_numbers(&b, 0, b.len());
            assert(b@.subrange(0, b@.len() as int) =~= b@);
            (nums, false)
        },
    }
}

/// Whether `remote` is a newer version than `local`. A leading `v` is
/// ignored; numeric parts compare in order, a missing part counting as
/// zero; with equal numbers, a release is newer than a pre-release.
pub fn is_version_newer(remote: &str, local: &str) -> (r: bool)
    ensures
        r == is_version_newer_spec(remote@, local@),
{
    let (rp, r_pre) = parse_version(remote);
    let (lp, l_pre) = parse_version(local);
    let len = if rp.len() > lp.len() { rp.len() } else { lp.len() };
    let mut i: usize = 0;
    while i < len
        invariant
            0 <= i <= len,
            len == (if rp@.len() > lp@.len() { rp@.len() } else { lp@.len() }),
            first_difference(rp@, lp@, 0) == first_difference(rp@, lp@, i as nat),
            rp@ == version_numbers(remote@),
            lp@ == version_numbers(local@),
        decreases len - i,
    {
        let a = if i < rp.len() { rp[i] } else { 0 };
        let b = if i < lp.len() { lp[i] } else { 0 };
        assert(a == number_at(rp@, i as int) && b == number_at(lp@, i as int));
        assert(!(i >= rp@.len() && i >= lp@.len()));
        if a > b {
            assert(first_difference(rp@, lp@, i as nat) == Some(true));
            return true;
        }
        if a < b {
            assert(first_difference(rp@, lp@, i as nat) == Some(false));
            return false;
        }
        i = i + 1;
    }
    !r_pre && l_pre
}

/// The first difference seen from the other side is the opposite one.
pub proof fn lemma_first_difference_flips(r: Seq<u32>, l: Seq<u32>, i: nat)
    ensures
        first_difference(l, r, i) == match first_difference(r, l, i) {
            Some(b) => Some(!b),
            None => None,
        },
    decreases (if r.len() > l.len() { r.len() } else { l.len() }) - i,
{
    if !(i >= r.len() && i >= l.len()) && number_at(r, i as int) == number_at(l, i as int) {
        lemma_first_difference_flips(r, l, i + 1);
    }
}

/// A version is never newer than itself, and of two versions at most one
/// is newer than the other.
pub proof fn lemma_version_order_strict(a: Seq<char>, b: Seq<char>)
    ensures
        !is_version_newer_spec(a, a),
        is_version_newer_spec(a, b) ==> !is_version_newer_spec(b, a),
{
    lemma_first_difference_flips(version_numbers(a), version_numbers(a), 0);
    lemma_first_difference_flips(version_numbers(a), version_numbers(b), 0);
}

/// Two equal lists of numbers have no first difference.
proof fn lemma_first_difference_equal(v: Seq<u32>, i: nat)
    ensures
        first_difference(v, v, i) is None,
    decreases v.len() - i,
{
    if i < v.len() {
        lemma_first_difference_equal(v, i + 1);
    }
}

/// How versions compare beyond their numbers: a leading `v` makes no
/// difference on either side, and a release is newer than a pre-release of
/// the same numbers (`1.2.0` over `1.2.0-rc1`), never the other way round.
pub proof fn lemma_version_v_prefix_and_prerelease(a: Seq<char>, b: Seq<char>, suffix: Seq<char>)
    ensures
        (a.len() == 0 || a[0] != 'v') ==> is_version_newer_spec(seq!['v'] + a, b) == is_version_newer_spec(a, b)
            && is_version_newer_spec(b, seq!['v'] + a) == is_version_newer_spec(b, a),
        (a.len() == 0 || a[0] != 'v') && !a.contains('-') ==> is_version_newer_spec(a, a + seq!['-'] + suffix)
            && !is_version_newer_spec(a + seq!['-'] + suffix, a),
{
    if a.len() == 0 || a[0] != 'v' {
        assert((seq!['v'] + a).skip(1) =~= a);
        assert(strip_v(seq!['v'] + a) == strip_v(a));
        if !a.contains('-') {
            let p = a + seq!['-'] + suffix;
            assert(p.len() == 0 || p[0] != 'v') by {
                if a.len() == 0 {
                    assert(p[0] == '-');
                } else {
                    assert(p[0] == a[0]);
                }
            }
            assert(strip_v(p) == p);
            assert(strip_v(a) == a);
            lemma_first_index_of(a, '-');
            lemma_first_index_of(p, '-');
            assert(p[a.len() as int] == '-');
            assert forall|k: int| 0 <= k < a.len() implies p[k] != '-' by {
                assert(p[k] == a[k]);
                if p[k] == '-' {
                    assert(a.contains('-'));
                }
            }
            crate::text::lemma_first_index_of_unique(p, '-', a.len() as int);
            assert(p.take(a.len() as int) =~= a);
            assert(first_index_of(a, '-') is None) by {
                if let Some(k) = first_index_of(a, '-') {
                    assert(a.contains('-'));
                }
            }
            assert(numeric_part(p) == numeric_part(a));
            assert(version_numbers(p) == version_numbers(a));
            lemma_first_difference_equal(version_numbers(a), 0);
            assert(is_prerelease(p));
            assert(!is_prerelease(a));
        }
    }
}

/// What serde_json finds when `body` is parsed as JSON and the string under
/// `key` is looked up: `None` where the body is not JSON, `Some(None)` where
/// it is JSON but holds no string under that key (not an object, no such
/// key, or a value of another kind), `Some(Some(s))` for the string `s`.
pub uninterp spec fn json_string_field(body: Seq<char>, key: Seq<char>) -> Option<Option<Seq<char>>>;

/// Parses `body` with `serde_json::from_str` into a `serde_json::Value` and
/// reads the string under `key` with `Value::get` and `Value::as_str`. The
/// contract names the outcome `json_string_field(body, key)`; what JSON
/// parsing accepts is serde_json's and is not restated here.
#[verifier::external_body]
pub(crate) fn string_field_of_json(body: &str, key: &str) -> (r: Option<Option<String>>)
    ensures
        json_string_field(body@, key@) == match r {
            None => None,
            Some(None) => Some(None),
            Some(Some(s)) => Some(Some(s@)),
        },
{
    match serde_json::from_str::<serde_json::Value>(body) {
        Ok(v) => Some(v.get(key).and_then(|x| x.as_str()).map(|x| x.to_string())),
        Err(_) => None,
    }
}

/// Why the published version could not be read.
#[derive(Debug, PartialEq, Eq, Clone, Copy)]
pub enum LatestVersionError {
    /// The body is not JSON.
    InvalidJson,
    /// The body holds no string under the platform's key.
    MissingKey,
    /// The string under the platform's key is blank.
    EmptyVersion,
}

/// The published version from the looked-up field, as `latest_version`
/// reads it: trimmed, and refused when blank.
pub open spec fn latest_version_spec(field: Option<Option<Seq<char>>>) -> Result<Seq<char>, LatestVersionError> {
    match field {
        None => Err(LatestVersionError::InvalidJson),
        Some(None) => Err(LatestVersionError::MissingKey),
        Some(Some(s)) => if trim(s).len() == 0 {
            Err(LatestVersionError::EmptyVersion)
        } else {
            Ok(trim(s))
        },
    }
}

/// The view of a version result.
pub open spec fn version_result_view(r: Result<String, LatestVersionError>) -> Result<Seq<char>, LatestVersionError> {
    match r {
        Ok(s) => Ok(s@),
        Err(e) => Err(e),
    }
}

/// The view of a looked-up field.
pub open spec fn field_view(f: Option<Option<String>>) -> Option<Option<Seq<char>>> {
    match f {
        None => None,
        Some(None) => Some(None),
        Some(Some(s)) => Some(Some(s@)),
    }
}

/// The published version from the string found under the platform's key:
/// the trimmed string, or the reason there is none.
pub fn version_from_field(field: Option<Option<String>>) -> (r: Result<String, LatestVersionError>)
    ensures
        version_result_view(r) == latest_version_spec(field_view(field)),
{
    match field {
        None => Err(LatestVersionError::InvalidJson),
        Some(None) => Err(LatestVersionError::MissingKey),
        Some(Some(s)) => {
            let t = trim_str(s.as_str());
            if t.as_str().unicode_len() == 0 {
                Err(LatestVersionError::EmptyVersion)
            } else {
                Ok(t)
            }
        },
    }
}

/// The version published for Linux in the body of the release feed, a JSON
/// object with one version string per platform (`{"linux": "x.y.z", ...}`).
pub fn latest_linux_version(body: &str) -> (r: Result<String, LatestVersionError>)
    ensures
        version_result_view(r) == latest_version_spec(json_string_field(body@, "linux"@)),
{
    let field = string_field_of_json(body, "linux");
    version_from_field(field)
}

} // verus!
