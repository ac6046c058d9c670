//! Paths held as text, and the few questions about them that std's `Path`
//! answers for the library: the last component, the extension, equality
//! and the renaming of the last component.
use vstd::prelude::*;

use crate::text::{chars_of, chars_eq_str, push_decimal, push_str, decimal};

verus! {

/// The last component of a path, as std's `Path::file_name` gives it.
pub uninterp spec fn std_file_name(path: Seq<char>) -> Option<Seq<char>>;

/// Whether two paths are equal component by component, as std's `Path`
/// equality decides it.
pub uninterp spec fn std_paths_equal(a: Seq<char>, b: Seq<char>) -> bool;

/// The path with its last component replaced by `name`, as std's
/// `Path::with_file_name` builds it.
pub uninterp spec fn std_with_file_name(path: Seq<char>, name: Seq<char>) -> Seq<char>;

/// The last component of a path (std's `Path::file_name`), lossily as text.
#[verifier::external_body]
pub(crate) fn file_name_of(path: &str) -> (r: Option<String>)
    ensures
        match r {
            Some(n) => std_file_name(path@) == Some(n@),
            None => std_file_name(path@) is None,
        },
{
    std::path::Path::new(path).file_name().map(|n| n.to_string_lossy().into_owned())
}

/// Whether two paths are equal component by component (std's `Path` equality).
#[verifier::external_body]
pub(crate) fn paths_equal(a: &str, b: &str) -> (r: bool)
    ensures
        r == std_paths_equal(a@, b@),
{
    std::path::Path::new(a) == std::path::Path::new(b)
}

/// The path with its last component replaced (std's `Path::with_file_name`),
/// lossily as text.
#[verifier::external_body]
pub(crate) fn with_file_name(path: &str, name: &str) -> (r: String)
    ensures
        r@ == std_with_file_name(path@, name@),
{
    std::path::Path::new(path).with_file_name(name).to_string_lossy().into_owned()
}

/// The file name of a path, empty where it has none.
pub open spec fn file_name_or_empty(path: Seq<char>) -> Seq<char> {
    match std_file_name(path) {
        Some(n) => n,
        None => Seq::empty(),
    }
}

/// The index of the last occurrence of `c` in `s`.
pub open spec fn last_index_of(s: Seq<char>, c: char) -> Option<int>
    decreases s.len(),
{
    if s.len() == 0 {
        None
    } else if s.last() == c {
        Some(s.len() - 1)
    } else {
        last_index_of(s.drop_last(), c)
    }
}

/// Where `last_index_of` finds `c`, `c` stands there, and nowhere after.
pub proof fn lemma_last_index_of(s: Seq<char>, c: char)
    ensures
        match last_index_of(s, c) {
            Some(i) => 0 <= i < s.len() && s[i] == c
                && forall|j: int| i < j < s.len() ==> s[j] != c,
            None => forall|j: int| 0 <= j < s.len() ==> s[j] != c,
        },
    decreases s.len(),
{
    if s.len() > 0 && s.last() != c {
        lemma_last_index_of(s.drop_last(), c);
        assert forall|j: int| 0 <= j < s.len() - 1 implies s[j] == s.drop_last()[j] by {}
    }
}

/// The extension of a file name, as std's `Path::extension` documents it:
/// what follows the last dot, unless there is no dot or the only dot is the
/// name's first character.
pub open spec fn name_extension(name: Seq<char>) -> Option<Seq<char>> {
    match last_index_of(name, '.') {
        Some(i) => if i > 0 {
            Some(name.skip(i + 1))
        } else {
            None
        },
        None => None,
    }
}

/// The extension of a path: that of its last component.
pub open spec fn path_extension(path: Seq<char>) -> Option<Seq<char>> {
    match std_file_name(path) {
        Some(n) => name_extension(n),
        None => None,
    }
}

/// The index of the last `c` in `s`.
pub fn rfind_char(s: &[char], c: char) -> (r: Option<usize>)
    ensures
        match r {
            Some(i) => last_index_of(s@, c) == Some(i as int),
            None => last_index_of(s@, c) is None,
        },
{
    let mut i = s.len();
    assert(s@.take(i as int) =~= s@);
    while i > 0
        invariant
            i <= s.len(),
            last_index_of(s@, c) == last_index_of(s@.take(i as int), c),
        decreases i,
    {
        assert(s@.take(i as int).drop_last() =~= s@.take(i - 1));
        if s[i - 1] == c {
            return Some(i - 1);
        }
        i = i - 1;
    }
    None
}

/// Whether the last component of `path` has the extension `ext`.
pub fn has_extension(path: &str, ext: &str) -> (r: bool)
    ensures
        r == (path_extension(path@) == Some(ext@)),
{
    match file_name_of(path) {
        None => false,
        Some(name) => {
            let n = chars_of(name.as_str());
            let len = n.len();
            proof {
                lemma_last_index_of(n@, '.');
            }
            match rfind_char(&n, '.') {
                None => false,
                Some(i) => {
                    assert(last_index_of(n@, '.') == Some(i as int));
                    assert(i < n@.len());
                    if i == 0 {
                        return false;
                    }
                    let tail = crate::text::string_from_range(&n, i + 1, len);
                    let t = chars_of(tail.as_str());
                    assert(t@ =~= name@.skip(i + 1));
                    let same = chars_eq_str(&t, ext);
                    proof {
                        if !same {
                            assert(tail@ != ext@);
                        }
                    }
                    same
                },
            }
        },
    }
}

/// The name of a sibling temporary file: the target's file name with
/// `.tmp.<pid>` appended, in the target's directory.
pub open spec fn temp_sibling_spec(target: Seq<char>, pid: u32) -> Seq<char> {
    std_with_file_name(target, file_name_or_empty(target) + ".tmp."@ + decimal(pid as nat))
}

/// The sibling temporary file that an atomic write of `target` goes through,
/// for the process `pid`.
pub fn temp_sibling(target: &str, pid: u32) -> (r: String)
    ensures
        r@ == temp_sibling_spec(target@, pid),
{
    let mut name = match file_name_of(target) {
        Some(n) => n,
        None => String::new(),
    };
    push_str(&mut name, ".tmp.");
    push_decimal(&mut name, pid as u64);
    with_file_name(target, name.as_str())
}

} // verus!
