use vstd::prelude::*;

use crate::format::{extension_of, OutputFormat};
use crate::text::{ascii_uppercase, chars_of, push_str, string_of, upper_seq};

verus! {

/// The final component of `path` (`Path::file_name`), as text.
pub uninterp spec fn path_file_name(path: Seq<char>) -> Option<Seq<char>>;

/// `path` with `name` appended as a further component (`Path::join`), as text.
pub uninterp spec fn path_joined(dir: Seq<char>, name: Seq<char>) -> Seq<char>;

/// `Path::new(path).file_name()`, as a `String`. The path comes from a `&str`,
/// so the component is valid UTF-8 and `to_str` keeps it whole. The contract
/// names the result `path_file_name`.
#[verifier::external_body]
fn file_name_of(path: &str) -> (r: Option<String>)
    ensures
        match r {
            Some(s) => path_file_name(path@) == Some(s@),
            None => path_file_name(path@) is None,
        },
{
    match std::path::Path::new(path).file_name() {
        Some(name) => match name.to_str() {
            Some(s) => Some(s.to_string()),
            None => None,
        },
        None => None,
    }
}

/// `Path::new(dir).join(name)`, as a `String` (`to_string_lossy`, lossless on
/// paths made from `&str`). The contract names the result `path_joined`.
#[verifier::external_body]
fn join_path(dir: &str, name: &str) -> (r: String)
    ensures
        r@ == path_joined(dir@, name@),
{
    std::path::Path::new(dir).join(name).to_string_lossy().into_owned()
}

/// Index of the last '.' in `s`, or -1 when there is none.
pub open spec fn last_dot(s: Seq<char>) -> int
    decreases s.len(),
{
    if s.len() == 0 {
        -1
    } else if s.last() == '.' {
        s.len() - 1
    } else {
        last_dot(s.drop_last())
    }
}

proof fn lemma_last_dot_range(s: Seq<char>)
    ensures
        -1 <= last_dot(s) < s.len(),
        last_dot(s) >= 0 ==> s[last_dot(s)] == '.',
    decreases s.len(),
{
    if s.len() > 0 && s.last() != '.' {
        lemma_last_dot_range(s.drop_last());
    }
}

/// A file name split into its stem and its extension, as `Path::file_stem`
/// and `Path::extension` split it: at the last '.', except that a name whose
/// only '.' is its first character, or the name "..", has no extension.
pub open spec fn split_file_name(name: Seq<char>) -> (Seq<char>, Option<Seq<char>>) {
    let k = last_dot(name);
    if name == seq!['.', '.'] || k <= 0 {
        (name, None)
    } else {
        (name.take(k), Some(name.skip(k + 1)))
    }
}

/// The stem used for output files: the stem of the source's file name, or
/// "image" when the source path has no file name.
pub open spec fn stem_of(file_name: Option<Seq<char>>) -> Seq<char> {
    match file_name {
        Some(n) => split_file_name(n).0,
        None => "image"@,
    }
}

/// The extension of a file name, if it has one.
pub open spec fn extension_of_file_name(file_name: Option<Seq<char>>) -> Option<Seq<char>> {
    match file_name {
        Some(n) => split_file_name(n).1,
        None => None,
    }
}

/// The label of an input's format: its extension in upper case, or "UNKNOWN".
pub open spec fn format_label(file_name: Option<Seq<char>>) -> Seq<char> {
    match extension_of_file_name(file_name) {
        Some(e) => upper_seq(e),
        None => "UNKNOWN"@,
    }
}

/// The file name given to the output: stem, suffix, '.', extension of the format.
pub open spec fn output_name(file_name: Option<Seq<char>>, format: OutputFormat, suffix: Seq<char>) -> Seq<
    char,
> {
    stem_of(file_name) + suffix + seq!['.'] + extension_of(format)
}

proof fn lemma_last_dot_is_last(s: Seq<char>)
    ensures
        forall|j: int| last_dot(s) < j < s.len() ==> s[j] != '.',
    decreases s.len(),
{
    lemma_last_dot_range(s);
    if s.len() > 0 && s.last() != '.' {
        lemma_last_dot_is_last(s.drop_last());
        assert forall|j: int| last_dot(s) < j < s.len() implies s[j] != '.' by {
            if j < s.len() - 1 {
                assert(s.drop_last()[j] == s[j]);
            }
        }
    }
}

/// A file name splits at its last '.': with an extension, the stem (never
/// empty), a '.' and the extension give back the name, and the extension holds
/// no '.'; without one, the stem is the whole name, which is ".." or has no
/// '.' after its first character.
pub proof fn law_split_file_name(name: Seq<char>)
    ensures
        split_file_name(name).1 matches Some(e) ==> {
            &&& split_file_name(name).0 + seq!['.'] + e == name
            &&& split_file_name(name).0.len() > 0
            &&& !e.contains('.')
        },
        split_file_name(name).1 is None ==> {
            &&& split_file_name(name).0 == name
            &&& (name == seq!['.', '.'] || forall|j: int| 1 <= j < name.len() ==> name[j] != '.')
        },
{
    lemma_last_dot_range(name);
    lemma_last_dot_is_last(name);
    let k = last_dot(name);
    if let Some(e) = split_file_name(name).1 {
        assert(name.take(k) + seq!['.'] + name.skip(k + 1) =~= name);
        assert forall|j: int| 0 <= j < e.len() implies e[j] != '.' by {
            assert(e[j] == name[k + 1 + j]);
        }
    }
}

/// The text of an optional string.
pub open spec fn opt_text(s: Option<&str>) -> Option<Seq<char>> {
    match s {
        Some(t) => Some(t@),
        None => None,
    }
}

fn last_dot_index(chars: &Vec<char>) -> (r: Option<usize>)
    ensures
        match r {
            Some(k) => k == last_dot(chars@),
            None => last_dot(chars@) == -1,
        },
{
    let mut j = chars.len();
    assert(chars@.take(j as int) =~= chars@);
    while j > 0
        invariant
            j <= chars@.len(),
            last_dot(chars@) == last_dot(chars@.take(j as int)),
        decreases j,
    {
        assert(chars@.take(j as int).drop_last() =~= chars@.take(j - 1));
        if chars[j - 1] == '.' {
            return Some(j - 1);
        }
        j = j - 1;
    }
    None
}

fn string_from_range(chars: &Vec<char>, start: usize, end: usize) -> (r: String)
    requires
        start <= end <= chars@.len(),
    ensures
        r@ == chars@.subrange(start as int, end as int),
{
    let mut out = String::new();
    let mut i = start;
    while i < end
        invariant
            start <= i <= end <= chars@.len(),
            out@ == chars@.subrange(start as int, i as int),
        decreases end - i,
    {
        crate::text::string_push(&mut out, chars[i]);
        assert(chars@.subrange(start as int, i + 1) =~= chars@.subrange(start as int, i as int).push(
            chars@[i as int],
        ));
        i = i + 1;
    }
    out
}

/// Splits a file name into stem and extension.
pub fn split_name(name: &str) -> (r: (String, Option<String>))
    ensures
        r.0@ == split_file_name(name@).0,
        match r.1 {
            Some(e) => split_file_name(name@).1 == Some(e@),
            None => split_file_name(name@).1 is None,
        },
{
    let chars = chars_of(name);
    proof {
        lemma_last_dot_range(name@);
    }
    let n = chars.len();
    if n == 2 && chars[0] == '.' && chars[1] == '.' {
        assert(name@ =~= seq!['.', '.']);
        return (string_from_range(&chars, 0, n), None);
    }
    assert(name@ != seq!['.', '.']) by {
        if name@ == seq!['.', '.'] {
            assert(name@[0] == '.' && name@[1] == '.');
        }
    }
    assert(chars@.subrange(0, n as int) =~= chars@);
    match last_dot_index(&chars) {
        Some(k) => {
            if k == 0 {
                (string_from_range(&chars, 0, n), None)
            } else {
                assert(chars@.subrange(0, k as int) =~= chars@.take(k as int));
                assert(chars@.subrange(k + 1, n as int) =~= chars@.skip(k + 1));
                (string_from_range(&chars, 0, k), Some(string_from_range(&chars, k + 1, n)))
            }
        },
        None => (string_from_range(&chars, 0, n), None),
    }
}

/// The label of an input's format, given the file name of its path: the
/// extension in upper case, or "UNKNOWN".
pub fn format_label_for(file_name: Option<&str>) -> (r: String)
    ensures
        r@ == format_label(opt_text(file_name)),
{
    match file_name {
        Some(n) => {
            let (_, ext) = split_name(n);
            match ext {
                Some(e) => ascii_uppercase(e.as_str()),
                None => string_of("UNKNOWN"),
            }
        },
        None => string_of("UNKNOWN"),
    }
}

/// The label of the format of the file at `path`: its extension in upper case,
/// or "UNKNOWN".
pub fn detect_format_label(path: &str) -> (r: String)
    ensures
        r@ == format_label(path_file_name(path@)),
{
    match file_name_of(path) {
        Some(n) => format_label_for(Some(n.as_str())),
        None => format_label_for(None),
    }
}

/// The name of the file written for a source whose file name is `file_name`.
pub fn output_file_name(file_name: Option<&str>, format: &OutputFormat, suffix: &str) -> (r: String)
    ensures
        r@ == output_name(opt_text(file_name), *format, suffix@),
{
    let mut name = match file_name {
        Some(n) => {
            let (stem, _) = split_name(n);
            stem
        },
        None => string_of("image"),
    };
    push_str(&mut name, suffix);
    crate::text::string_push(&mut name, '.');
    push_str(&mut name, format.extension());
    name
}

/// The path of the file written for `source` in `output_dir`.
pub fn output_path_for(source: &str, output_dir: &str, format: &OutputFormat, suffix: &str) -> (r:
    String)
    ensures
        r@ == path_joined(output_dir@, output_name(path_file_name(source@), *format, suffix@)),
{
    let name = match file_name_of(source) {
        Some(n) => output_file_name(Some(n.as_str()), format, suffix),
        None => output_file_name(None, format, suffix),
    };
    join_path(output_dir, name.as_str())
}

/// The file name shown for the file at `path`: its final component, or
/// "image" when it has none.
pub open spec fn shown_file_name(file_name: Option<Seq<char>>) -> Seq<char> {
    match file_name {
        Some(n) => n,
        None => "image"@,
    }
}

/// The file name shown for the file at `path`.
pub fn display_file_name(path: &str) -> (r: String)
    ensures
        r@ == shown_file_name(path_file_name(path@)),
{
    match file_name_of(path) {
        Some(n) => n,
        None => string_of("image"),
    }
}

} // verus!
