use vstd::prelude::*;

verus! {

/// `c` has the Unicode `White_Space` property, the set of characters that
/// `str::trim` removes from both ends of a string.
pub open spec fn is_unicode_whitespace(c: char) -> bool {
    ||| ('\u{9}' <= c && c <= '\u{d}')
    ||| c == ' '
    ||| c == '\u{85}'
    ||| c == '\u{a0}'
    ||| c == '\u{1680}'
    ||| ('\u{2000}' <= c && c <= '\u{200a}')
    ||| c == '\u{2028}'
    ||| c == '\u{2029}'
    ||| c == '\u{202f}'
    ||| c == '\u{205f}'
    ||| c == '\u{3000}'
}

/// `s` without its leading whitespace.
pub open spec fn trim_start_ws(s: Seq<char>) -> Seq<char>
    decreases s.len(),
{
    if s.len() > 0 && is_unicode_whitespace(s[0]) {
        trim_start_ws(s.drop_first())
    } else {
        s
    }
}

/// `s` without its trailing whitespace.
pub open spec fn trim_end_ws(s: Seq<char>) -> Seq<char>
    decreases s.len(),
{
    if s.len() > 0 && is_unicode_whitespace(s.last()) {
        trim_end_ws(s.drop_last())
    } else {
        s
    }
}

/// `s` without whitespace at either end.
pub open spec fn trim_ws(s: Seq<char>) -> Seq<char> {
    trim_end_ws(trim_start_ws(s))
}

/// `c` is an ASCII upper-case letter.
pub open spec fn is_ascii_upper(c: char) -> bool {
    'A' <= c && c <= 'Z'
}

/// `c` is an ASCII lower-case letter.
pub open spec fn is_ascii_lower(c: char) -> bool {
    'a' <= c && c <= 'z'
}

/// ASCII lower-casing of one character; every other character is kept.
pub open spec fn lower_char(c: char) -> char {
    if is_ascii_upper(c) {
        ((c as u32) + 32) as char
    } else {
        c
    }
}

/// ASCII upper-casing of one character; every other character is kept.
pub open spec fn upper_char(c: char) -> char {
    if is_ascii_lower(c) {
        ((c as u32) - 32) as char
    } else {
        c
    }
}

/// ASCII lower-casing of a whole string.
pub open spec fn lower_seq(s: Seq<char>) -> Seq<char> {
    s.map_values(|c: char| lower_char(c))
}

/// ASCII upper-casing of a whole string.
pub open spec fn upper_seq(s: Seq<char>) -> Seq<char> {
    s.map_values(|c: char| upper_char(c))
}

/// Whether `c` is Unicode whitespace.
pub fn is_whitespace_char(c: char) -> (r: bool)
    ensures
        r == is_unicode_whitespace(c),
{
    ('\u{9}' <= c && c <= '\u{d}') || c == ' ' || c == '\u{85}' || c == '\u{a0}' || c
        == '\u{1680}' || ('\u{2000}' <= c && c <= '\u{200a}') || c == '\u{2028}' || c
        == '\u{2029}' || c == '\u{202f}' || c == '\u{205f}' || c == '\u{3000}'
}

/// ASCII lower-casing of one character.
pub fn ascii_lower_char(c: char) -> (r: char)
    ensures
        r == lower_char(c),
{
    if 'A' <= c && c <= 'Z' {
        ((c as u8) + 32) as char
    } else {
        c
    }
}

/// ASCII upper-casing of one character.
pub fn ascii_upper_char(c: char) -> (r: char)
    ensures
        r == upper_char(c),
{
    if 'a' <= c && c <= 'z' {
        ((c as u8) - 32) as char
    } else {
        c
    }
}

/// Appends one character to a string (`String::push`).
#[verifier::external_body]
pub(crate) fn string_push(s: &mut String, c: char)
    ensures
        final(s)@ == old(s)@.push(c),
{
    s.push(c)
}

/// The characters of `s`, in order.
pub fn chars_of(s: &str) -> (r: Vec<char>)
    ensures
        r@ == s@,
{
    let mut out: Vec<char> = Vec::new();
    for c in it: s.chars()
        invariant
            out@ == it.seq().take(it.index() as int),
            it.seq() == s@,
    {
        out.push(c);
    }
    out
}

/// Appends every character of `src` to `dst`.
pub fn push_str(dst: &mut String, src: &str)
    ensures
        final(dst)@ == old(dst)@ + src@,
{
    let chars = chars_of(src);
    let n = chars.len();
    let ghost start = dst@;
    for i in 0..n
        invariant
            n == chars@.len(),
            chars@ == src@,
            dst@ == start + chars@.take(i as int),
    {
        string_push(dst, chars[i]);
        assert(chars@.take(i + 1) =~= chars@.take(i as int).push(chars@[i as int]));
    }
    assert(chars@.take(n as int) =~= chars@);
}

/// A copy of `s` (`str::to_string`).
pub fn string_of(s: &str) -> (r: String)
    ensures
        r@ == s@,
{
    let mut out = String::new();
    push_str(&mut out, s);
    out
}

/// Bounds `[start, end)` of `s` once leading and trailing whitespace is removed.
fn trim_bounds(s: &Vec<char>) -> (r: (usize, usize))
    ensures
        r.0 <= r.1 <= s@.len(),
        s@.subrange(r.0 as int, r.1 as int) == trim_ws(s@),
{
    let n = s.len();
    let mut i: usize = 0;
    assert(s@.skip(0) =~= s@);
    while i < n && is_whitespace_char(s[i])
        invariant
            i <= n,
            n == s@.len(),
            trim_start_ws(s@) == trim_start_ws(s@.skip(i as int)),
        decreases n - i,
    {
        assert(s@.skip(i as int).drop_first() =~= s@.skip(i + 1));
        i = i + 1;
    }
    assert(trim_start_ws(s@.skip(i as int)) == s@.skip(i as int));
    let mut j: usize = n;
    assert(s@.skip(i as int) =~= s@.subrange(i as int, n as int));
    while j > i && is_whitespace_char(s[j - 1])
        invariant
            i <= j <= n,
            n == s@.len(),
            trim_ws(s@) == trim_end_ws(s@.subrange(i as int, j as int)),
        decreases j - i,
    {
        assert(s@.subrange(i as int, j as int).drop_last() =~= s@.subrange(i as int, j - 1));
        j = j - 1;
    }
    (i, j)
}

/// `s` with surrounding whitespace removed and ASCII letters lower-cased
/// (`s.trim().to_ascii_lowercase()`).
pub fn trim_lowercase(s: &str) -> (r: String)
    ensures
        r@ == lower_seq(trim_ws(s@)),
{
    let chars = chars_of(s);
    let (start, end) = trim_bounds(&chars);
    let ghost t = chars@.subrange(start as int, end as int);
    let mut out = String::new();
    let mut i = start;
    while i < end
        invariant
            start <= i <= end <= chars@.len(),
            t == chars@.subrange(start as int, end as int),
            out@ == lower_seq(t.take(i - start)),
        decreases end - i,
    {
        let c = ascii_lower_char(chars[i]);
        string_push(&mut out, c);
        assert(t.take(i + 1 - start) =~= t.take(i - start).push(chars@[i as int]));
        assert(lower_seq(t.take(i + 1 - start)) =~= lower_seq(t.take(i - start)).push(c));
        i = i + 1;
    }
    assert(t.take(end - start) =~= t);
    out
}

/// `s` with ASCII letters upper-cased (`str::to_ascii_uppercase`).
pub fn ascii_uppercase(s: &str) -> (r: String)
    ensures
        r@ == upper_seq(s@),
{
    let chars = chars_of(s);
    let n = chars.len();
    let mut out = String::new();
    for i in 0..n
        invariant
            n == chars@.len(),
            chars@ == s@,
            out@ == upper_seq(chars@.take(i as int)),
    {
        let c = ascii_upper_char(chars[i]);
        string_push(&mut out, c);
        assert(chars@.take(i + 1) =~= chars@.take(i as int).push(chars@[i as int]));
        assert(upper_seq(chars@.take(i + 1)) =~= upper_seq(chars@.take(i as int)).push(c));
    }
    assert(chars@.take(n as int) =~= chars@);
    out
}


/// Lower-casing neither creates nor removes whitespace, and lower-casing
/// twice is lower-casing once.
pub proof fn lemma_lower_char(c: char)
    ensures
        is_unicode_whitespace(lower_char(c)) == is_unicode_whitespace(c),
        lower_char(lower_char(c)) == lower_char(c),
{
}

/// Neither end of a trimmed string is whitespace.
pub proof fn lemma_trim_ends(s: Seq<char>)
    ensures
        trim_start_ws(s).len() > 0 ==> !is_unicode_whitespace(trim_start_ws(s)[0]),
        trim_ws(s).len() > 0 ==> !is_unicode_whitespace(trim_ws(s)[0]),
        trim_ws(s).len() > 0 ==> !is_unicode_whitespace(trim_ws(s).last()),
    decreases s.len(),
{
    if s.len() > 0 && is_unicode_whitespace(s[0]) {
        lemma_trim_ends(s.drop_first());
    }
    lemma_trim_end_keeps_front(trim_start_ws(s));
}

proof fn lemma_trim_end_keeps_front(t: Seq<char>)
    ensures
        trim_end_ws(t).len() <= t.len(),
        trim_end_ws(t) == t.take(trim_end_ws(t).len() as int),
        trim_end_ws(t).len() > 0 ==> !is_unicode_whitespace(trim_end_ws(t).last()),
    decreases t.len(),
{
    if t.len() > 0 && is_unicode_whitespace(t.last()) {
        lemma_trim_end_keeps_front(t.drop_last());
        let r = trim_end_ws(t.drop_last());
        assert(t.drop_last().take(r.len() as int) =~= t.take(r.len() as int));
    } else {
        assert(t.take(t.len() as int) =~= t);
    }
}

/// A string without whitespace at either end is its own trim.
pub proof fn lemma_trim_of_trimmed(t: Seq<char>)
    requires
        t.len() > 0 ==> !is_unicode_whitespace(t[0]) && !is_unicode_whitespace(t.last()),
    ensures
        trim_ws(t) == t,
{
}

/// Normalising a string (trim, then ASCII lower-case) a second time changes nothing.
pub proof fn law_trim_lower_idempotent(s: Seq<char>)
    ensures
        lower_seq(trim_ws(lower_seq(trim_ws(s)))) == lower_seq(trim_ws(s)),
{
    let t = trim_ws(s);
    let l = lower_seq(t);
    lemma_trim_ends(s);
    if t.len() > 0 {
        lemma_lower_char(t[0]);
        lemma_lower_char(t.last());
        assert(l[0] == lower_char(t[0]));
        assert(l.last() == lower_char(t.last()));
    }
    lemma_trim_of_trimmed(l);
    assert forall|i: int| 0 <= i < l.len() implies #[trigger] lower_seq(l)[i] == l[i] by {
        lemma_lower_char(t[i]);
    }
    assert(lower_seq(l) =~= l);
}

} // verus!
