//! Character-level helpers for the compiler: whitespace classification,
//! trimming, line counting and string comparison, all stated over the
//! `Seq<char>` views of strings.

use vstd::prelude::*;

verus! {

/// The characters Rust's `char::is_whitespace` accepts: the Unicode
/// `White_Space` code points.
pub open spec fn is_space_char(c: char) -> bool {
    c == ' ' || c == '\t' || c == '\n' || c == '\r' || c == '\u{000B}' || c == '\u{000C}'
        || c == '\u{0085}' || c == '\u{00A0}' || c == '\u{1680}' || c == '\u{2000}'
        || c == '\u{2001}' || c == '\u{2002}' || c == '\u{2003}' || c == '\u{2004}'
        || c == '\u{2005}' || c == '\u{2006}' || c == '\u{2007}' || c == '\u{2008}'
        || c == '\u{2009}' || c == '\u{200A}' || c == '\u{2028}' || c == '\u{2029}'
        || c == '\u{202F}' || c == '\u{205F}' || c == '\u{3000}'
}

/// A sequence is blank when every character in it is whitespace; the string
/// then trims to nothing.
pub open spec fn is_blank(s: Seq<char>) -> bool {
    forall|i: int| 0 <= i < s.len() ==> is_space_char(s[i])
}

/// Characters of `s` with trailing whitespace removed.
pub open spec fn trim_end_spec(s: Seq<char>) -> Seq<char>
    decreases s.len(),
{
    if s.len() == 0 {
        s
    } else if is_space_char(s[s.len() - 1]) {
        trim_end_spec(s.drop_last())
    } else {
        s
    }
}

/// Characters of `s` with leading whitespace removed.
pub open spec fn trim_start_spec(s: Seq<char>) -> Seq<char>
    decreases s.len(),
{
    if s.len() == 0 {
        s
    } else if is_space_char(s[0]) {
        trim_start_spec(s.subrange(1, s.len() as int))
    } else {
        s
    }
}

/// Characters of `s` with both leading and trailing whitespace removed.
pub open spec fn trim_spec(s: Seq<char>) -> Seq<char> {
    trim_start_spec(trim_end_spec(s))
}

/// How many newline characters `s` holds.
pub open spec fn newline_count(s: Seq<char>) -> nat
    decreases s.len(),
{
    if s.len() == 0 {
        0
    } else if s[s.len() - 1] == '\n' {
        newline_count(s.drop_last()) + 1
    } else {
        newline_count(s.drop_last())
    }
}

/// How many lines `str::lines` yields: zero for the empty string, otherwise
/// one per newline, plus one more when the text does not end in a newline.
pub open spec fn line_count_spec(s: Seq<char>) -> nat {
    if s.len() == 0 {
        0
    } else if s[s.len() - 1] == '\n' {
        newline_count(s)
    } else {
        newline_count(s) + 1
    }
}

/// Whether `c` is whitespace, agreeing exactly with `is_space_char`.
pub fn is_space(c: char) -> (r: bool)
    ensures
        r == is_space_char(c),
{
    c == ' ' || c == '\t' || c == '\n' || c == '\r' || c == '\u{000B}' || c == '\u{000C}'
        || c == '\u{0085}' || c == '\u{00A0}' || c == '\u{1680}' || c == '\u{2000}'
        || c == '\u{2001}' || c == '\u{2002}' || c == '\u{2003}' || c == '\u{2004}'
        || c == '\u{2005}' || c == '\u{2006}' || c == '\u{2007}' || c == '\u{2008}'
        || c == '\u{2009}' || c == '\u{200A}' || c == '\u{2028}' || c == '\u{2029}'
        || c == '\u{202F}' || c == '\u{205F}' || c == '\u{3000}'
}

/// Whether every character of `buf` is whitespace.
pub fn buf_is_blank(buf: &Vec<char>) -> (r: bool)
    ensures
        r == is_blank(buf@),
{
    let mut i: usize = 0;
    while i < buf.len()
        invariant
            0 <= i <= buf@.len(),
            forall|j: int| 0 <= j < i ==> is_space_char(buf@[j]),
        decreases buf@.len() - i,
    {
        if !is_space(buf[i]) {
            return false;
        }
        i += 1;
    }
    true
}

/// `buf` with trailing whitespace removed.
pub fn trim_end_chars(buf: &Vec<char>) -> (r: Vec<char>)
    ensures
        r@ == trim_end_spec(buf@),
{
    let mut end: usize = buf.len();
    proof {
        assert(buf@.subrange(0, buf@.len() as int) =~= buf@);
    }
    while end > 0 && is_space(buf[end - 1])
        invariant
            0 <= end <= buf@.len(),
            trim_end_spec(buf@) == trim_end_spec(buf@.subrange(0, end as int)),
        decreases end,
    {
        proof {
            assert(buf@.subrange(0, end as int).drop_last() =~= buf@.subrange(0, end - 1));
        }
        end -= 1;
    }
    let mut r: Vec<char> = Vec::new();
    let mut i: usize = 0;
    while i < end
        invariant
            0 <= i <= end <= buf@.len(),
            r@ == buf@.subrange(0, i as int),
            trim_end_spec(buf@) == buf@.subrange(0, end as int),
        decreases end - i,
    {
        r.push(buf[i]);
        proof {
            assert(r@ =~= buf@.subrange(0, i + 1 as int));
        }
        i += 1;
    }
    r
}

/// `buf` with leading whitespace removed.
pub fn trim_start_chars(buf: &Vec<char>) -> (r: Vec<char>)
    ensures
        r@ == trim_start_spec(buf@),
{
    let mut start: usize = 0;
    proof {
        assert(buf@.subrange(0, buf@.len() as int) =~= buf@);
    }
    while start < buf.len() && is_space(buf[start])
        invariant
            0 <= start <= buf@.len(),
            trim_start_spec(buf@) == trim_start_spec(buf@.subrange(start as int, buf@.len() as int)),
        decreases buf@.len() - start,
    {
        proof {
            let rest = buf@.subrange(start as int, buf@.len() as int);
            assert(rest.subrange(1, rest.len() as int) =~= buf@.subrange(
                start + 1 as int,
                buf@.len() as int,
            ));
        }
        start += 1;
    }
    let mut r: Vec<char> = Vec::new();
    let mut i: usize = start;
    while i < buf.len()
        invariant
            0 <= start <= i <= buf@.len(),
            r@ == buf@.subrange(start as int, i as int),
            trim_start_spec(buf@) == buf@.subrange(start as int, buf@.len() as int),
        decreases buf@.len() - i,
    {
        r.push(buf[i]);
        proof {
            assert(r@ =~= buf@.subrange(start as int, i + 1 as int));
        }
        i += 1;
    }
    proof {
        assert(r@ =~= buf@.subrange(start as int, buf@.len() as int));
    }
    r
}

/// `buf` with leading and trailing whitespace removed.
pub fn trim_chars(buf: &Vec<char>) -> (r: Vec<char>)
    ensures
        r@ == trim_spec(buf@),
{
    let cut = trim_end_chars(buf);
    trim_start_chars(&cut)
}

/// How many lines `str::lines` yields on the string `buf` spells.
pub fn count_lines_chars(buf: &Vec<char>) -> (r: usize)
    ensures
        r == line_count_spec(buf@),
{
    let mut nl: usize = 0;
    let mut i: usize = 0;
    while i < buf.len()
        invariant
            0 <= i <= buf@.len(),
            nl == newline_count(buf@.subrange(0, i as int)),
            nl <= i,
        decreases buf@.len() - i,
    {
        proof {
            assert(buf@.subrange(0, i + 1 as int).drop_last() =~= buf@.subrange(0, i as int));
        }
        if buf[i] == '\n' {
            nl += 1;
        }
        i += 1;
    }
    proof {
        assert(buf@.subrange(0, buf@.len() as int) =~= buf@);
    }
    if buf.len() == 0 {
        0
    } else if buf[buf.len() - 1] == '\n' {
        nl
    } else {
        proof {
            assert(buf@.subrange(0, buf@.len() as int).drop_last() =~= buf@.subrange(
                0,
                buf@.len() - 1,
            ));
            lemma_newline_count_le_len(buf@.drop_last());
        }
        nl + 1
    }
}

/// Newlines in a text are never more numerous than its characters.
pub proof fn lemma_newline_count_le_len(s: Seq<char>)
    ensures
        newline_count(s) <= s.len(),
    decreases s.len(),
{
    if s.len() > 0 {
        lemma_newline_count_le_len(s.drop_last());
    }
}

/// Relies on `str::chars`: it yields exactly the characters of the string,
/// in order, which is this string's view.
#[verifier::external_body]
pub fn chars_of(s: &str) -> (r: Vec<char>)
    ensures
        r@ == s@,
{
    s.chars().collect()
}

/// Relies on `String`'s `FromIterator<char>`: the collected string holds
/// exactly the characters handed to it, in order.
#[verifier::external_body]
pub fn string_from_chars(v: &Vec<char>) -> (r: String)
    ensures
        r@ == v@,
{
    v.iter().collect()
}

/// Append the characters of `other` to `buf`.
pub fn extend_vec(buf: &mut Vec<char>, other: &Vec<char>)
    ensures
        final(buf)@ == old(buf)@ + other@,
{
    let mut k: usize = 0;
    while k < other.len()
        invariant
            0 <= k <= other@.len(),
            buf@ == old(buf)@ + other@.subrange(0, k as int),
        decreases other@.len() - k,
    {
        buf.push(other[k]);
        proof {
            assert(buf@ =~= old(buf)@ + other@.subrange(0, k + 1 as int));
        }
        k += 1;
    }
    proof {
        assert(old(buf)@ + other@.subrange(0, other@.len() as int) =~= old(buf)@ + other@);
    }
}

/// Append the characters of the string `s` to `buf`.
pub fn extend_chars(buf: &mut Vec<char>, s: &str)
    ensures
        final(buf)@ == old(buf)@ + s@,
{
    let cs = chars_of(s);
    extend_vec(buf, &cs);
}

/// Whether two string slices hold the same characters.
pub fn str_eq(a: &str, b: &str) -> (r: bool)
    ensures
        r == (a@ == b@),
{
    let alen = a.unicode_len();
    let blen = b.unicode_len();
    if alen != blen {
        return false;
    }
    let mut i: usize = 0;
    while i < alen
        invariant
            0 <= i <= alen,
            alen == a@.len() && alen == b@.len(),
            forall|j: int| 0 <= j < i ==> a@[j] == b@[j],
        decreases alen - i,
    {
        if a.get_char(i) != b.get_char(i) {
            return false;
        }
        i += 1;
    }
    proof {
        assert(a@ =~= b@);
    }
    true
}

}
