//! Character-level text scanning used by the line classifier: literal
//! substring search and maximal runs of a character class, each stated as a
//! spec function and implemented by a verified executable mirror.
use vstd::prelude::*;

verus! {

/// An ASCII decimal digit.
pub open spec fn is_digit_char(c: char) -> bool {
    '0' as u32 <= c as u32 && c as u32 <= '9' as u32
}

/// A word character: ASCII letter, ASCII digit or underscore.
pub open spec fn is_word_char(c: char) -> bool {
    is_digit_char(c) || ('a' as u32 <= c as u32 && c as u32 <= 'z' as u32) || (
    'A' as u32 <= c as u32 && c as u32 <= 'Z' as u32) || c == '_'
}

/// A whitespace character.
pub open spec fn is_space_char(c: char) -> bool {
    c == ' ' || c == '\t' || c == '\n' || c == '\r' || c == '\u{b}' || c == '\u{c}'
}

/// `pat` occurs in `s` starting at position `i`.
pub open spec fn match_at(s: Seq<char>, pat: Seq<char>, i: int) -> bool {
    &&& 0 <= i
    &&& i + pat.len() <= s.len()
    &&& forall|k: int| 0 <= k < pat.len() ==> s[i + k] == pat[k]
}

/// Position of the first occurrence of `pat` in `s` at or after `i`.
pub open spec fn spec_find(s: Seq<char>, pat: Seq<char>, i: int) -> Option<int>
    decreases s.len() - i,
{
    if i < 0 || i + pat.len() > s.len() {
        None
    } else if match_at(s, pat, i) {
        Some(i)
    } else {
        spec_find(s, pat, i + 1)
    }
}

/// First position at or after `i` that does not hold a whitespace character.
pub open spec fn skip_spaces(s: Seq<char>, i: int) -> int
    decreases s.len() - i,
{
    if 0 <= i < s.len() && is_space_char(s[i]) {
        skip_spaces(s, i + 1)
    } else {
        i
    }
}

/// First position at or after `i` that does not hold an ASCII digit.
pub open spec fn scan_digits(s: Seq<char>, i: int) -> int
    decreases s.len() - i,
{
    if 0 <= i < s.len() && is_digit_char(s[i]) {
        scan_digits(s, i + 1)
    } else {
        i
    }
}

/// First position at or after `i` that does not hold a word character.
pub open spec fn scan_word(s: Seq<char>, i: int) -> int
    decreases s.len() - i,
{
    if 0 <= i < s.len() && is_word_char(s[i]) {
        scan_word(s, i + 1)
    } else {
        i
    }
}

/// First position at or after `i` that holds a single quote, or the length of
/// `s` if none follows.
pub open spec fn scan_to_quote(s: Seq<char>, i: int) -> int
    decreases s.len() - i,
{
    if 0 <= i < s.len() && s[i] != '\'' {
        scan_to_quote(s, i + 1)
    } else {
        i
    }
}

/// Whitespace test on one character.
pub fn is_space(c: char) -> (r: bool)
    ensures
        r == is_space_char(c),
{
    c == ' ' || c == '\t' || c == '\n' || c == '\r' || c == '\u{b}' || c == '\u{c}'
}

/// ASCII digit test on one character.
pub fn is_digit(c: char) -> (r: bool)
    ensures
        r == is_digit_char(c),
{
    let u = c as u32;
    ('0' as u32) <= u && u <= ('9' as u32)
}

/// Word-character test on one character.
pub fn is_word(c: char) -> (r: bool)
    ensures
        r == is_word_char(c),
{
    let u = c as u32;
    is_digit(c) || (('a' as u32) <= u && u <= ('z' as u32)) || (('A' as u32) <= u && u <= ('Z'
        as u32)) || c == '_'
}

/// Does `pat` occur in `s` at position `i`?
pub fn match_at_exec(s: &str, pat: &str, i: usize) -> (r: bool)
    requires
        i + pat@.len() <= s@.len(),
    ensures
        r == match_at(s@, pat@, i as int),
{
    let n = s.unicode_len();
    let m = pat.unicode_len();
    let mut k: usize = 0;
    while k < m
        invariant
            k <= m,
            m as nat == pat@.len(),
            n as nat == s@.len(),
            i + m <= n,
            forall|t: int| 0 <= t < k ==> s@[i + t] == pat@[t],
        decreases m - k,
    {
        if s.get_char(i + k) != pat.get_char(k) {
            assert(s@[i + k as int] != pat@[k as int]);
            return false;
        }
        k += 1;
    }
    true
}

/// Position of the first occurrence of `pat` in `s` at or after `from`, if
/// any.
pub fn find(s: &str, pat: &str, from: usize) -> (r: Option<usize>)
    requires
        from as int <= s@.len(),
    ensures
        match r {
            Some(j) => {
                &&& spec_find(s@, pat@, from as int) == Some(j as int)
                &&& from <= j
                &&& j + pat@.len() <= s@.len()
            },
            None => spec_find(s@, pat@, from as int) is None,
        },
{
    let n = s.unicode_len();
    let m = pat.unicode_len();
    if m > n {
        return None;
    }
    let mut i = from;
    while i <= n - m
        invariant
            from <= i,
            i <= n + 1,
            m <= n,
            n as nat == s@.len(),
            m as nat == pat@.len(),
            spec_find(s@, pat@, from as int) == spec_find(s@, pat@, i as int),
        decreases n - i,
    {
        if match_at_exec(s, pat, i) {
            return Some(i);
        }
        assert(spec_find(s@, pat@, i as int) == spec_find(s@, pat@, i + 1));
        i += 1;
    }
    assert(spec_find(s@, pat@, i as int) is None);
    None
}

/// First position at or after `from` that does not hold whitespace.
pub fn skip_spaces_exec(s: &str, from: usize) -> (r: usize)
    requires
        from as int <= s@.len(),
    ensures
        r as int == skip_spaces(s@, from as int),
        from <= r,
        r as int <= s@.len(),
{
    let n = s.unicode_len();
    let mut i = from;
    while i < n && is_space(s.get_char(i))
        invariant
            from <= i <= n,
            n as nat == s@.len(),
            skip_spaces(s@, from as int) == skip_spaces(s@, i as int),
        decreases n - i,
    {
        i += 1;
    }
    i
}

/// First position at or after `from` that does not hold an ASCII digit.
pub fn scan_digits_exec(s: &str, from: usize) -> (r: usize)
    requires
        from as int <= s@.len(),
    ensures
        r as int == scan_digits(s@, from as int),
        from <= r,
        r as int <= s@.len(),
{
    let n = s.unicode_len();
    let mut i = from;
    while i < n && is_digit(s.get_char(i))
        invariant
            from <= i <= n,
            n as nat == s@.len(),
            scan_digits(s@, from as int) == scan_digits(s@, i as int),
        decreases n - i,
    {
        i += 1;
    }
    i
}

/// First position at or after `from` that does not hold a word character.
pub fn scan_word_exec(s: &str, from: usize) -> (r: usize)
    requires
        from as int <= s@.len(),
    ensures
        r as int == scan_word(s@, from as int),
        from <= r,
        r as int <= s@.len(),
{
    let n = s.unicode_len();
    let mut i = from;
    while i < n && is_word(s.get_char(i))
        invariant
            from <= i <= n,
            n as nat == s@.len(),
            scan_word(s@, from as int) == scan_word(s@, i as int),
        decreases n - i,
    {
        i += 1;
    }
    i
}

/// Are two string slices equal, character for character?
pub fn str_eq(a: &str, b: &str) -> (r: bool)
    ensures
        r == (a@ == b@),
{
    let n = a.unicode_len();
    let m = b.unicode_len();
    if n != m {
        assert(a@ != b@);
        return false;
    }
    let mut i: usize = 0;
    while i < n
        invariant
            i <= n,
            n as nat == a@.len(),
            n as nat == b@.len(),
            forall|t: int| 0 <= t < i ==> a@[t] == b@[t],
        decreases n - i,
    {
        if a.get_char(i) != b.get_char(i) {
            assert(a@[i as int] != b@[i as int]);
            return false;
        }
        i += 1;
    }
    assert(a@ =~= b@);
    true
}

/// First position at or after `from` that holds a single quote, or the length
/// of `s`.
pub fn scan_to_quote_exec(s: &str, from: usize) -> (r: usize)
    requires
        from as int <= s@.len(),
    ensures
        r as int == scan_to_quote(s@, from as int),
        from <= r,
        r as int <= s@.len(),
{
    let n = s.unicode_len();
    let mut i = from;
    while i < n && s.get_char(i) != '\''
        invariant
            from <= i <= n,
            n as nat == s@.len(),
            scan_to_quote(s@, from as int) == scan_to_quote(s@, i as int),
        decreases n - i,
    {
        i += 1;
    }
    i
}

} // verus!
