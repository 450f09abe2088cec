use vstd::prelude::*;

verus! {

/// Characters with the Unicode `White_Space` property: the characters that
/// `char::is_whitespace`, `str::trim` and `str::split_whitespace` treat as blanks.
pub open spec fn is_white_space(c: char) -> bool {
    ||| '\u{9}' <= c <= '\u{d}'
    ||| c == ' '
    ||| c == '\u{85}'
    ||| c == '\u{a0}'
    ||| c == '\u{1680}'
    ||| '\u{2000}' <= c <= '\u{200a}'
    ||| c == '\u{2028}'
    ||| c == '\u{2029}'
    ||| c == '\u{202f}'
    ||| c == '\u{205f}'
    ||| c == '\u{3000}'
}

pub fn char_is_white_space(c: char) -> (r: bool)
    ensures
        r == is_white_space(c),
{
    ('\u{9}' <= c && c <= '\u{d}') || c == ' ' || c == '\u{85}' || c == '\u{a0}' || c == '\u{1680}'
        || ('\u{2000}' <= c && c <= '\u{200a}') || c == '\u{2028}' || c == '\u{2029}' || c
        == '\u{202f}' || c == '\u{205f}' || c == '\u{3000}'
}

pub open spec fn is_ascii_alphanumeric(c: char) -> bool {
    ||| 'a' <= c <= 'z'
    ||| 'A' <= c <= 'Z'
    ||| '0' <= c <= '9'
}

pub fn char_is_ascii_alphanumeric(c: char) -> (r: bool)
    ensures
        r == is_ascii_alphanumeric(c),
{
    ('a' <= c && c <= 'z') || ('A' <= c && c <= 'Z') || ('0' <= c && c <= '9')
}

/// A lower-case hexadecimal digit, the alphabet of canonical content hashes.
pub open spec fn is_lower_hex_digit(c: char) -> bool {
    ||| '0' <= c <= '9'
    ||| 'a' <= c <= 'f'
}

pub fn char_is_lower_hex_digit(c: char) -> (r: bool)
    ensures
        r == is_lower_hex_digit(c),
{
    ('0' <= c && c <= '9') || ('a' <= c && c <= 'f')
}

pub open spec fn has_white_space(s: Seq<char>) -> bool {
    exists|i: int| 0 <= i < s.len() && is_white_space(#[trigger] s[i])
}

pub open spec fn contains_char(s: Seq<char>, c: char) -> bool {
    exists|i: int| 0 <= i < s.len() && #[trigger] s[i] == c
}

pub open spec fn starts_with(s: Seq<char>, prefix: Seq<char>) -> bool {
    prefix.len() <= s.len() && s.take(prefix.len() as int) == prefix
}

/// Whether `pat` occurs in `s` starting exactly at index `i`.
pub open spec fn occurs_at(s: Seq<char>, pat: Seq<char>, i: int) -> bool {
    0 <= i && i + pat.len() <= s.len() && s.subrange(i, i + pat.len()) == pat
}

/// The first index at or after `i` where `pat` occurs in `s`, as `str::find` reports it.
pub open spec fn find_from(s: Seq<char>, pat: Seq<char>, i: int) -> Option<int>
    decreases s.len() + 1 - i,
{
    if i < 0 || i + pat.len() > s.len() {
        None
    } else if s.subrange(i, i + pat.len()) == pat {
        Some(i)
    } else {
        find_from(s, pat, i + 1)
    }
}

pub proof fn lemma_find_from_bounds(s: Seq<char>, pat: Seq<char>, i: int)
    ensures
        find_from(s, pat, i) matches Some(j) ==> i <= j && j + pat.len() <= s.len() && occurs_at(s, pat, j)
            && forall|k: int| i <= k < j ==> !occurs_at(s, pat, k),
        find_from(s, pat, i) is None ==> forall|k: int| i <= k ==> #[trigger] occurs_at(s, pat, k) ==> i < 0,
    decreases s.len() + 1 - i,
{
    if i < 0 || i + pat.len() > s.len() {
    } else if s.subrange(i, i + pat.len()) == pat {
    } else {
        lemma_find_from_bounds(s, pat, i + 1);
    }
}

/// Finds the first occurrence of `pat` in `s` at or after `start`.
pub fn find_chars(s: &Vec<char>, pat: &Vec<char>, start: usize) -> (r: Option<usize>)
    requires
        pat.len() > 0,
    ensures
        match r {
            Some(j) => find_from(s@, pat@, start as int) == Some(j as int),
            None => find_from(s@, pat@, start as int) is None,
        },
{
    let mut i = start;
    if pat.len() > s.len() {
        return None;
    }
    while i <= s.len() - pat.len()
        invariant
            start <= i,
            pat.len() <= s.len(),
            find_from(s@, pat@, start as int) == find_from(s@, pat@, i as int),
        decreases s.len() - i,
    {
        let mut k: usize = 0;
        let mut same = true;
        assert(s@.subrange(i as int, i as int) =~= pat@.take(0));
        while k < pat.len()
            invariant
                0 <= k <= pat.len(),
                i + pat.len() <= s.len(),
                same <==> s@.subrange(i as int, i + k) == pat@.take(k as int),
            decreases pat.len() - k,
        {
            if s[i + k] != pat[k] {
                same = false;
                assert(s@.subrange(i as int, i + k + 1)[k as int] != pat@.take(k + 1)[k as int]);
                k = pat.len();
            } else {
                if same {
                    assert(s@.subrange(i as int, i + k + 1) =~= s@.subrange(i as int, i + k).push(
                        s@[i + k],
                    ));
                    assert(pat@.take(k + 1) =~= pat@.take(k as int).push(pat@[k as int]));
                }
                k = k + 1;
                assert(!same ==> s@.subrange(i as int, i + k) != pat@.take(k as int)) by {
                    if !same && s@.subrange(i as int, i + k) == pat@.take(k as int) {
                        assert(s@.subrange(i as int, i + k - 1) =~= s@.subrange(i as int, i + k).take(
                            k - 1,
                        ));
                        assert(pat@.take(k - 1) =~= pat@.take(k as int).take(k - 1));
                    }
                }
            }
        }
        assert(pat@.take(pat.len() as int) =~= pat@);
        if same {
            return Some(i);
        }
        i = i + 1;
    }
    None
}

/// Index of the first character at or after `i` (and before `hi`) that is not white space.
pub open spec fn skip_white_forward(s: Seq<char>, i: int, hi: int) -> int
    decreases hi - i,
{
    if i < hi && is_white_space(s[i]) {
        skip_white_forward(s, i + 1, hi)
    } else {
        i
    }
}

/// Index just after the last character before `j` (and at or after `lo`) that is not white space.
pub open spec fn skip_white_backward(s: Seq<char>, lo: int, j: int) -> int
    decreases j - lo,
{
    if lo < j && is_white_space(s[j - 1]) {
        skip_white_backward(s, lo, j - 1)
    } else {
        j
    }
}

/// `s` without leading and trailing white space, as `str::trim` returns it.
pub open spec fn trimmed(s: Seq<char>) -> Seq<char> {
    let a = skip_white_forward(s, 0, s.len() as int);
    s.subrange(a, skip_white_backward(s, a, s.len() as int))
}

pub proof fn lemma_skip_forward_bounds(s: Seq<char>, i: int, hi: int)
    requires
        i <= hi,
    ensures
        i <= skip_white_forward(s, i, hi) <= hi,
        forall|k: int| i <= k < skip_white_forward(s, i, hi) ==> is_white_space(#[trigger] s[k]),
        skip_white_forward(s, i, hi) < hi ==> !is_white_space(s[skip_white_forward(s, i, hi)]),
    decreases hi - i,
{
    if i < hi && is_white_space(s[i]) {
        lemma_skip_forward_bounds(s, i + 1, hi);
    }
}

pub proof fn lemma_skip_backward_bounds(s: Seq<char>, lo: int, j: int)
    requires
        lo <= j,
    ensures
        lo <= skip_white_backward(s, lo, j) <= j,
        forall|k: int| skip_white_backward(s, lo, j) <= k < j ==> is_white_space(#[trigger] s[k]),
        lo < skip_white_backward(s, lo, j) ==> !is_white_space(s[skip_white_backward(s, lo, j) - 1]),
    decreases j - lo,
{
    if lo < j && is_white_space(s[j - 1]) {
        lemma_skip_backward_bounds(s, lo, j - 1);
    }
}

/// The part of `s` strictly between positions `start` and `end`, as a new vector.
pub fn sub_chars(s: &Vec<char>, start: usize, end: usize) -> (r: Vec<char>)
    requires
        start <= end <= s.len(),
    ensures
        r@ == s@.subrange(start as int, end as int),
{
    let mut r: Vec<char> = Vec::new();
    let mut i = start;
    while i < end
        invariant
            start <= i <= end <= s.len(),
            r@ == s@.subrange(start as int, i as int),
        decreases end - i,
    {
        r.push(s[i]);
        i = i + 1;
    }
    r
}

/// Returns `s` without its leading and trailing white space.
pub fn trim_chars(s: &Vec<char>) -> (r: Vec<char>)
    ensures
        r@ == trimmed(s@),
{
    let mut a: usize = 0;
    while a < s.len() && char_is_white_space(s[a])
        invariant
            a <= s.len(),
            skip_white_forward(s@, 0, s.len() as int) == skip_white_forward(s@, a as int, s.len() as int),
        decreases s.len() - a,
    {
        a = a + 1;
    }
    let mut b: usize = s.len();
    while b > a && char_is_white_space(s[b - 1])
        invariant
            a <= b <= s.len(),
            skip_white_backward(s@, a as int, s.len() as int) == skip_white_backward(s@, a as int, b as int),
        decreases b - a,
    {
        b = b - 1;
    }
    sub_chars(s, a, b)
}

pub fn has_white_space_chars(s: &Vec<char>) -> (r: bool)
    ensures
        r == has_white_space(s@),
{
    let mut i: usize = 0;
    while i < s.len()
        invariant
            i <= s.len(),
            forall|k: int| 0 <= k < i ==> !is_white_space(#[trigger] s@[k]),
        decreases s.len() - i,
    {
        if char_is_white_space(s[i]) {
            return true;
        }
        i = i + 1;
    }
    false
}

pub fn contains_char_chars(s: &Vec<char>, c: char) -> (r: bool)
    ensures
        r == contains_char(s@, c),
{
    let mut i: usize = 0;
    while i < s.len()
        invariant
            i <= s.len(),
            forall|k: int| 0 <= k < i ==> s@[k] != c,
        decreases s.len() - i,
    {
        if s[i] == c {
            return true;
        }
        i = i + 1;
    }
    false
}

pub fn starts_with_chars(s: &Vec<char>, prefix: &Vec<char>) -> (r: bool)
    ensures
        r == starts_with(s@, prefix@),
{
    if prefix.len() > s.len() {
        return false;
    }
    let mut i: usize = 0;
    while i < prefix.len()
        invariant
            prefix.len() <= s.len(),
            i <= prefix.len(),
            forall|k: int| 0 <= k < i ==> s@[k] == prefix@[k],
        decreases prefix.len() - i,
    {
        if s[i] != prefix[i] {
            assert(s@.take(prefix.len() as int)[i as int] != prefix@[i as int]);
            return false;
        }
        i = i + 1;
    }
    assert(s@.take(prefix.len() as int) =~= prefix@);
    true
}

/// Whether two texts are the same, character for character.
pub fn same_text(a: &str, b: &str) -> (r: bool)
    ensures
        r == (a@ == b@),
{
    let x = chars_of(a);
    let y = chars_of(b);
    if x.len() != y.len() {
        return false;
    }
    let r = starts_with_chars(&x, &y);
    assert(x@.take(y@.len() as int) =~= x@);
    r
}

/// Whether `pat` occurs in `s` at index `pos`.
pub fn occurs_at_chars(s: &Vec<char>, pat: &Vec<char>, pos: usize) -> (r: bool)
    ensures
        r == occurs_at(s@, pat@, pos as int),
{
    if pos > s.len() || pat.len() > s.len() - pos {
        return false;
    }
    let mut i: usize = 0;
    while i < pat.len()
        invariant
            pos + pat.len() <= s.len(),
            i <= pat.len(),
            forall|k: int| 0 <= k < i ==> s@[pos + k] == pat@[k],
        decreases pat.len() - i,
    {
        if s[pos + i] != pat[i] {
            assert(s@.subrange(pos as int, pos + pat.len())[i as int] != pat@[i as int]);
            return false;
        }
        i = i + 1;
    }
    assert(s@.subrange(pos as int, pos + pat.len()) =~= pat@);
    true
}

pub assume_specification[ String::push ](s: &mut String, ch: char)
    ensures
        final(s)@ == old(s)@.push(ch),
;

/// Builds the string made of the characters `cs[start..end]`.
pub fn string_from_chars(cs: &Vec<char>, start: usize, end: usize) -> (s: String)
    requires
        start <= end <= cs.len(),
    ensures
        s@ == cs@.subrange(start as int, end as int),
{
    let mut s = String::new();
    let mut i = start;
    while i < end
        invariant
            start <= i <= end <= cs.len(),
            s@ == cs@.subrange(start as int, i as int),
        decreases end - i,
    {
        s.push(cs[i]);
        i = i + 1;
    }
    s
}

pub fn string_of(cs: &Vec<char>) -> (s: String)
    ensures
        s@ == cs@,
{
    let s = string_from_chars(cs, 0, cs.len());
    assert(cs@.subrange(0, cs.len() as int) =~= cs@);
    s
}

/// The characters of `s`, in order.
pub fn chars_of(s: &str) -> (cs: Vec<char>)
    ensures
        cs@ == s@,
{
    let mut cs: Vec<char> = Vec::new();
    for c in it: s.chars()
        invariant
            cs@ == it.seq().take(it.index() as int),
    {
        cs.push(c);
    }
    cs
}

pub open spec fn digit_char(d: nat) -> char
    recommends
        d < 10,
{
    if d == 0 { '0' }
    else if d == 1 { '1' }
    else if d == 2 { '2' }
    else if d == 3 { '3' }
    else if d == 4 { '4' }
    else if d == 5 { '5' }
    else if d == 6 { '6' }
    else if d == 7 { '7' }
    else if d == 8 { '8' }
    else { '9' }
}

/// The decimal representation of `n`, without sign or leading zeros.
pub open spec fn decimal(n: nat) -> Seq<char>
    decreases n,
{
    if n < 10 {
        seq![digit_char(n)]
    } else {
        decimal(n / 10).push(digit_char(n % 10))
    }
}

fn digit_of(d: u64) -> (c: char)
    requires
        d < 10,
    ensures
        c == digit_char(d as nat),
{
    if d == 0 { '0' }
    else if d == 1 { '1' }
    else if d == 2 { '2' }
    else if d == 3 { '3' }
    else if d == 4 { '4' }
    else if d == 5 { '5' }
    else if d == 6 { '6' }
    else if d == 7 { '7' }
    else if d == 8 { '8' }
    else { '9' }
}

/// Appends the decimal digits of `n` to `s`.
pub fn push_decimal(s: &mut String, n: u64)
    ensures
        final(s)@ == old(s)@ + decimal(n as nat),
    decreases n,
{
    if n >= 10 {
        push_decimal(s, n / 10);
    }
    s.push(digit_of(n % 10));
}

} // verus!
