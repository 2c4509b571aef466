//! Character-level helpers shared by the generators: decimal rendering,
//! substring search, and the few `std` string operations that vstd leaves
//! unspecified.
use vstd::prelude::*;
use vstd::string::*;
use vstd::utf8::{encode_scalar, encode_utf8};

verus! {

/// The character of a decimal digit.
pub open spec fn digit_char(d: nat) -> char {
    if d == 0 { '0' }
    else if d == 1 { '1' }
    else if d == 2 { '2' }
    else if d == 3 { '3' }
    else if d == 4 { '4' }
    else if d == 5 { '5' }
    else if d == 6 { '6' }
    else if d == 7 { '7' }
    else if d == 8 { '8' }
    else { '9' }
}

/// The decimal rendering of a natural number, without leading zeros.
pub open spec fn decimal(n: nat) -> Seq<char>
    decreases n,
{
    if n < 10 {
        seq![digit_char(n)]
    } else {
        decimal(n / 10).push(digit_char(n % 10))
    }
}

pub fn digit(d: u64) -> (c: char)
    requires
        d < 10,
    ensures
        c == digit_char(d as nat),
{
    if d == 0 { '0' }
    else if d == 1 { '1' }
    else if d == 2 { '2' }
    else if d == 3 { '3' }
    else if d == 4 { '4' }
    else if d == 5 { '5' }
    else if d == 6 { '6' }
    else if d == 7 { '7' }
    else if d == 8 { '8' }
    else { '9' }
}

/// Appends one character: `String::push`.
#[verifier::external_body]
pub(crate) fn push_char(s: &mut String, c: char)
    ensures
        final(s)@ == old(s)@.push(c),
{
    s.push(c);
}

/// Appends the decimal rendering of `n` to `s`.
pub fn push_decimal(s: &mut String, n: u64)
    ensures
        final(s)@ == old(s)@ + decimal(n as nat),
    decreases n,
{
    if n < 10 {
        push_char(s, digit(n));
    } else {
        push_decimal(s, n / 10);
        push_char(s, digit(n % 10));
    }
}

/// The decimal rendering of `n` as a new string.
pub fn decimal_string(n: u64) -> (s: String)
    ensures
        s@ == decimal(n as nat),
{
    let mut s = String::new();
    push_decimal(&mut s, n);
    s
}

/// An ASCII character, `'\0'..='\x7f'`.
pub open spec fn is_ascii_char(c: char) -> bool {
    c <= '\u{7f}'
}

/// Every character of the text is ASCII.
pub open spec fn is_ascii_text(s: Seq<char>) -> bool {
    forall|i: int| 0 <= i < s.len() ==> is_ascii_char(#[trigger] s[i])
}

/// An ASCII uppercase letter, `'A'..='Z'`.
pub open spec fn is_ascii_upper(c: char) -> bool {
    'A' <= c && c <= 'Z'
}

/// An ASCII lowercase letter, `'a'..='z'`.
pub open spec fn is_ascii_lower(c: char) -> bool {
    'a' <= c && c <= 'z'
}

/// The ASCII lowercase of a character: `'A'..='Z'` moved to `'a'..='z'`,
/// every other character unchanged.
pub open spec fn ascii_lower(c: char) -> char {
    if is_ascii_upper(c) {
        ((c as u32) + 32) as char
    } else {
        c
    }
}

/// What `str::to_lowercase` returns for a text that is not all ASCII: the
/// Unicode lowercase mapping.
pub uninterp spec fn unicode_lowercase(s: Seq<char>) -> Seq<char>;

/// What `str::to_lowercase` returns: on an ASCII text the ASCII letters
/// lowercased one by one and every other character kept; otherwise the
/// Unicode lowercase mapping, which is not restated.
pub open spec fn spec_lowercase(s: Seq<char>) -> Seq<char> {
    if is_ascii_text(s) {
        s.map_values(|c: char| ascii_lower(c))
    } else {
        unicode_lowercase(s)
    }
}

/// `str::to_lowercase`. The contract states the ASCII case (the Unicode
/// lowercase of `A`..`Z` is `a`..`z`, and other ASCII characters have no
/// lowercase mapping); for other texts it only names the result, as a
/// function of the characters of the argument.
#[verifier::external_body]
pub(crate) fn lowercase(s: &str) -> (res: String)
    ensures
        res@ == spec_lowercase(s@),
        !is_ascii_text(s@) ==> res@ == unicode_lowercase(s@),
{
    s.to_lowercase()
}

/// An ASCII letter or digit.
pub open spec fn is_ascii_alnum(c: char) -> bool {
    is_ascii_lower(c) || is_ascii_upper(c) || is_ascii_digit_char(c)
}

/// What `char::is_alphanumeric` returns for a non-ASCII character: whether
/// it is alphabetic or numeric in the Unicode tables.
pub uninterp spec fn unicode_alphanumeric(c: char) -> bool;

/// What `char::is_alphanumeric` returns: on ASCII, exactly the letters and
/// digits (the only ASCII characters that are Alphabetic or Numeric in
/// Unicode); otherwise the Unicode tables, which are not restated.
pub open spec fn spec_is_alphanumeric(c: char) -> bool {
    if is_ascii_char(c) {
        is_ascii_alnum(c)
    } else {
        unicode_alphanumeric(c)
    }
}

/// `char::is_alphanumeric`. The contract states the ASCII case; for other
/// characters it only names the result, as a function of the character.
#[verifier::external_body]
pub(crate) fn is_alphanumeric(c: char) -> (b: bool)
    ensures
        b == spec_is_alphanumeric(c),
        !is_ascii_char(c) ==> b == unicode_alphanumeric(c),
{
    c.is_alphanumeric()
}

/// An ASCII decimal digit, `'0'..='9'`.
pub open spec fn is_ascii_digit_char(c: char) -> bool {
    '0' <= c && c <= '9'
}

pub fn is_ascii_digit(c: char) -> (b: bool)
    ensures
        b == is_ascii_digit_char(c),
{
    '0' <= c && c <= '9'
}

/// `pat` occurs in `s` at position `i`.
pub open spec fn occurs_at(s: Seq<char>, pat: Seq<char>, i: int) -> bool {
    0 <= i && i + pat.len() <= s.len() && s.subrange(i, i + pat.len()) == pat
}

/// `pat` occurs somewhere in `s` (the meaning of `str::contains` for a string pattern).
pub open spec fn has_substring(s: Seq<char>, pat: Seq<char>) -> bool {
    exists|i: int| occurs_at(s, pat, i)
}

/// The characters of a string slice, one by one.
pub fn chars_of(s: &str) -> (v: Vec<char>)
    ensures
        v@ == s@,
{
    let n = s.unicode_len();
    let mut v: Vec<char> = Vec::new();
    let mut i: usize = 0;
    while i < n
        invariant
            n == s@.len(),
            i <= n,
            v@ == s@.subrange(0, i as int),
        decreases n - i,
    {
        let c = s.get_char(i);
        v.push(c);
        i = i + 1;
        assert(v@ =~= s@.subrange(0, i as int));
    }
    assert(v@ =~= s@);
    v
}

/// A string made of the given characters.
pub fn string_from_chars(v: &Vec<char>) -> (s: String)
    ensures
        s@ == v@,
{
    let mut s = String::new();
    let mut i: usize = 0;
    while i < v.len()
        invariant
            i <= v.len(),
            s@ == v@.subrange(0, i as int),
        decreases v.len() - i,
    {
        push_char(&mut s, v[i]);
        i = i + 1;
        assert(s@ =~= v@.subrange(0, i as int));
    }
    assert(s@ =~= v@);
    s
}

/// Whether `pat` occurs at position `i` of `s`.
pub fn occurs_at_exec(s: &Vec<char>, pat: &Vec<char>, i: usize) -> (b: bool)
    ensures
        b == occurs_at(s@, pat@, i as int),
{
    if i > s.len() || pat.len() > s.len() - i {
        return false;
    }
    let mut j: usize = 0;
    while j < pat.len()
        invariant
            i + pat.len() <= s.len(),
            j <= pat.len(),
            forall|k: int| 0 <= k < j ==> s@[i + k] == pat@[k],
        decreases pat.len() - j,
    {
        if s[i + j] != pat[j] {
            assert(s@.subrange(i as int, i + pat@.len())[j as int] != pat@[j as int]);
            return false;
        }
        j = j + 1;
    }
    assert(s@.subrange(i as int, i + pat@.len()) =~= pat@);
    true
}

/// `str::contains` with a string pattern, over characters.
pub fn contains_chars(s: &Vec<char>, pat: &Vec<char>) -> (b: bool)
    ensures
        b == has_substring(s@, pat@),
{
    if pat.len() > s.len() {
        assert forall|k: int| !occurs_at(s@, pat@, k) by {}
        return false;
    }
    let last = s.len() - pat.len();
    let mut i: usize = 0;
    loop
        invariant
            last == s.len() - pat.len(),
            i <= last,
            forall|k: int| 0 <= k < i ==> !occurs_at(s@, pat@, k),
        decreases last - i,
    {
        if occurs_at_exec(s, pat, i) {
            return true;
        }
        if i == last {
            assert forall|k: int| !occurs_at(s@, pat@, k) by {
                if 0 <= k && k + pat@.len() <= s@.len() {
                    assert(k <= i);
                }
            }
            return false;
        }
        i = i + 1;
    }
}

/// `str::contains` with a string pattern.
pub fn contains_str(s: &str, pat: &str) -> (b: bool)
    ensures
        b == has_substring(s@, pat@),
{
    let sv = chars_of(s);
    let pv = chars_of(pat);
    contains_chars(&sv, &pv)
}

/// Every character that is not alphanumeric replaced by `ch`.
pub open spec fn replace_non_alnum(s: Seq<char>, ch: char) -> Seq<char> {
    s.map_values(|c: char| if spec_is_alphanumeric(c) { c } else { ch })
}

/// `s` without the characters `ch` that directly follow another `ch`: every
/// run of `ch` shortened to a single `ch`.
pub open spec fn collapse_runs(s: Seq<char>, ch: char) -> Seq<char>
    decreases s.len(),
{
    if s.len() == 0 {
        s
    } else {
        let rest = collapse_runs(s.drop_last(), ch);
        if s.len() >= 2 && s.last() == ch && s[s.len() - 2] == ch {
            rest
        } else {
            rest.push(s.last())
        }
    }
}

/// `s` without its leading characters equal to `ch`.
pub open spec fn strip_leading_char(s: Seq<char>, ch: char) -> Seq<char>
    decreases s.len(),
{
    if s.len() > 0 && s[0] == ch {
        strip_leading_char(s.drop_first(), ch)
    } else {
        s
    }
}

pub fn strip_leading_char_exec(s: &Vec<char>, ch: char) -> (r: Vec<char>)
    ensures
        r@ == strip_leading_char(s@, ch),
{
    let mut i: usize = 0;
    assert(s@.subrange(0, s@.len() as int) =~= s@);
    while i < s.len() && s[i] == ch
        invariant
            i <= s.len(),
            strip_leading_char(s@, ch) == strip_leading_char(s@.subrange(i as int, s@.len() as int), ch),
        decreases s.len() - i,
    {
        assert(s@.subrange(i as int, s@.len() as int).drop_first() =~= s@.subrange(i + 1, s@.len() as int));
        i = i + 1;
    }
    suffix_from(s, i)
}

/// `s` without its trailing characters equal to `ch`.
pub open spec fn strip_trailing(s: Seq<char>, ch: char) -> Seq<char>
    decreases s.len(),
{
    if s.len() > 0 && s.last() == ch {
        strip_trailing(s.drop_last(), ch)
    } else {
        s
    }
}

pub fn replace_non_alnum_exec(s: &Vec<char>, ch: char) -> (r: Vec<char>)
    ensures
        r@ == replace_non_alnum(s@, ch),
{
    let mut r: Vec<char> = Vec::new();
    let mut i: usize = 0;
    while i < s.len()
        invariant
            i <= s.len(),
            r@.len() == i,
            forall|j: int| 0 <= j < i ==> r@[j] == (if spec_is_alphanumeric(s@[j]) { s@[j] } else { ch }),
        decreases s.len() - i,
    {
        let c = s[i];
        if is_alphanumeric(c) {
            r.push(c);
        } else {
            r.push(ch);
        }
        i = i + 1;
    }
    assert(r@ =~= replace_non_alnum(s@, ch));
    r
}

pub fn collapse_runs_exec(s: &Vec<char>, ch: char) -> (r: Vec<char>)
    ensures
        r@ == collapse_runs(s@, ch),
{
    let mut r: Vec<char> = Vec::new();
    let mut i: usize = 0;
    while i < s.len()
        invariant
            i <= s.len(),
            r@ == collapse_runs(s@.subrange(0, i as int), ch),
        decreases s.len() - i,
    {
        let ghost prefix = s@.subrange(0, i + 1);
        assert(prefix.drop_last() =~= s@.subrange(0, i as int));
        if i >= 1 && s[i] == ch && s[i - 1] == ch {
            assert(prefix[prefix.len() - 2] == s@[i - 1]);
        } else {
            r.push(s[i]);
        }
        i = i + 1;
    }
    assert(s@.subrange(0, s@.len() as int) =~= s@);
    r
}

/// The characters of `s` from position `start` on.
pub fn suffix_from(s: &Vec<char>, start: usize) -> (r: Vec<char>)
    requires
        start <= s.len(),
    ensures
        r@ == s@.subrange(start as int, s@.len() as int),
{
    let mut r: Vec<char> = Vec::new();
    let mut i: usize = start;
    while i < s.len()
        invariant
            start <= i <= s.len(),
            r@ == s@.subrange(start as int, i as int),
        decreases s.len() - i,
    {
        r.push(s[i]);
        i = i + 1;
        assert(r@ =~= s@.subrange(start as int, i as int));
    }
    r
}

/// The first `end` characters of `s`.
pub fn prefix_to(s: &Vec<char>, end: usize) -> (r: Vec<char>)
    requires
        end <= s.len(),
    ensures
        r@ == s@.subrange(0, end as int),
{
    let mut r: Vec<char> = Vec::new();
    let mut i: usize = 0;
    while i < end
        invariant
            i <= end <= s.len(),
            r@ == s@.subrange(0, i as int),
        decreases end - i,
    {
        r.push(s[i]);
        i = i + 1;
        assert(r@ =~= s@.subrange(0, i as int));
    }
    r
}

pub fn strip_trailing_exec(s: &Vec<char>, ch: char) -> (r: Vec<char>)
    ensures
        r@ == strip_trailing(s@, ch),
{
    let mut j: usize = s.len();
    assert(s@.subrange(0, j as int) =~= s@);
    while j > 0 && s[j - 1] == ch
        invariant
            j <= s.len(),
            strip_trailing(s@, ch) == strip_trailing(s@.subrange(0, j as int), ch),
        decreases j,
    {
        assert(s@.subrange(0, j as int).drop_last() =~= s@.subrange(0, j - 1));
        j = j - 1;
    }
    prefix_to(s, j)
}

/// Whether two strings hold the same characters.
pub fn str_eq(a: &str, b: &str) -> (r: bool)
    ensures
        r == (a@ == b@),
{
    let n = a.unicode_len();
    if n != b.unicode_len() {
        return false;
    }
    let mut i: usize = 0;
    while i < n
        invariant
            n == a@.len(),
            n == b@.len(),
            i <= n,
            forall|j: int| 0 <= j < i ==> a@[j] == b@[j],
        decreases n - i,
    {
        if a.get_char(i) != b.get_char(i) {
            return false;
        }
        i = i + 1;
    }
    assert(a@ =~= b@);
    true
}

/// Whether a character has the Unicode `White_Space` property, which
/// `char::is_whitespace` tests: tab to carriage return, space, next line,
/// no-break space, ogham space mark, the spaces from en quad to hair space,
/// line and paragraph separators, narrow no-break space, medium mathematical
/// space and ideographic space.
pub open spec fn spec_is_whitespace(c: char) -> bool {
    ||| '\u{9}' <= c && c <= '\u{d}'
    ||| c == ' '
    ||| c == '\u{85}'
    ||| c == '\u{a0}'
    ||| c == '\u{1680}'
    ||| '\u{2000}' <= c && c <= '\u{200a}'
    ||| c == '\u{2028}'
    ||| c == '\u{2029}'
    ||| c == '\u{202f}'
    ||| c == '\u{205f}'
    ||| c == '\u{3000}'
}

/// Whether a character is whitespace, as `char::is_whitespace` answers.
pub fn is_whitespace(c: char) -> (b: bool)
    ensures
        b == spec_is_whitespace(c),
{
    ('\u{9}' <= c && c <= '\u{d}') || c == ' ' || c == '\u{85}' || c == '\u{a0}' || c == '\u{1680}'
        || ('\u{2000}' <= c && c <= '\u{200a}') || c == '\u{2028}' || c == '\u{2029}' || c == '\u{202f}'
        || c == '\u{205f}' || c == '\u{3000}'
}

/// The text is empty once whitespace is trimmed from both ends, that is,
/// every character of it is whitespace.
pub open spec fn is_blank(s: Seq<char>) -> bool {
    forall|i: int| 0 <= i < s.len() ==> spec_is_whitespace(#[trigger] s[i])
}

/// Whether `s.trim()` is empty.
pub fn blank(s: &str) -> (b: bool)
    ensures
        b == is_blank(s@),
{
    let n = s.unicode_len();
    let mut i: usize = 0;
    while i < n
        invariant
            n == s@.len(),
            i <= n,
            forall|j: int| 0 <= j < i ==> spec_is_whitespace(#[trigger] s@[j]),
        decreases n - i,
    {
        if !is_whitespace(s.get_char(i)) {
            return false;
        }
        i = i + 1;
    }
    true
}

/// The number of UTF-8 bytes of a character.
pub fn utf8_width(c: char) -> (w: usize)
    ensures
        w == encode_scalar(c as u32).len(),
        1 <= w <= 4,
{
    let v = c as u32;
    if v <= 0x7f {
        1
    } else if v <= 0x7ff {
        2
    } else if v <= 0xffff {
        3
    } else {
        4
    }
}

/// The smaller of `a` and `b`.
pub open spec fn min_nat(a: nat, b: nat) -> nat {
    if a < b {
        a
    } else {
        b
    }
}

/// Whether the UTF-8 encoding of `s` (what `str::len` counts) is longer
/// than `limit` bytes.
pub fn utf8_len_exceeds(s: &str, limit: usize) -> (b: bool)
    requires
        limit < 0x1_0000,
    ensures
        b == (encode_utf8(s@).len() > limit),
{
    let n = s.unicode_len();
    let mut capped: usize = 0;
    let mut i: usize = n;
    assert(s@.subrange(n as int, n as int) =~= Seq::<char>::empty());
    while i > 0
        invariant
            i <= n,
            n == s@.len(),
            limit < 0x1_0000,
            capped == min_nat(encode_utf8(s@.subrange(i as int, n as int)).len(), (limit + 1) as nat),
        decreases i,
    {
        let w = utf8_width(s.get_char(i - 1));
        assert(s@.subrange(i - 1, n as int).drop_first() =~= s@.subrange(i as int, n as int));
        if capped + w > limit {
            capped = limit + 1;
        } else {
            capped = capped + w;
        }
        i = i - 1;
    }
    assert(s@.subrange(0, n as int) =~= s@);
    capped > limit
}

/// No two neighbouring characters of `s` are both `ch`.
pub open spec fn no_double(s: Seq<char>, ch: char) -> bool {
    forall|i: int, j: int|
        #![trigger s[i], s[j]]
        0 <= i && j == i + 1 && j < s.len() ==> !(s[i] == ch && s[j] == ch)
}

/// Every character of `r` occurs in `s`.
pub open spec fn chars_within(r: Seq<char>, s: Seq<char>) -> bool {
    forall|i: int| 0 <= i < r.len() ==> s.contains(#[trigger] r[i])
}

pub proof fn lemma_collapse_runs(s: Seq<char>, ch: char)
    ensures
        collapse_runs(s, ch).len() == 0 <==> s.len() == 0,
        s.len() > 0 ==> collapse_runs(s, ch)[0] == s[0] && collapse_runs(s, ch).last() == s.last(),
        chars_within(collapse_runs(s, ch), s),
        no_double(collapse_runs(s, ch), ch),
        no_double(s, ch) ==> collapse_runs(s, ch) == s,
    decreases s.len(),
{
    if s.len() > 0 {
        let t = s.drop_last();
        lemma_collapse_runs(t, ch);
        let rest = collapse_runs(t, ch);
        assert forall|i: int| 0 <= i < rest.len() implies s.contains(#[trigger] rest[i]) by {
            let j = choose|j: int| 0 <= j < t.len() && t[j] == rest[i];
            assert(s[j] == rest[i]);
        }
        assert(s.contains(s.last()) && s[s.len() - 1] == s.last());
        if s.len() >= 2 && s.last() == ch && s[s.len() - 2] == ch {
            assert(!no_double(s, ch) ==> true);
            if no_double(s, ch) {
                assert(!(s[s.len() - 2] == ch && s[s.len() - 1] == ch));
            }
        } else {
            let r = rest.push(s.last());
            assert forall|i: int| 0 <= i < r.len() implies s.contains(#[trigger] r[i]) by {
                if i < rest.len() {
                    assert(r[i] == rest[i]);
                }
            }
            assert forall|i: int, j: int| #![trigger r[i], r[j]] 0 <= i && j == i + 1 && j < r.len() implies !(r[i] == ch && r[j] == ch) by {
                if j < rest.len() {
                    assert(r[i] == rest[i] && r[j] == rest[j]);
                } else {
                    assert(r[i] == rest.last());
                }
            }
            if no_double(s, ch) {
                assert forall|i: int, j: int| #![trigger t[i], t[j]] 0 <= i && j == i + 1 && j < t.len() implies !(t[i] == ch && t[j] == ch) by {
                    assert(t[i] == s[i] && t[j] == s[j]);
                }
                assert(rest == t);
                assert(r =~= s);
            }
            if s.len() == 1 {
                assert(r =~= seq![s[0]]);
            }
        }
    }
}

/// Stripping leading characters leaves a suffix, which starts with another
/// character when anything is left.
pub proof fn lemma_strip_leading_char(s: Seq<char>, ch: char) -> (k: int)
    ensures
        0 <= k <= s.len(),
        strip_leading_char(s, ch) == s.subrange(k, s.len() as int),
        k < s.len() ==> s[k] != ch,
        forall|i: int| 0 <= i < k ==> s[i] == ch,
    decreases s.len(),
{
    if s.len() > 0 && s[0] == ch {
        let k1 = lemma_strip_leading_char(s.drop_first(), ch);
        assert(s.drop_first().subrange(k1, s.len() - 1) =~= s.subrange(k1 + 1, s.len() as int));
        assert forall|i: int| 0 <= i < k1 + 1 implies s[i] == ch by {
            if i > 0 {
                assert(s[i] == s.drop_first()[i - 1]);
            }
        }
        k1 + 1
    } else {
        assert(s.subrange(0, s.len() as int) =~= s);
        0
    }
}

/// Stripping trailing characters leaves a prefix, which ends with another
/// character when anything is left.
pub proof fn lemma_strip_trailing(s: Seq<char>, ch: char) -> (k: int)
    ensures
        0 <= k <= s.len(),
        strip_trailing(s, ch) == s.subrange(0, k),
        k > 0 ==> s[k - 1] != ch,
        forall|i: int| k <= i < s.len() ==> s[i] == ch,
    decreases s.len(),
{
    if s.len() > 0 && s.last() == ch {
        let k1 = lemma_strip_trailing(s.drop_last(), ch);
        assert(s.drop_last().subrange(0, k1) =~= s.subrange(0, k1));
        assert forall|i: int| k1 <= i < s.len() implies s[i] == ch by {
            if i < s.len() - 1 {
                assert(s[i] == s.drop_last()[i]);
            }
        }
        k1
    } else {
        assert(s.subrange(0, s.len() as int) =~= s);
        s.len() as int
    }
}

/// A part of a text without doubled `ch` has none either.
pub proof fn lemma_no_double_subrange(s: Seq<char>, ch: char, a: int, b: int)
    requires
        0 <= a <= b <= s.len(),
        no_double(s, ch),
    ensures
        no_double(s.subrange(a, b), ch),
        chars_within(s.subrange(a, b), s),
{
    let r = s.subrange(a, b);
    assert forall|i: int, j: int| #![trigger r[i], r[j]] 0 <= i && j == i + 1 && j < r.len() implies !(r[i] == ch && r[j] == ch) by {
        assert(r[i] == s[a + i] && r[j] == s[a + j]);
    }
    assert forall|i: int| 0 <= i < r.len() implies s.contains(#[trigger] r[i]) by {
        assert(r[i] == s[a + i]);
    }
}

/// The texts joined in order.
pub open spec fn joined_texts(s: Seq<Seq<char>>) -> Seq<char>
    decreases s.len(),
{
    if s.len() == 0 {
        Seq::empty()
    } else {
        joined_texts(s.drop_last()) + s.last()
    }
}

} // verus!
