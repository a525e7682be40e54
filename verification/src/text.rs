//! Character-level primitives shared by the parsers.

use vstd::prelude::*;
use vstd::slice::slice_subrange;

verus! {

/// The characters that carry the Unicode `White_Space` property.
pub open spec fn is_space(c: char) -> bool {
    let n = c as u32;
    ||| 0x09 <= n <= 0x0d
    ||| n == 0x20
    ||| n == 0x85
    ||| n == 0xa0
    ||| n == 0x1680
    ||| 0x2000 <= n <= 0x200a
    ||| n == 0x2028
    ||| n == 0x2029
    ||| n == 0x202f
    ||| n == 0x205f
    ||| n == 0x3000
}

/// Tells whether `c` is a white-space character.
pub fn char_is_space(c: char) -> (b: bool)
    ensures
        b == is_space(c),
{
    let n: u32 = c as u32;
    (0x09 <= n && n <= 0x0d) || n == 0x20 || n == 0x85 || n == 0xa0 || n == 0x1680 || (0x2000 <= n
        && n <= 0x200a) || n == 0x2028 || n == 0x2029 || n == 0x202f || n == 0x205f || n == 0x3000
}

/// Whether a character beyond ASCII is a letter or a number in the Unicode
/// tables that the standard library carries.
pub uninterp spec fn alphanumeric_beyond_ascii(c: char) -> bool;

/// Letters and digits: in ASCII `0-9`, `A-Z` and `a-z`, beyond it whatever
/// the Unicode tables say, which is never a white-space character.
pub open spec fn is_alnum(c: char) -> bool {
    let n = c as u32;
    if n < 0x80 {
        ('0' <= c <= '9') || ('A' <= c <= 'Z') || ('a' <= c <= 'z')
    } else {
        alphanumeric_beyond_ascii(c) && !is_space(c)
    }
}

/// `char::is_alphanumeric`: true for a character with the Unicode property
/// Alphabetic or a number category. Within ASCII these are exactly the
/// digits and the letters; for the rest the result is a fixed table that is
/// only named here, and of which one thing is claimed: no character with
/// the property `White_Space` is in it.
pub assume_specification[ char::is_alphanumeric ](c: char) -> (b: bool)
    ensures
        b == is_alnum(c),
        (c as u32) >= 0x80 ==> b == (alphanumeric_beyond_ascii(c) && !is_space(c)),
;

/// `String::push`: appends one character to the end of the string.
pub assume_specification[ String::push ](s: &mut String, c: char)
    ensures
        final(s)@ == old(s)@.push(c),
;

/// The characters of `s`, in order.
pub fn to_chars(s: &str) -> (v: Vec<char>)
    ensures
        v@ == s@,
{
    let mut v: Vec<char> = Vec::new();
    for c in it: s.chars()
        invariant
            v@ == it.seq().take(it.index() as int),
            it.seq() == s@,
    {
        v.push(c);
    }
    v
}

/// A string made of the characters of `v`.
pub fn from_chars(v: &[char]) -> (s: String)
    ensures
        s@ == v@,
{
    let mut s = String::new();
    let mut i: usize = 0;
    while i < v.len()
        invariant
            i <= v.len(),
            s@ == v@.take(i as int),
        decreases v.len() - i,
    {
        s.push(v[i]);
        i += 1;
    }
    s
}

/// Whether the characters of `s` are those of `lit`.
pub fn chars_are(s: &[char], lit: &str) -> (b: bool)
    ensures
        b == (s@ == lit@),
{
    let w = to_chars(lit);
    if s.len() != w.len() {
        return false;
    }
    let mut i: usize = 0;
    while i < s.len()
        invariant
            i <= s.len(),
            s.len() == w.len(),
            w@ == lit@,
            forall|j: int| 0 <= j < i ==> s@[j] == w@[j],
        decreases s.len() - i,
    {
        if s[i] != w[i] {
            return false;
        }
        i += 1;
    }
    assert(s@ =~= w@);
    true
}

/// Appends the characters of `v` to `out`.
pub fn push_chars(out: &mut String, v: &[char])
    ensures
        final(out)@ == old(out)@ + v@,
{
    let mut i: usize = 0;
    while i < v.len()
        invariant
            i <= v.len(),
            out@ == old(out)@ + v@.take(i as int),
        decreases v.len() - i,
    {
        out.push(v[i]);
        i += 1;
        assert(v@.take(i as int) =~= v@.take(i - 1).push(v@[i - 1]));
        assert(out@ =~= old(out)@ + v@.take(i as int));
    }
    assert(v@.take(i as int) =~= v@);
}

/// The first index at or after `i` at which `c` stands in `s`; the length of
/// `s` where there is none.
pub open spec fn find_from(s: Seq<char>, c: char, i: int) -> int
    decreases s.len() - i,
{
    if i < 0 || i >= s.len() {
        s.len() as int
    } else if s[i] == c {
        i
    } else {
        find_from(s, c, i + 1)
    }
}

/// What `find_from` finds is the first occurrence.
pub proof fn lemma_find_from(s: Seq<char>, c: char, i: int)
    requires
        0 <= i <= s.len(),
    ensures
        i <= find_from(s, c, i) <= s.len(),
        find_from(s, c, i) < s.len() ==> s[find_from(s, c, i)] == c,
        forall|j: int| i <= j < find_from(s, c, i) ==> s[j] != c,
    decreases s.len() - i,
{
    if i < s.len() && s[i] != c {
        lemma_find_from(s, c, i + 1);
    }
}

/// An index that holds `c` with none before it is what `find_from` finds.
pub proof fn lemma_find_from_is(s: Seq<char>, c: char, i: int, k: int)
    requires
        0 <= i <= k <= s.len(),
        k < s.len() ==> s[k] == c,
        forall|j: int| i <= j < k ==> s[j] != c,
    ensures
        find_from(s, c, i) == k,
    decreases k - i,
{
    if i < k {
        lemma_find_from_is(s, c, i + 1, k);
    }
}

/// The first index of `c` in `s`, or the length of `s`.
pub fn find_char(s: &[char], c: char) -> (r: usize)
    ensures
        r == find_from(s@, c, 0),
        r <= s.len(),
{
    let mut i: usize = 0;
    while i < s.len() && s[i] != c
        invariant
            i <= s.len(),
            find_from(s@, c, 0) == find_from(s@, c, i as int),
        decreases s.len() - i,
    {
        i += 1;
    }
    i
}

/// The two parts of `s` around the first `c`, which is dropped.
pub open spec fn split_once(s: Seq<char>, c: char) -> Option<(Seq<char>, Seq<char>)> {
    let i = find_from(s, c, 0);
    if i < s.len() {
        Some((s.subrange(0, i), s.subrange(i + 1, s.len() as int)))
    } else {
        None
    }
}

/// One past the last index below `j` at which `c` stands in `s`; 0 where
/// there is none.
pub open spec fn rfind_end(s: Seq<char>, c: char, j: int) -> int
    decreases j,
{
    if j <= 0 || j > s.len() {
        0
    } else if s[j - 1] == c {
        j
    } else {
        rfind_end(s, c, j - 1)
    }
}

/// One past the last index of `c` in `s`, or 0.
pub fn rfind_char_end(s: &[char], c: char) -> (r: usize)
    ensures
        r == rfind_end(s@, c, s@.len() as int),
        r <= s.len(),
{
    let mut j: usize = s.len();
    while j > 0 && s[j - 1] != c
        invariant
            j <= s.len(),
            rfind_end(s@, c, s@.len() as int) == rfind_end(s@, c, j as int),
        decreases j,
    {
        j -= 1;
    }
    j
}

/// The two parts of `s` around the last `c`, which is dropped.
pub open spec fn rsplit_once(s: Seq<char>, c: char) -> Option<(Seq<char>, Seq<char>)> {
    let j = rfind_end(s, c, s.len() as int);
    if j > 0 {
        Some((s.subrange(0, j - 1), s.subrange(j, s.len() as int)))
    } else {
        None
    }
}

/// The first index at or after `i` that holds no white space.
pub open spec fn skip_spaces(s: Seq<char>, i: int) -> int
    decreases s.len() - i,
{
    if 0 <= i < s.len() && is_space(s[i]) {
        skip_spaces(s, i + 1)
    } else {
        i
    }
}

/// The end of `s` once the white space before it, down to `lo`, is dropped.
pub open spec fn drop_spaces(s: Seq<char>, lo: int, j: int) -> int
    decreases j,
{
    if lo < j <= s.len() && j > 0 && is_space(s[j - 1]) {
        drop_spaces(s, lo, j - 1)
    } else {
        j
    }
}

/// `s` without the white space at its two ends.
pub open spec fn trim(s: Seq<char>) -> Seq<char> {
    let a = skip_spaces(s, 0);
    let b = drop_spaces(s, a, s.len() as int);
    s.subrange(a, b)
}

/// `s` has no white space at either end.
pub open spec fn is_trimmed(s: Seq<char>) -> bool {
    s.len() > 0 ==> !is_space(s[0]) && !is_space(s[s.len() - 1])
}

pub proof fn lemma_skip_spaces(s: Seq<char>, i: int)
    requires
        0 <= i <= s.len(),
    ensures
        i <= skip_spaces(s, i) <= s.len(),
        skip_spaces(s, i) < s.len() ==> !is_space(s[skip_spaces(s, i)]),
        forall|j: int| i <= j < skip_spaces(s, i) ==> is_space(s[j]),
    decreases s.len() - i,
{
    if i < s.len() && is_space(s[i]) {
        lemma_skip_spaces(s, i + 1);
    }
}

pub proof fn lemma_drop_spaces(s: Seq<char>, lo: int, j: int)
    requires
        0 <= lo <= j <= s.len(),
    ensures
        lo <= drop_spaces(s, lo, j) <= j,
        drop_spaces(s, lo, j) > lo ==> !is_space(s[drop_spaces(s, lo, j) - 1]),
        forall|k: int| drop_spaces(s, lo, j) <= k < j ==> is_space(s[k]),
    decreases j,
{
    if lo < j && is_space(s[j - 1]) {
        lemma_drop_spaces(s, lo, j - 1);
    }
}

/// What `trim` gives has no white space at its ends, and trimming it again
/// changes nothing.
pub proof fn lemma_trim(s: Seq<char>)
    ensures
        is_trimmed(trim(s)),
        trim(trim(s)) == trim(s),
{
    let a = skip_spaces(s, 0);
    lemma_skip_spaces(s, 0);
    lemma_drop_spaces(s, a, s.len() as int);
    lemma_trim_of_trimmed(trim(s));
}

/// Trimming leaves a string without white space at its ends as it is.
pub proof fn lemma_trim_of_trimmed(t: Seq<char>)
    requires
        is_trimmed(t),
    ensures
        trim(t) == t,
{
    assert(skip_spaces(t, 0) == 0);
    assert(drop_spaces(t, 0, t.len() as int) == t.len());
    assert(t.subrange(0, t.len() as int) =~= t);
}

/// Trimming drops white space put before a string without white space at
/// its ends.
pub proof fn lemma_trim_after_space(t: Seq<char>)
    requires
        is_trimmed(t),
    ensures
        trim(seq![' '] + t) == t,
{
    let s = seq![' '] + t;
    assert(is_space(s[0]));
    if t.len() == 0 {
        assert(skip_spaces(s, 1) == 1);
        assert(skip_spaces(s, 0) == 1);
        assert(drop_spaces(s, 1, 1) == 1);
        assert(s.subrange(1, 1) =~= t);
    } else {
        assert(s[1] == t[0]);
        assert(skip_spaces(s, 1) == 1);
        assert(skip_spaces(s, 0) == 1);
        assert(s[s.len() - 1] == t[t.len() - 1]);
        assert(drop_spaces(s, 1, s.len() as int) == s.len());
        assert(s.subrange(1, s.len() as int) =~= t);
    }
}

/// The part of `s` between the white space at its two ends.
pub fn trim_chars(s: &[char]) -> (r: &[char])
    ensures
        r@ == trim(s@),
{
    let mut a: usize = 0;
    while a < s.len() && char_is_space(s[a])
        invariant
            a <= s.len(),
            skip_spaces(s@, 0) == skip_spaces(s@, a as int),
        decreases s.len() - a,
    {
        a += 1;
    }
    let mut b: usize = s.len();
    while b > a && char_is_space(s[b - 1])
        invariant
            a <= b <= s.len(),
            drop_spaces(s@, a as int, s@.len() as int) == drop_spaces(s@, a as int, b as int),
        decreases b,
    {
        b -= 1;
    }
    slice_subrange(s, a, b)
}

/// `s` without one carriage return at its end.
pub open spec fn strip_cr(s: Seq<char>) -> Seq<char> {
    if s.len() > 0 && s[s.len() - 1] == '\r' {
        s.subrange(0, s.len() - 1)
    } else {
        s
    }
}

/// The first line of a text: what stands before the first line feed, less
/// a carriage return before it; the whole text where it holds no line
/// feed.
pub open spec fn first_line(s: Seq<char>) -> Seq<char> {
    let i = find_from(s, '\n', 0);
    if i < s.len() {
        strip_cr(s.subrange(0, i))
    } else {
        s
    }
}

/// What follows the first line and its line feed.
pub open spec fn after_first_line(s: Seq<char>) -> Seq<char> {
    let i = find_from(s, '\n', 0);
    if i < s.len() {
        s.subrange(i + 1, s.len() as int)
    } else {
        Seq::empty()
    }
}

/// The lines of a text. A line ends with a line feed, or with a carriage
/// return and a line feed; the last line may go without.
pub open spec fn lines(s: Seq<char>) -> Seq<Seq<char>>
    decreases s.len(),
{
    if s.len() == 0 {
        Seq::empty()
    } else {
        proof {
            lemma_find_from(s, '\n', 0);
        }
        seq![first_line(s)] + lines(after_first_line(s))
    }
}

/// A text that starts with a line that ends in a line feed splits there.
pub proof fn lemma_first_line(line: Seq<char>, rest: Seq<char>)
    requires
        forall|j: int| 0 <= j < line.len() ==> line[j] != '\n',
        line.len() > 0 ==> line[line.len() - 1] != '\r',
    ensures
        first_line(line + seq!['\n'] + rest) == line,
        after_first_line(line + seq!['\n'] + rest) == rest,
{
    let s = line + seq!['\n'] + rest;
    lemma_find_from_is(s, '\n', 0, line.len() as int);
    assert(s.subrange(0, line.len() as int) =~= line);
    assert(s.subrange(line.len() as int + 1, s.len() as int) =~= rest);
}

/// Cuts the first line off a text; of an empty text both parts are empty.
pub fn take_line<'a>(s: &'a [char]) -> (r: (&'a [char], &'a [char]))
    ensures
        r.0@ == first_line(s@),
        r.1@ == after_first_line(s@),
        s@.len() > 0 ==> r.1@.len() < s@.len(),
        s@.len() == 0 ==> r.0@.len() == 0 && r.1@.len() == 0,
{
    let i = find_char(s, '\n');
    if i < s.len() {
        let rest = slice_subrange(s, i + 1, s.len());
        if i > 0 && s[i - 1] == '\r' {
            assert(s@.subrange(0, i as int).subrange(0, i - 1) =~= s@.subrange(0, i - 1));
            (slice_subrange(s, 0, i - 1), rest)
        } else {
            (slice_subrange(s, 0, i), rest)
        }
    } else {
        (s, slice_subrange(s, s.len(), s.len()))
    }
}

/// The first index at or after `i` that holds white space, or the length.
pub open spec fn find_space(s: Seq<char>, i: int) -> int
    decreases s.len() - i,
{
    if 0 <= i < s.len() && !is_space(s[i]) {
        find_space(s, i + 1)
    } else {
        i
    }
}

pub proof fn lemma_find_space(s: Seq<char>, i: int)
    requires
        0 <= i <= s.len(),
    ensures
        i <= find_space(s, i) <= s.len(),
        find_space(s, i) < s.len() ==> is_space(s[find_space(s, i)]),
        forall|j: int| i <= j < find_space(s, i) ==> !is_space(s[j]),
    decreases s.len() - i,
{
    if i < s.len() && !is_space(s[i]) {
        lemma_find_space(s, i + 1);
    }
}

/// `s` holds no white space.
pub open spec fn no_space(s: Seq<char>) -> bool {
    forall|j: int| 0 <= j < s.len() ==> !is_space(#[trigger] s[j])
}

/// The words of `s`: the longest runs without white space, in order.
pub open spec fn words(s: Seq<char>) -> Seq<Seq<char>>
    decreases s.len(),
{
    let a = skip_spaces(s, 0);
    let b = find_space(s, a);
    if 0 <= a < b <= s.len() {
        seq![s.subrange(a, b)] + words(s.subrange(b, s.len() as int))
    } else {
        Seq::empty()
    }
}

/// Cuts the first word off `s`; `None` where `s` holds white space only.
pub fn take_word<'a>(s: &'a [char]) -> (r: Option<(&'a [char], &'a [char])>)
    ensures
        match r {
            Some((w, rest)) => {
                let a = skip_spaces(s@, 0);
                let b = find_space(s@, a);
                &&& 0 <= a < b <= s@.len()
                &&& w@ == s@.subrange(a, b)
                &&& rest@ == s@.subrange(b, s@.len() as int)
                &&& words(s@) == seq![w@] + words(rest@)
            },
            None => words(s@) == Seq::<Seq<char>>::empty(),
        },
{
    let mut a: usize = 0;
    while a < s.len() && char_is_space(s[a])
        invariant
            a <= s.len(),
            skip_spaces(s@, 0) == skip_spaces(s@, a as int),
        decreases s.len() - a,
    {
        a += 1;
    }
    let mut b: usize = a;
    while b < s.len() && !char_is_space(s[b])
        invariant
            a <= b <= s.len(),
            find_space(s@, a as int) == find_space(s@, b as int),
        decreases s.len() - b,
    {
        b += 1;
    }
    if a < b {
        Some((slice_subrange(s, a, b), slice_subrange(s, b, s.len())))
    } else {
        None
    }
}

/// The value of a decimal digit.
pub open spec fn digit_value(c: char) -> int {
    c as u32 - '0' as u32
}

/// Whether `c` is one of `0` to `9`.
pub open spec fn is_digit(c: char) -> bool {
    '0' <= c <= '9'
}

/// Why a text is no number.
#[derive(Clone, Copy, Debug, PartialEq, Eq, Structural)]
pub enum NumberError {
    /// The text is empty.
    Empty,
    /// A character is no digit, or a sign stands alone.
    InvalidDigit,
    /// The number does not fit.
    TooLarge,
}

/// Reads the digits of `s` from index `i` on, `acc` being the value of those
/// before: the first character that is no digit, or the first digit with
/// which the value passes `max`, ends the reading.
pub open spec fn read_digits(s: Seq<char>, i: int, acc: int, max: int) -> Result<int, NumberError>
    decreases s.len() - i,
{
    if i < 0 || i >= s.len() {
        Ok(acc)
    } else if !is_digit(s[i]) {
        Err(NumberError::InvalidDigit)
    } else if acc * 10 + digit_value(s[i]) > max {
        Err(NumberError::TooLarge)
    } else {
        read_digits(s, i + 1, acc * 10 + digit_value(s[i]), max)
    }
}

/// The number that a decimal text stands for: digits, with one `+` allowed
/// before them, and a value of at most `max`.
pub open spec fn parse_decimal(s: Seq<char>, max: int) -> Result<int, NumberError> {
    if s.len() == 0 {
        Err(NumberError::Empty)
    } else if s.len() == 1 && (s[0] == '+' || s[0] == '-') {
        Err(NumberError::InvalidDigit)
    } else if s[0] == '+' {
        read_digits(s, 1, 0, max)
    } else {
        read_digits(s, 0, 0, max)
    }
}

/// Reads a decimal number that fits a `usize`.
pub fn parse_usize(s: &[char]) -> (r: Result<usize, NumberError>)
    ensures
        match r {
            Ok(n) => parse_decimal(s@, usize::MAX as int) == Ok::<int, NumberError>(n as int),
            Err(e) => parse_decimal(s@, usize::MAX as int) == Err::<int, NumberError>(e),
        },
{
    if s.len() == 0 {
        return Err(NumberError::Empty);
    }
    if s.len() == 1 && (s[0] == '+' || s[0] == '-') {
        return Err(NumberError::InvalidDigit);
    }
    let start: usize = if s[0] == '+' { 1 } else { 0 };
    let mut i: usize = start;
    let mut acc: usize = 0;
    while i < s.len()
        invariant
            start <= i <= s.len(),
            parse_decimal(s@, usize::MAX as int) == read_digits(
                s@,
                i as int,
                acc as int,
                usize::MAX as int,
            ),
        decreases s.len() - i,
    {
        let c = s[i];
        if !('0' <= c && c <= '9') {
            return Err(NumberError::InvalidDigit);
        }
        let d: usize = (c as u32 - '0' as u32) as usize;
        if acc > (usize::MAX - d) / 10 {
            assert(acc * 10 + d > usize::MAX) by (nonlinear_arith)
                requires
                    acc > (usize::MAX - d) / 10,
                    0 <= d <= 9,
            ;
            return Err(NumberError::TooLarge);
        }
        assert(acc * 10 + d <= usize::MAX) by (nonlinear_arith)
            requires
                acc <= (usize::MAX - d) / 10,
                0 <= d <= 9,
        ;
        acc = acc * 10 + d;
        i += 1;
    }
    Ok(acc)
}

/// The character of a digit's value.
pub open spec fn digit_char(d: int) -> char {
    if d == 0 { '0' } else if d == 1 { '1' } else if d == 2 { '2' } else if d == 3 { '3' }
    else if d == 4 { '4' } else if d == 5 { '5' } else if d == 6 { '6' } else if d == 7 { '7' }
    else if d == 8 { '8' } else { '9' }
}

/// The decimal text of `n`, without leading zeros.
pub open spec fn decimal(n: nat) -> Seq<char>
    decreases n,
{
    if n < 10 {
        seq![digit_char(n as int)]
    } else {
        decimal(n / 10).push(digit_char((n % 10) as int))
    }
}

/// The character of the digit `d`.
pub fn digit_to_char(d: u64) -> (c: char)
    requires
        d < 10,
    ensures
        c == digit_char(d as int),
        is_digit(c),
        digit_value(c) == d,
{
    if d == 0 { '0' } else if d == 1 { '1' } else if d == 2 { '2' } else if d == 3 { '3' }
    else if d == 4 { '4' } else if d == 5 { '5' } else if d == 6 { '6' } else if d == 7 { '7' }
    else if d == 8 { '8' } else { '9' }
}

/// The decimal text of `n`.
pub fn u64_to_chars(n: u64) -> (v: Vec<char>)
    ensures
        v@ == decimal(n as nat),
{
    let mut rev: Vec<char> = Vec::new();
    let mut m: u64 = n;
    while m >= 10
        invariant
            decimal(n as nat) == decimal(m as nat) + rev@.reverse(),
        decreases m,
    {
        let ghost before = rev@;
        rev.push(digit_to_char(m % 10));
        assert(rev@.reverse() =~= seq![digit_char((m % 10) as int)] + before.reverse());
        assert(decimal(m as nat) =~= decimal((m / 10) as nat) + seq![digit_char((m % 10) as int)]);
        m = m / 10;
    }
    let ghost before = rev@;
    rev.push(digit_to_char(m));
    assert(rev@.reverse() =~= seq![digit_char(m as int)] + before.reverse());
    let mut v: Vec<char> = Vec::new();
    let mut k: usize = rev.len();
    while k > 0
        invariant
            k <= rev.len(),
            v@ == rev@.reverse().take(rev.len() - k),
        decreases k,
    {
        k -= 1;
        v.push(rev[k]);
        assert(v@ =~= rev@.reverse().take(rev.len() - k));
    }
    assert(rev@.reverse().take(rev.len() as int) =~= rev@.reverse());
    v
}

/// The decimal text of `n`.
pub fn usize_to_chars(n: usize) -> (v: Vec<char>)
    ensures
        v@ == decimal(n as nat),
{
    u64_to_chars(n as u64)
}

/// The decimal text of `n`, as a string.
pub fn u64_to_string(n: u64) -> (s: String)
    ensures
        s@ == decimal(n as nat),
{
    from_chars(u64_to_chars(n).as_slice())
}

/// The decimal text of `n`, as a string.
pub fn usize_to_string(n: usize) -> (s: String)
    ensures
        s@ == decimal(n as nat),
{
    from_chars(usize_to_chars(n).as_slice())
}

/// The text with which a debugging aid shows a string: the string between
/// double quotes, with the characters that cannot be shown escaped.
pub uninterp spec fn debug_quoted(s: Seq<char>) -> Seq<char>;

/// `<str as Debug>::fmt` through `format!`: the quoted and escaped form of
/// `s`, which depends on the characters of `s` alone.
#[verifier::external_body]
pub(crate) fn quoted(s: &str) -> (r: String)
    ensures
        r@ == debug_quoted(s@),
{
    format!("{:?}", s)
}

/// `s` holds no line feed.
pub open spec fn no_line_feed(s: Seq<char>) -> bool {
    forall|j: int| 0 <= j < s.len() ==> #[trigger] s[j] != '\n'
}

/// A value as a line can carry it: no white space at its ends, no line
/// feed inside.
pub open spec fn is_plain(s: Seq<char>) -> bool {
    is_trimmed(s) && no_line_feed(s)
}

/// What is cut from a text without line feeds and trimmed is plain.
pub proof fn lemma_trim_is_plain(s: Seq<char>)
    requires
        no_line_feed(s),
    ensures
        is_plain(trim(s)),
{
    lemma_trim(s);
    lemma_skip_spaces(s, 0);
    lemma_drop_spaces(s, skip_spaces(s, 0), s.len() as int);
    let a = skip_spaces(s, 0);
    let t = trim(s);
    assert forall|j: int| 0 <= j < t.len() implies #[trigger] t[j] != '\n' by {
        assert(t[j] == s[a + j]);
    }
}

/// The first line of a text holds no line feed.
pub proof fn lemma_first_line_no_line_feed(s: Seq<char>)
    requires
        s.len() > 0,
    ensures
        no_line_feed(first_line(s)),
{
    lemma_find_from(s, '\n', 0);
    let i = find_from(s, '\n', 0);
    let l = first_line(s);
    assert forall|j: int| 0 <= j < l.len() implies #[trigger] l[j] != '\n' by {
        assert(l[j] == s[j]);
    }
}

/// Every word is non-empty and without white space.
pub proof fn lemma_words(s: Seq<char>)
    ensures
        forall|i: int|
            0 <= i < words(s).len() ==> (#[trigger] words(s)[i]).len() > 0 && no_space(
                words(s)[i],
            ),
    decreases s.len(),
{
    let a = skip_spaces(s, 0);
    lemma_skip_spaces(s, 0);
    lemma_find_space(s, a);
    let b = find_space(s, a);
    if 0 <= a < b <= s.len() {
        let rest = s.subrange(b, s.len() as int);
        lemma_words(rest);
        let w = s.subrange(a, b);
        assert forall|j: int| 0 <= j < w.len() implies !is_space(#[trigger] w[j]) by {
            assert(w[j] == s[a + j]);
        }
        assert forall|i: int| 0 <= i < words(s).len() implies (#[trigger] words(s)[i]).len() > 0
            && no_space(words(s)[i]) by {
            if i > 0 {
                assert(words(s)[i] == words(rest)[i - 1]);
            }
        }
    }
}

/// An index that holds white space with none from `i` up to it is where
/// `find_space` stops.
pub proof fn lemma_find_space_is(s: Seq<char>, i: int, k: int)
    requires
        0 <= i <= k <= s.len(),
        k < s.len() ==> is_space(s[k]),
        forall|j: int| i <= j < k ==> !is_space(s[j]),
    ensures
        find_space(s, i) == k,
    decreases k - i,
{
    if i < k {
        lemma_find_space_is(s, i + 1, k);
    }
}

/// Every character of a decimal text is a digit.
pub proof fn lemma_decimal_digits(n: nat)
    ensures
        decimal(n).len() > 0,
        forall|j: int| 0 <= j < decimal(n).len() ==> is_digit(#[trigger] decimal(n)[j]),
    decreases n,
{
    if n >= 10 {
        lemma_decimal_digits(n / 10);
    }
}

/// Reading goes on behind the digits read so far.
pub proof fn lemma_read_digits_push(s: Seq<char>, c: char, i: int, acc: int, max: int, v: int)
    requires
        0 <= i <= s.len(),
        read_digits(s, i, acc, max) == Ok::<int, NumberError>(v),
        is_digit(c),
        v * 10 + digit_value(c) <= max,
    ensures
        read_digits(s.push(c), i, acc, max) == Ok::<int, NumberError>(v * 10 + digit_value(c)),
    decreases s.len() - i,
{
    let t = s.push(c);
    if i < s.len() {
        assert(t[i] == s[i]);
        lemma_read_digits_push(s, c, i + 1, acc * 10 + digit_value(s[i]), max, v);
    } else {
        assert(t[i] == c);
        assert(read_digits(t, i + 1, acc * 10 + digit_value(c), max) == Ok::<int, NumberError>(
            acc * 10 + digit_value(c),
        ));
    }
}

/// The decimal text of a number is read back as that number.
pub proof fn lemma_decimal_round_trip(n: nat, max: int)
    requires
        n <= max,
    ensures
        parse_decimal(decimal(n), max) == Ok::<int, NumberError>(n as int),
        read_digits(decimal(n), 0, 0, max) == Ok::<int, NumberError>(n as int),
    decreases n,
{
    lemma_decimal_digits(n);
    if n < 10 {
        let s = decimal(n);
        assert(s.len() == 1);
        assert(digit_value(s[0]) == n);
        assert(read_digits(s, 1, n as int, max) == Ok::<int, NumberError>(n as int));
    } else {
        let c = digit_char((n % 10) as int);
        lemma_decimal_round_trip(n / 10, max);
        assert(digit_value(c) == n % 10);
        lemma_read_digits_push(decimal(n / 10), c, 0, 0, max, (n / 10) as int);
        lemma_decimal_digits(n / 10);
        assert(decimal(n)[0] == decimal(n / 10)[0]);
    }
}

} // verus!
