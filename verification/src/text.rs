//! Text operations on `&str`, stated over the sequence of characters that a
//! string holds.
use vstd::prelude::*;
use vstd::string::*;
use vstd::utf8::*;

use crate::views;

verus! {

broadcast use crate::views::group_views;

/// `String::push` of std appends one character.
pub assume_specification[ String::push ](s: &mut String, c: char)
    ensures
        final(s)@ == old(s)@.push(c),
;

/// `str` equality of std: the two strings hold the same characters.
#[verifier::external_body]
pub(crate) fn same(a: &str, b: &str) -> (r: bool)
    ensures
        r == (a@ == b@),
{
    a == b
}

/// What std's `Debug` formatting writes for a string: the string in double
/// quotes with the escapes that std chooses.
pub uninterp spec fn debug_text(s: Seq<char>) -> Seq<char>;

/// `format!("{:?}", s)` of std on a string. The escapes follow the Unicode
/// tables of std, so the spelling only has a name.
#[verifier::external_body]
pub(crate) fn debug_string(s: &str) -> (r: String)
    ensures
        r@ == debug_text(s@),
{
    format!("{:?}", s)
}

/// What std's lossy decoding makes of bytes: a replacement character stands for
/// what is no UTF-8.
pub uninterp spec fn lossy_text(bytes: Seq<u8>) -> Seq<char>;

/// `String::from_utf8_lossy` of std. Valid UTF-8 is decoded as it stands; how many
/// replacement characters stand for anything else only has a name.
#[verifier::external_body]
pub(crate) fn lossy_string(bytes: &Vec<u8>) -> (r: String)
    ensures
        r@ == lossy_text(bytes@),
        valid_utf8(bytes@) ==> r@ == decode_utf8(bytes@),
{
    String::from_utf8_lossy(bytes).into_owned()
}

/// What std says of bytes that are no UTF-8.
pub uninterp spec fn utf8_fault(bytes: Seq<u8>) -> Seq<char>;

/// `std::str::from_utf8`: the text that valid UTF-8 encodes, or what is wrong with
/// the bytes. The words of the error only have a name.
#[verifier::external_body]
pub(crate) fn utf8_string(bytes: &Vec<u8>) -> (r: Result<String, String>)
    ensures
        match r {
            Ok(s) => valid_utf8(bytes@) && s@ == decode_utf8(bytes@),
            Err(e) => !valid_utf8(bytes@) && e@ == utf8_fault(bytes@),
        },
{
    match std::str::from_utf8(bytes) {
        Ok(s) => Ok(s.to_owned()),
        Err(e) => Err(e.to_string()),
    }
}

/// The number of bytes that UTF-8 takes for a character.
pub open spec fn char_width(c: char) -> int {
    if (c as int) < 0x80 {
        1
    } else if (c as int) < 0x800 {
        2
    } else if (c as int) < 0x10000 {
        3
    } else {
        4
    }
}

/// The number of bytes that UTF-8 takes for the first `n` characters of a text.
pub open spec fn width_upto(s: Seq<char>, n: int) -> int
    decreases n,
{
    if n <= 0 {
        0
    } else {
        width_upto(s, n - 1) + char_width(s[n - 1])
    }
}

/// The number of bytes that UTF-8 takes for a text.
pub open spec fn width(s: Seq<char>) -> int {
    width_upto(s, s.len() as int)
}

/// Gives the number of bytes that UTF-8 takes for a character.
pub fn width_of_char(c: char) -> (r: u128)
    ensures
        r == char_width(c),
{
    if c <= '\u{7f}' {
        1
    } else if c <= '\u{7ff}' {
        2
    } else if c <= '\u{ffff}' {
        3
    } else {
        4
    }
}

/// A longer prefix takes no fewer bytes.
pub proof fn width_grows(s: Seq<char>, m: int, n: int)
    requires
        m <= n,
    ensures
        0 <= width_upto(s, m) <= width_upto(s, n),
        width_upto(s, n) <= 4 * (if n < 0 {
            0
        } else {
            n
        }),
    decreases (if m < 0 {
        0
    } else {
        m
    }) + (if n < 0 {
        0
    } else {
        n
    }),
{
    if n > m && n > 0 {
        width_grows(s, m, n - 1);
    } else if n > 0 {
        width_grows(s, m - 1, n - 1);
    }
}

/// How many of the first characters of a text fit into a number of bytes.
pub open spec fn fits(s: Seq<char>, bytes: int, k: int) -> bool {
    &&& 0 <= k <= s.len()
    &&& width_upto(s, k) <= bytes
    &&& k < s.len() ==> width_upto(s, k + 1) > bytes
}

/// Gives the number of bytes that UTF-8 takes for a text.
pub fn width_of(s: &str) -> (r: u128)
    ensures
        r == width(s@),
{
    let mut total: u128 = 0;
    let n: usize = s.unicode_len();
    for c in it: s.chars()
        invariant
            it.seq() == s@,
            n == s@.len(),
            total == width_upto(s@, it.index() as int),
    {
        proof {
            width_grows(s@, it.index() as int, it.index() as int + 1);
        }
        total = total + width_of_char(c);
    }
    total
}

/// Gives how many of the first characters of a text fit into a number of bytes.
pub fn fitting(s: &str, bytes: u128) -> (k: usize)
    ensures
        fits(s@, bytes as int, k as int),
{
    let mut total: u128 = 0;
    let mut k: usize = 0;
    let n: usize = s.unicode_len();
    for c in it: s.chars()
        invariant
            it.seq() == s@,
            n == s@.len(),
            k == it.index(),
            total == width_upto(s@, k as int),
            total <= bytes,
    {
        proof {
            width_grows(s@, it.index() as int, it.index() as int + 1);
        }
        let more: u128 = total + width_of_char(c);
        if more > bytes {
            return k;
        }
        total = more;
        k = k + 1;
    }
    k
}

/// The characters of a string, as a vector.
pub fn chars_of(s: &str) -> (v: Vec<char>)
    ensures
        v@ == s@,
{
    let mut v: Vec<char> = Vec::new();
    for c in it: s.chars()
        invariant
            v@ == s@.take(it.index() as int),
            it.seq() == s@,
    {
        v.push(c);
        assert(s@.take(it.index() as int + 1) == s@.take(it.index() as int).push(c));
    }
    assert(s@.take(s@.len() as int) == s@);
    v
}

/// Copies an optional string.
pub fn copy_text_option(o: &Option<String>) -> (r: Option<String>)
    ensures
        views::opt(r) == views::opt(*o),
{
    match o {
        Some(s) => Some(s.clone()),
        None => None,
    }
}

/// Whether an optional string is present and equal to `expected`.
pub fn is_text(o: &Option<String>, expected: &str) -> (r: bool)
    ensures
        r == (views::opt(*o) == Some(expected@)),
{
    match o {
        Some(s) => same(s.as_str(), expected),
        None => false,
    }
}

/// The Unicode `White_Space` property, by which std trims and splits words.
pub open spec fn white_space(c: char) -> bool {
    let n = c as int;
    ||| 0x09 <= n <= 0x0d
    ||| n == 0x20
    ||| n == 0x85
    ||| n == 0xa0
    ||| n == 0x1680
    ||| 0x2000 <= n <= 0x200a
    ||| n == 0x2028
    ||| n == 0x2029
    ||| n == 0x202f
    ||| n == 0x205f
    ||| n == 0x3000
}

/// Whether a character is white space.
pub fn is_white_space(c: char) -> (r: bool)
    ensures
        r == white_space(c),
{
    let n: u32 = c as u32;
    (0x09 <= n && n <= 0x0d) || n == 0x20 || n == 0x85 || n == 0xa0 || n == 0x1680
        || (0x2000 <= n && n <= 0x200a) || n == 0x2028 || n == 0x2029 || n == 0x202f
        || n == 0x205f || n == 0x3000
}

/// The Unicode category `Cc`, the control characters.
pub open spec fn control(c: char) -> bool {
    c as int <= 0x1f || 0x7f <= c as int <= 0x9f
}

/// Whether a character is a control character.
pub fn is_control(c: char) -> (r: bool)
    ensures
        r == control(c),
{
    let n: u32 = c as u32;
    n <= 0x1f || (0x7f <= n && n <= 0x9f)
}

/// Whether a text holds a control character.
pub open spec fn has_control(s: Seq<char>) -> bool {
    exists|i: int| 0 <= i < s.len() && control(#[trigger] s[i])
}

/// Whether a string holds a control character.
pub fn contains_control(s: &str) -> (r: bool)
    ensures
        r == has_control(s@),
{
    for c in it: s.chars()
        invariant
            it.seq() == s@,
            forall|j: int| 0 <= j < it.index() ==> !control(#[trigger] s@[j]),
    {
        if is_control(c) {
            assert(control(s@[it.index() as int]));
            return true;
        }
    }
    false
}

/// Whether a text holds a character.
pub fn contains_char(s: &str, needle: char) -> (r: bool)
    ensures
        r == s@.contains(needle),
{
    for c in it: s.chars()
        invariant
            it.seq() == s@,
            forall|j: int| 0 <= j < it.index() ==> #[trigger] s@[j] != needle,
    {
        if c == needle {
            assert(s@[it.index() as int] == needle);
            return true;
        }
    }
    false
}

/// The ASCII decimal digits.
pub open spec fn ascii_digit(c: char) -> bool {
    '0' <= c <= '9'
}

/// Whether a text is made of ASCII decimal digits alone.
pub open spec fn all_digits(s: Seq<char>) -> bool {
    forall|i: int| 0 <= i < s.len() ==> ascii_digit(#[trigger] s[i])
}

/// Whether a string is made of ASCII decimal digits alone.
pub fn is_all_digits(s: &str) -> (r: bool)
    ensures
        r == all_digits(s@),
{
    for c in it: s.chars()
        invariant
            it.seq() == s@,
            forall|j: int| 0 <= j < it.index() ==> ascii_digit(#[trigger] s@[j]),
    {
        if !('0' <= c && c <= '9') {
            assert(!ascii_digit(s@[it.index() as int]));
            return false;
        }
    }
    true
}

/// The first index from `i` on whose character satisfies `p`, or the length.
pub open spec fn first_at(s: Seq<char>, p: spec_fn(char) -> bool, i: int) -> int
    decreases s.len() - i,
{
    if i >= s.len() || i < 0 {
        s.len() as int
    } else if p(s[i]) {
        i
    } else {
        first_at(s, p, i + 1)
    }
}

/// `first_at` is the least index that satisfies the predicate.
pub proof fn first_at_least(s: Seq<char>, p: spec_fn(char) -> bool, i: int)
    requires
        0 <= i <= s.len(),
    ensures
        i <= first_at(s, p, i) <= s.len(),
        forall|j: int| i <= j < first_at(s, p, i) ==> !p(#[trigger] s[j]),
        first_at(s, p, i) < s.len() ==> p(s[first_at(s, p, i)]),
    decreases s.len() - i,
{
    if i < s.len() && !p(s[i]) {
        first_at_least(s, p, i + 1);
    }
}

/// The predicate that holds of one character.
pub open spec fn just(c: char) -> spec_fn(char) -> bool {
    |x: char| x == c
}

/// The predicate that holds of white space.
pub open spec fn spaces() -> spec_fn(char) -> bool {
    |x: char| white_space(x)
}

/// The predicate that holds of what is not white space.
pub open spec fn non_spaces() -> spec_fn(char) -> bool {
    |x: char| !white_space(x)
}

/// The length of `s[..n]` without its trailing white space.
pub open spec fn trimmed_len(s: Seq<char>, n: int) -> int
    decreases n,
{
    if n <= 0 {
        0
    } else if white_space(s[n - 1]) {
        trimmed_len(s, n - 1)
    } else {
        n
    }
}

proof fn trimmed_len_bound(s: Seq<char>, n: int)
    requires
        0 <= n,
    ensures
        0 <= trimmed_len(s, n) <= n,
    decreases n,
{
    if n > 0 {
        trimmed_len_bound(s, n - 1);
    }
}

/// The text without its leading white space.
pub open spec fn trimmed_start(s: Seq<char>) -> Seq<char> {
    s.subrange(first_at(s, non_spaces(), 0), s.len() as int)
}

/// The text without its trailing white space.
pub open spec fn trimmed_end(s: Seq<char>) -> Seq<char> {
    s.subrange(0, trimmed_len(s, s.len() as int))
}

/// The text without its leading and trailing white space.
pub open spec fn trimmed(s: Seq<char>) -> Seq<char> {
    trimmed_end(trimmed_start(s))
}

/// The index of the first character that is white space (`wanted`) or is not.
fn white_space_position(s: &str, wanted: bool) -> (r: usize)
    ensures
        wanted ==> r == first_at(s@, spaces(), 0),
        !wanted ==> r == first_at(s@, non_spaces(), 0),
        r <= s@.len(),
{
    let mut i: usize = 0;
    let n: usize = s.unicode_len();
    for c in it: s.chars()
        invariant
            it.seq() == s@,
            n == s@.len(),
            i == it.index(),
            wanted ==> first_at(s@, spaces(), 0) == first_at(s@, spaces(), i as int),
            !wanted ==> first_at(s@, non_spaces(), 0) == first_at(s@, non_spaces(), i as int),
    {
        if is_white_space(c) == wanted {
            return i;
        }
        i = i + 1;
    }
    i
}

/// Removes leading white space.
pub fn trim_start<'a>(s: &'a str) -> (r: &'a str)
    ensures
        r@ == trimmed_start(s@),
{
    let from: usize = white_space_position(s, false);
    s.substring_char(from, s.unicode_len())
}

/// Removes trailing white space.
pub fn trim_end<'a>(s: &'a str) -> (r: &'a str)
    ensures
        r@ == trimmed_end(s@),
{
    let v: Vec<char> = chars_of(s);
    let mut n: usize = v.len();
    while n > 0 && is_white_space(v[n - 1])
        invariant
            v@ == s@,
            n <= v@.len(),
            trimmed_len(s@, s@.len() as int) == trimmed_len(s@, n as int),
        decreases n,
    {
        n = n - 1;
    }
    s.substring_char(0, n)
}

/// Removes leading and trailing white space.
pub fn trim<'a>(s: &'a str) -> (r: &'a str)
    ensures
        r@ == trimmed(s@),
{
    trim_end(trim_start(s))
}

/// The two parts of a text around the first character that satisfies `p`.
pub open spec fn split_where(s: Seq<char>, p: spec_fn(char) -> bool) -> Option<
    (Seq<char>, Seq<char>),
> {
    let i = first_at(s, p, 0);
    if i < s.len() {
        Some((s.subrange(0, i), s.subrange(i + 1, s.len() as int)))
    } else {
        None
    }
}

/// The two parts of a text around the first occurrence of a character.
pub open spec fn split_char(s: Seq<char>, c: char) -> Option<(Seq<char>, Seq<char>)> {
    split_where(s, just(c))
}

/// The two parts of a text around its first white space character.
pub open spec fn split_space(s: Seq<char>) -> Option<(Seq<char>, Seq<char>)> {
    split_where(s, spaces())
}

/// The view of an optional pair of strings.
pub open spec fn pair(o: Option<(&str, &str)>) -> Option<(Seq<char>, Seq<char>)> {
    match o {
        Some((a, b)) => Some((a@, b@)),
        None => None,
    }
}

/// The index of the first occurrence of a character, or the length.
pub fn char_position(s: &str, needle: char) -> (r: usize)
    ensures
        r == first_at(s@, just(needle), 0),
        r <= s@.len(),
{
    let mut i: usize = 0;
    let n: usize = s.unicode_len();
    for c in it: s.chars()
        invariant
            it.seq() == s@,
            n == s@.len(),
            i == it.index(),
            first_at(s@, just(needle), 0) == first_at(s@, just(needle), i as int),
    {
        if c == needle {
            return i;
        }
        i = i + 1;
    }
    i
}

/// Splits at the first occurrence of a character.
pub fn split_once_char<'a>(s: &'a str, c: char) -> (r: Option<(&'a str, &'a str)>)
    ensures
        pair(r) == split_char(s@, c),
{
    let i: usize = char_position(s, c);
    let n: usize = s.unicode_len();
    if i < n {
        Some((s.substring_char(0, i), s.substring_char(i + 1, n)))
    } else {
        None
    }
}

/// Splits at the first white space character.
pub fn split_once_space<'a>(s: &'a str) -> (r: Option<(&'a str, &'a str)>)
    ensures
        pair(r) == split_space(s@),
{
    let i: usize = white_space_position(s, true);
    let n: usize = s.unicode_len();
    if i < n {
        Some((s.substring_char(0, i), s.substring_char(i + 1, n)))
    } else {
        None
    }
}

/// Whether `p` starts at index `i` of `s`.
pub open spec fn matches_at(s: Seq<char>, p: Seq<char>, i: int) -> bool {
    0 <= i && i + p.len() <= s.len() && s.subrange(i, i + p.len()) == p
}

/// The first index from `i` on at which `p` starts, or the length plus one.
pub open spec fn first_match(s: Seq<char>, p: Seq<char>, i: int) -> int
    decreases s.len() - i + 1,
{
    if i < 0 || i > s.len() {
        s.len() as int + 1
    } else if matches_at(s, p, i) {
        i
    } else {
        first_match(s, p, i + 1)
    }
}

/// The two parts of a text around the first occurrence of another.
pub open spec fn split_text(s: Seq<char>, p: Seq<char>) -> Option<(Seq<char>, Seq<char>)> {
    let i = first_match(s, p, 0);
    if i <= s.len() {
        Some((s.subrange(0, i), s.subrange(i + p.len(), s.len() as int)))
    } else {
        None
    }
}

/// Whether a text occurs in another.
pub open spec fn contains_text(s: Seq<char>, p: Seq<char>) -> bool {
    exists|i: int| matches_at(s, p, i)
}

proof fn first_match_least(s: Seq<char>, p: Seq<char>, i: int)
    requires
        0 <= i <= s.len() + 1,
    ensures
        i <= first_match(s, p, i) <= s.len() + 1,
        forall|j: int| i <= j < first_match(s, p, i) ==> !matches_at(s, p, j),
        first_match(s, p, i) <= s.len() ==> matches_at(s, p, first_match(s, p, i)),
    decreases s.len() - i + 1,
{
    if i <= s.len() && !matches_at(s, p, i) {
        first_match_least(s, p, i + 1);
    }
}

/// Whether `p` starts at index `i` of `v`.
fn is_match_at(v: &Vec<char>, p: &Vec<char>, i: usize) -> (r: bool)
    requires
        i <= v@.len(),
    ensures
        r == matches_at(v@, p@, i as int),
{
    if p.len() > v.len() - i {
        return false;
    }
    for j in 0..p.len()
        invariant
            i + p@.len() <= v.len(),
            forall|k: int| 0 <= k < j ==> v@[i + k] == #[trigger] p@[k],
    {
        if v[i + j] != p[j] {
            assert(v@.subrange(i as int, i + p@.len())[j as int] != p@[j as int]);
            return false;
        }
    }
    assert(v@.subrange(i as int, i + p@.len()) =~= p@);
    true
}

/// The index at which `p` first occurs in `s`.
fn text_position(s: &str, p: &str) -> (r: Option<usize>)
    ensures
        match r {
            Some(i) => first_match(s@, p@, 0) == i && i <= s@.len() && i + p@.len() <= s@.len(),
            None => first_match(s@, p@, 0) > s@.len(),
        },
{
    let v: Vec<char> = chars_of(s);
    let w: Vec<char> = chars_of(p);
    let mut i: usize = 0;
    while i < v.len()
        invariant
            v@ == s@,
            w@ == p@,
            i <= v@.len(),
            first_match(s@, p@, 0) == first_match(s@, p@, i as int),
        decreases v@.len() - i,
    {
        if is_match_at(&v, &w, i) {
            return Some(i);
        }
        i = i + 1;
    }
    if is_match_at(&v, &w, i) {
        Some(i)
    } else {
        assert(first_match(s@, p@, i as int) == first_match(s@, p@, i as int + 1));
        None
    }
}

/// Splits at the first occurrence of a text.
pub fn split_once_text<'a>(s: &'a str, p: &str) -> (r: Option<(&'a str, &'a str)>)
    ensures
        pair(r) == split_text(s@, p@),
{
    match text_position(s, p) {
        Some(i) => {
            let n: usize = s.unicode_len();
            let m: usize = p.unicode_len();
            Some((s.substring_char(0, i), s.substring_char(i + m, n)))
        },
        None => None,
    }
}

/// Whether `p` occurs in `s`.
pub fn has_text(s: &str, p: &str) -> (r: bool)
    ensures
        r == contains_text(s@, p@),
{
    proof {
        first_match_least(s@, p@, 0);
    }
    match text_position(s, p) {
        Some(i) => {
            assert(matches_at(s@, p@, i as int));
            true
        },
        None => false,
    }
}

/// What follows a prefix.
pub open spec fn after_prefix(s: Seq<char>, p: Seq<char>) -> Option<Seq<char>> {
    if matches_at(s, p, 0) {
        Some(s.subrange(p.len() as int, s.len() as int))
    } else {
        None
    }
}

/// What precedes a suffix.
pub open spec fn before_suffix(s: Seq<char>, p: Seq<char>) -> Option<Seq<char>> {
    if matches_at(s, p, s.len() - p.len()) {
        Some(s.subrange(0, s.len() - p.len()))
    } else {
        None
    }
}

/// Removes a prefix.
pub fn strip_prefix<'a>(s: &'a str, p: &str) -> (r: Option<&'a str>)
    ensures
        views::opt(r) == after_prefix(s@, p@),
{
    let n: usize = s.unicode_len();
    let m: usize = p.unicode_len();
    if m <= n && same(s.substring_char(0, m), p) {
        Some(s.substring_char(m, n))
    } else {
        None
    }
}

/// Removes a suffix.
pub fn strip_suffix<'a>(s: &'a str, p: &str) -> (r: Option<&'a str>)
    ensures
        views::opt(r) == before_suffix(s@, p@),
{
    let n: usize = s.unicode_len();
    let m: usize = p.unicode_len();
    if m <= n && same(s.substring_char(n - m, n), p) {
        assert(s@.subrange(s@.len() - p@.len(), s@.len() - p@.len() + p@.len()) == p@);
        Some(s.substring_char(0, n - m))
    } else {
        None
    }
}

/// Whether a text starts with another.
pub fn starts_with(s: &str, p: &str) -> (r: bool)
    ensures
        r == matches_at(s@, p@, 0),
{
    let n: usize = s.unicode_len();
    let m: usize = p.unicode_len();
    m <= n && same(s.substring_char(0, m), p)
}

/// The first run of characters that are not white space.
pub open spec fn first_word(s: Seq<char>) -> Option<Seq<char>> {
    let t = trimmed_start(s);
    if t.len() == 0 {
        None
    } else {
        Some(t.subrange(0, first_at(t, spaces(), 0)))
    }
}

/// What follows the first run of characters that are not white space.
pub open spec fn after_first_word(s: Seq<char>) -> Seq<char> {
    let t = trimmed_start(s);
    t.subrange(first_at(t, spaces(), 0), t.len() as int)
}

/// The second run of characters that are not white space.
pub open spec fn second_word(s: Seq<char>) -> Option<Seq<char>> {
    first_word(after_first_word(s))
}

/// Gives the first word.
pub fn word<'a>(s: &'a str) -> (r: Option<&'a str>)
    ensures
        views::opt(r) == first_word(s@),
{
    let t: &str = trim_start(s);
    if t.unicode_len() == 0 {
        None
    } else {
        let end: usize = white_space_position(t, true);
        Some(t.substring_char(0, end))
    }
}

/// Gives the second word.
pub fn word_after<'a>(s: &'a str) -> (r: Option<&'a str>)
    ensures
        views::opt(r) == second_word(s@),
{
    let t: &str = trim_start(s);
    let end: usize = white_space_position(t, true);
    word(t.substring_char(end, t.unicode_len()))
}

/// The parts of the first `n` characters that have ended with a separator, and the
/// one that has not.
pub open spec fn parts_upto(s: Seq<char>, c: char, n: int) -> (Seq<Seq<char>>, Seq<char>)
    decreases n,
{
    if n <= 0 {
        (Seq::empty(), Seq::empty())
    } else {
        let (ended, current) = parts_upto(s, c, n - 1);
        if s[n - 1] == c {
            (ended.push(current), Seq::empty())
        } else {
            (ended, current.push(s[n - 1]))
        }
    }
}

/// The parts of a text between the occurrences of a separator.
pub open spec fn parts(s: Seq<char>, c: char) -> Seq<Seq<char>> {
    let (ended, current) = parts_upto(s, c, s.len() as int);
    ended.push(current)
}

/// Splits at every occurrence of a separator.
pub fn split_parts(s: &str, c: char) -> (r: Vec<String>)
    ensures
        views::each(r@) == parts(s@, c),
        r@.len() > 0,
{
    let mut r: Vec<String> = Vec::new();
    let mut current: String = String::new();
    for x in it: s.chars()
        invariant
            it.seq() == s@,
            (views::each(r@), current@) == parts_upto(s@, c, it.index() as int),
    {
        if x == c {
            r.push(current);
            current = String::new();
        } else {
            current.push(x);
        }
    }
    r.push(current);
    r
}

/// The first `n` texts of a list with a separator between them.
pub open spec fn joined_upto(list: Seq<Seq<char>>, separator: Seq<char>, n: int) -> Seq<char>
    decreases n,
{
    if n <= 0 {
        Seq::empty()
    } else if n == 1 {
        list[0]
    } else {
        joined_upto(list, separator, n - 1) + separator + list[n - 1]
    }
}

/// Joins texts with a separator between them.
pub fn join(list: &Vec<String>, separator: &str) -> (r: String)
    ensures
        r@ == joined_upto(views::each(list@), separator@, list@.len() as int),
{
    let ghost items = views::each(list@);
    let mut joined: String = String::new();
    for i in 0..list.len()
        invariant
            items == views::each(list@),
            joined@ == joined_upto(items, separator@, i as int),
    {
        assert(items[i as int] == list@[i as int]@);
        if i == 0 {
            joined = list[i].clone();
        } else {
            joined.append(separator);
            joined.append(list[i].as_str());
        }
    }
    joined
}

/// Trailing white space behind a text does not change its end.
proof fn trimmed_len_grows(s: Seq<char>, t: Seq<char>, n: int)
    requires
        0 <= n <= s.len() <= t.len(),
        forall|i: int| 0 <= i < n ==> s[i] == #[trigger] t[i],
    ensures
        trimmed_len(s, n) == trimmed_len(t, n),
    decreases n,
{
    if n > 0 {
        trimmed_len_grows(s, t, n - 1);
    }
}

/// A text and the same text with one more white space character are trimmed alike.
pub proof fn trailing_space_is_trimmed(s: Seq<char>, c: char)
    requires
        white_space(c),
    ensures
        trimmed(s.push(c)) == trimmed(s),
{
    let t = s.push(c);
    let n = s.len() as int;
    let p = non_spaces();
    first_at_least(s, p, 0);
    first_at_least(t, p, 0);
    let i = first_at(s, p, 0);
    let j = first_at(t, p, 0);
    assert(t[n] == c);
    if i < n {
        assert(t[i] == s[i]);
        if j < i {
            assert(s[j] == t[j]);
        }
        assert(j == i);
        let a = s.subrange(i, n);
        let b = t.subrange(i, n + 1);
        assert(b =~= a.push(c));
        trimmed_len_grows(a, b, a.len() as int);
        trimmed_len_bound(a, a.len() as int);
        assert(trimmed_end(b) =~= trimmed_end(a));
    } else {
        if j < n {
            assert(s[j] == t[j]);
        }
        assert(s.subrange(n, n) =~= Seq::<char>::empty());
        assert(t.subrange(j, n + 1) =~= Seq::<char>::empty());
    }
}

/// A text that neither starts nor ends with white space is trimmed already.
pub proof fn trimmed_stays(s: Seq<char>)
    requires
        s.len() > 0,
        !white_space(s[0]),
        !white_space(s.last()),
    ensures
        trimmed(s) == s,
        trimmed_start(s) == s,
{
    first_at_least(s, non_spaces(), 0);
    assert(first_at(s, non_spaces(), 0) == 0);
    assert(trimmed_start(s) =~= s);
    assert(trimmed_end(s) =~= s);
}

/// White space in front of a text that does not start or end with any is trimmed.
pub proof fn leading_space_is_trimmed(s: Seq<char>, c: char)
    requires
        s.len() > 0,
        white_space(c),
        !white_space(s[0]),
        !white_space(s.last()),
    ensures
        trimmed(seq![c] + s) == s,
        trimmed_start(seq![c] + s) == s,
{
    let t = seq![c] + s;
    first_at_least(t, non_spaces(), 0);
    assert(t[0] == c && t[1] == s[0]);
    assert(first_at(t, non_spaces(), 0) == 1);
    assert(t.subrange(1, t.len() as int) =~= s);
    trimmed_stays(s);
}

/// One white space character in front of a text that starts with none is dropped.
pub proof fn leading_space_goes(s: Seq<char>, c: char)
    requires
        s.len() > 0,
        white_space(c),
        !white_space(s[0]),
    ensures
        trimmed_start(seq![c] + s) == s,
{
    let t = seq![c] + s;
    first_at_least(t, non_spaces(), 0);
    assert(t[0] == c && t[1] == s[0]);
    assert(first_at(t, non_spaces(), 0) == 1);
    assert(t.subrange(1, t.len() as int) =~= s);
}

/// A text that does not hold another is not split by it.
pub proof fn absent_is_not_split(s: Seq<char>, p: Seq<char>)
    requires
        !contains_text(s, p),
    ensures
        split_text(s, p) is None,
{
    first_match_least(s, p, 0);
    let at = first_match(s, p, 0);
    if at <= s.len() {
        assert(matches_at(s, p, at));
    }
}

/// A text that starts with another is split behind it.
pub proof fn leading_is_split(p: Seq<char>, rest: Seq<char>)
    ensures
        split_text(p + rest, p) == Some((Seq::<char>::empty(), rest)),
{
    let s = p + rest;
    assert(s.subrange(0, p.len() as int) =~= p);
    assert(matches_at(s, p, 0));
    assert(first_match(s, p, 0) == 0);
    assert(s.subrange(0, 0) =~= Seq::<char>::empty());
    assert(s.subrange(p.len() as int, s.len() as int) =~= rest);
}

/// A text is split at the sign of a resumed call behind words without its last character.
pub proof fn resumption_is_split(words: Seq<char>, rest: Seq<char>)
    requires
        forall|i: int| 0 <= i < words.len() ==> #[trigger] words[i] != '>',
    ensures
        split_text(words + " resumed>"@ + rest, " resumed>"@) == Some((words, rest)),
{
    reveal_strlit(" resumed>");
    let marker = " resumed>"@;
    let s = words + marker + rest;
    let n = words.len() as int;
    assert(s.subrange(n, n + marker.len()) =~= marker);
    assert(matches_at(s, marker, n));
    first_match_least(s, marker, 0);
    let at = first_match(s, marker, 0);
    if at < n {
        assert(matches_at(s, marker, at));
        assert(s.subrange(at, at + 9)[8] == '>');
        assert(s[at + 8] == '>');
        if at + 8 < n {
            assert(s[at + 8] == words[at + 8]);
        } else {
            assert(s[at + 8] == marker[at + 8 - n]);
        }
    }
    assert(at == n);
    assert(s.subrange(0, n) =~= words);
    assert(s.subrange(n + marker.len(), s.len() as int) =~= rest);
}

} // verus!
