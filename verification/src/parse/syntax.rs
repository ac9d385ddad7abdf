//! The syntax of one strace call: its arguments, its result, and the byte
//! strings and paths that they spell.
use vstd::prelude::*;
use vstd::string::*;

use crate::model;
use crate::model::bytes;
use crate::numbers;
use crate::text;
use crate::views;

verus! {

broadcast use crate::views::group_views;

/// What a scan of an argument list has seen.
pub struct ArgScan {
    /// Inside a quoted string.
    pub quote: bool,
    /// Behind a backslash in a quoted string.
    pub escape: bool,
    /// Nesting of brackets.
    pub depth: int,
    /// Where the current argument starts.
    pub start: int,
    /// The arguments that have ended.
    pub out: Seq<Seq<char>>,
}

/// Whether a character opens a bracket.
pub open spec fn opens(c: char) -> bool {
    c == '(' || c == '[' || c == '{' || c == '<'
}

/// Whether a character closes a bracket.
pub open spec fn closes(c: char) -> bool {
    c == ')' || c == ']' || c == '}' || c == '>'
}

/// The scan of the first `n` characters of an argument list.
pub open spec fn scan(s: Seq<char>, n: int) -> ArgScan
    decreases n,
{
    if n <= 0 {
        ArgScan { quote: false, escape: false, depth: 0, start: 0, out: Seq::empty() }
    } else {
        let st = scan(s, n - 1);
        let c = s[n - 1];
        if st.escape {
            ArgScan { escape: false, ..st }
        } else if c == '\\' && st.quote {
            ArgScan { escape: true, ..st }
        } else {
            let quote = if c == '"' {
                !st.quote
            } else {
                st.quote
            };
            if quote {
                ArgScan { quote, ..st }
            } else if opens(c) {
                ArgScan { quote, depth: st.depth + 1, ..st }
            } else if closes(c) {
                ArgScan { quote, depth: st.depth - 1, ..st }
            } else if c == ',' && st.depth == 0 {
                ArgScan {
                    quote,
                    start: n,
                    out: st.out.push(text::trimmed(s.subrange(st.start, n - 1))),
                    ..st
                }
            } else {
                ArgScan { quote, ..st }
            }
        }
    }
}

/// The arguments of a call: the parts between the commas that stand outside of
/// quoted strings and brackets, without surrounding white space.
pub open spec fn arguments(s: Seq<char>) -> Seq<Seq<char>> {
    let st = scan(s, s.len() as int);
    st.out.push(text::trimmed(s.subrange(st.start, s.len() as int)))
}

/// Split syscall arguments without splitting quoted strings or nested structures.
pub fn args<'a>(s: &'a str) -> (r: Vec<&'a str>)
    ensures
        views::each(r@) == arguments(s@),
        r@.len() > 0,
{
    let mut quote: bool = false;
    let mut escape: bool = false;
    let mut depth: i128 = 0;
    let mut start: usize = 0;
    let mut out: Vec<&'a str> = Vec::new();
    let n: usize = s.unicode_len();
    let mut i: usize = 0;
    for c in it: s.chars()
        invariant
            it.seq() == s@,
            n == s@.len(),
            i == it.index(),
            start <= i,
            -(i as int) <= depth <= i,
            scan(s@, i as int) == (ArgScan {
                quote,
                escape,
                depth: depth as int,
                start: start as int,
                out: views::each(out@),
            }),
    {
        if escape {
            escape = false;
        } else if c == '\\' && quote {
            escape = true;
        } else {
            if c == '"' {
                quote = !quote;
            }
            if !quote {
                if c == '(' || c == '[' || c == '{' || c == '<' {
                    depth = depth + 1;
                } else if c == ')' || c == ']' || c == '}' || c == '>' {
                    depth = depth - 1;
                } else if c == ',' && depth == 0 {
                    out.push(text::trim(s.substring_char(start, i)));
                    start = i + 1;
                }
            }
        }
        i = i + 1;
    }
    out.push(text::trim(s.substring_char(start, n)));
    out
}

/// The index from `i` on of the parenthesis that closes a call, outside of
/// quoted strings.
pub open spec fn closing(
    s: Seq<char>,
    i: int,
    depth: int,
    quoted: bool,
    escaped: bool,
) -> Option<int>
    decreases s.len() - i,
{
    if i < 0 || i >= s.len() {
        None
    } else if escaped {
        closing(s, i + 1, depth, quoted, false)
    } else if quoted && s[i] == '\\' {
        closing(s, i + 1, depth, quoted, true)
    } else if s[i] == '"' {
        closing(s, i + 1, depth, !quoted, false)
    } else if quoted {
        closing(s, i + 1, depth, quoted, false)
    } else if s[i] == '(' {
        closing(s, i + 1, depth + 1, quoted, false)
    } else if s[i] == ')' {
        if depth == 1 {
            Some(i)
        } else {
            closing(s, i + 1, depth - 1, quoted, false)
        }
    } else {
        closing(s, i + 1, depth, quoted, false)
    }
}

/// The arguments and the return value of a call whose text after the opening
/// parenthesis is `s`.
pub open spec fn call_parts(s: Seq<char>) -> Option<(Seq<char>, Seq<char>)> {
    match closing(s, 0, 1, false, false) {
        None => None,
        Some(i) => match text::after_prefix(
            text::trimmed_start(s.subrange(i + 1, s.len() as int)),
            "="@,
        ) {
            None => None,
            Some(value) => Some((s.subrange(0, i), text::trimmed_start(value))),
        },
    }
}

/// Locate the syscall's closing parenthesis, not punctuation in strings or nested
/// arguments, and give the arguments and the padded return column.
pub fn syscall_result<'a>(rest: &'a str) -> (r: Option<(&'a str, &'a str)>)
    ensures
        text::pair(r) == call_parts(rest@),
{
    let mut depth: u128 = 1;
    let mut quoted: bool = false;
    let mut escaped: bool = false;
    let n: usize = rest.unicode_len();
    let mut i: usize = 0;
    for c in it: rest.chars()
        invariant
            it.seq() == rest@,
            n == rest@.len(),
            i == it.index(),
            1 <= depth <= i + 1,
            closing(rest@, 0, 1, false, false) == closing(
                rest@,
                i as int,
                depth as int,
                quoted,
                escaped,
            ),
    {
        if escaped {
            escaped = false;
        } else if quoted && c == '\\' {
            escaped = true;
        } else if c == '"' {
            quoted = !quoted;
        } else if !quoted {
            if c == '(' {
                depth = depth + 1;
            } else if c == ')' {
                if depth == 1 {
                    let tail: &str = text::trim_start(rest.substring_char(i + 1, n));
                    return match text::strip_prefix(tail, "=") {
                        Some(value) => Some((rest.substring_char(0, i), text::trim_start(value))),
                        None => None,
                    };
                }
                depth = depth - 1;
            }
        }
        i = i + 1;
    }
    None
}

/// The bytes that `s` spells from index `i` on, behind the bytes `out`: each
/// character is its own byte, but `\x` and two digits are the byte they name.
pub open spec fn unescaped_from(s: Seq<char>, i: int, out: Seq<u8>) -> Option<Seq<u8>>
    decreases s.len() - i,
{
    if i < 0 || i >= s.len() {
        Some(out)
    } else if s[i] == '\\' {
        if i + 3 >= s.len() || s[i + 1] != 'x' {
            None
        } else {
            match numbers::bounded_value(seq![s[i + 2], s[i + 3]], 16, 255) {
                Some(v) => unescaped_from(s, i + 4, out.push(v as u8)),
                None => None,
            }
        }
    } else {
        unescaped_from(s, i + 1, out.push(s[i] as u8))
    }
}

/// The bytes of a quoted string that is ASCII throughout.
pub open spec fn unquoted(s: Seq<char>) -> Option<Seq<u8>> {
    match text::after_prefix(s, "\""@) {
        None => None,
        Some(rest) => match text::before_suffix(rest, "\""@) {
            None => None,
            Some(inner) => if vstd::utf8::is_ascii_chars(inner) {
                unescaped_from(inner, 0, Seq::empty())
            } else {
                None
            },
        },
    }
}

/// The view of optional bytes.
pub open spec fn byte_option(o: Option<Vec<u8>>) -> Option<Seq<u8>> {
    match o {
        Some(v) => Some(v@),
        None => None,
    }
}

/// The value of one hexadecimal digit, in either letter case.
fn hex_value(c: char) -> (r: Option<u8>)
    ensures
        match r {
            Some(v) => numbers::digit_value(c, 16) == Some(v as int) && v < 16,
            None => numbers::digit_value(c, 16) is None,
        },
{
    if '0' <= c && c <= '9' {
        Some((c as u32 - 48) as u8)
    } else if 'a' <= c && c <= 'f' {
        Some((c as u32 - 87) as u8)
    } else if 'A' <= c && c <= 'F' {
        Some((c as u32 - 55) as u8)
    } else {
        None
    }
}

/// The byte that two characters spell, of which the first may be a plus sign.
fn hex_pair(a: char, b: char) -> (r: Option<u8>)
    ensures
        match r {
            Some(v) => numbers::bounded_value(seq![a, b], 16, 255) == Some(v as int),
            None => numbers::bounded_value(seq![a, b], 16, 255) is None,
        },
{
    proof {
        reveal_with_fuel(numbers::digits_value, 3);
        assert(seq![a, b].subrange(1, 2) =~= seq![b]);
    }
    if a == '+' {
        hex_value(b)
    } else {
        match (hex_value(a), hex_value(b)) {
            (Some(high), Some(low)) => Some(high * 16 + low),
            _ => None,
        }
    }
}

/// Gives the bytes of a quoted ASCII string.
pub fn unquote(s: &str) -> (r: Option<Vec<u8>>)
    ensures
        byte_option(r) == unquoted(s@),
{
    let inner: &str = match text::strip_prefix(s, "\"") {
        Some(rest) => match text::strip_suffix(rest, "\"") {
            Some(inner) => inner,
            None => return None,
        },
        None => return None,
    };
    if !inner.is_ascii() {
        return None;
    }
    let v: Vec<char> = text::chars_of(inner);
    let mut out: Vec<u8> = Vec::new();
    let mut i: usize = 0;
    while i < v.len()
        invariant
            v@ == inner@,
            i <= v@.len(),
            vstd::utf8::is_ascii_chars(inner@),
            unquoted(s@) == unescaped_from(inner@, i as int, out@),
        decreases v@.len() - i,
    {
        let c: char = v[i];
        assert(vstd::utf8::is_ascii_chars(inner@) ==> (inner@[i as int] as u32) < 128);
        if c == '\\' {
            if v.len() - i <= 3 || v[i + 1] != 'x' {
                return None;
            }
            match hex_pair(v[i + 2], v[i + 3]) {
                Some(b) => {
                    out.push(b);
                },
                None => return None,
            }
            i = i + 4;
        } else {
            out.push(c as u8);
            i = i + 1;
        }
    }
    Some(out)
}

/// Whether `\x` stands at an index of a text.
pub open spec fn escape_at(s: Seq<char>, k: int) -> bool {
    s[k] == '\\' && s[k + 1] == 'x'
}

/// Whether a text is made of groups of four characters that start with `\x`.
pub open spec fn escapes_alone(s: Seq<char>) -> bool {
    s.len() % 4 == 0 && forall|k: int|
        0 <= k < s.len() && k % 4 == 0 ==> #[trigger] escape_at(s, k)
}

/// The bytes of an annotation in which every byte is escaped.
pub open spec fn annotation_bytes(s: Seq<char>) -> Option<Seq<u8>> {
    if escapes_alone(s) {
        unquoted("\""@ + s + "\""@)
    } else {
        None
    }
}

/// Decode a complete `-xx` annotation payload after its angle delimiters have
/// been checked. Callers retain responsibility for pathname-role constraints,
/// including whether the decoded bytes must spell an absolute path.
pub fn decode_xx_annotation(encoded: &str) -> (r: Option<Vec<u8>>)
    ensures
        byte_option(r) == annotation_bytes(encoded@),
{
    let v: Vec<char> = text::chars_of(encoded);
    if v.len() % 4 != 0 {
        return None;
    }
    let mut i: usize = 0;
    while i < v.len()
        invariant
            v@ == encoded@,
            v.len() % 4 == 0,
            i % 4 == 0,
            i <= v@.len(),
            forall|k: int| 0 <= k < i && k % 4 == 0 ==> #[trigger] escape_at(v@, k),
        decreases v@.len() - i,
    {
        if v[i] != '\\' || v[i + 1] != 'x' {
            assert(!escapes_alone(encoded@)) by {
                assert(!escape_at(encoded@, i as int));
            }
            return None;
        }
        assert forall|k: int| 0 <= k < i + 4 && k % 4 == 0 implies #[trigger] escape_at(v@, k) by {
            if k >= i {
                assert(k == i);
            }
        }
        i = i + 4;
    }
    let mut quoted: String = "\"".to_owned();
    quoted.append(encoded);
    quoted.append("\"");
    unquote(quoted.as_str())
}

/// Whether bytes start with a slash.
pub open spec fn absolute(p: Seq<u8>) -> bool {
    p.len() > 0 && p[0] == '/' as u8
}

/// The absolute path in the angle brackets behind a descriptor.
pub open spec fn descriptor_path(value: Seq<char>) -> Option<Seq<char>> {
    match text::split_char(value, '<') {
        None => None,
        Some((_, annotation)) => match text::before_suffix(annotation, ">"@) {
            None => None,
            Some(encoded) => if encoded.len() == 0 {
                None
            } else {
                match annotation_bytes(encoded) {
                    Some(p) if absolute(p) => Some(model::escaped(p)),
                    _ => None,
                }
            },
        },
    }
}

/// Whether bytes start with a slash.
fn is_absolute(p: &Vec<u8>) -> (r: bool)
    ensures
        r == absolute(p@),
{
    p.len() > 0 && p[0] == 47
}

/// Decode only the complete `-xx` pathname annotation. No filesystem lookup.
pub fn annotated_path(value: &str) -> (r: Option<String>)
    ensures
        views::opt(r) == descriptor_path(value@),
{
    match text::split_once_char(value, '<') {
        Some((_, annotation)) => match text::strip_suffix(annotation, ">") {
            Some(encoded) => {
                if encoded.unicode_len() == 0 {
                    return None;
                }
                match decode_xx_annotation(encoded) {
                    Some(p) => if is_absolute(&p) {
                        Some(bytes(p.as_slice()))
                    } else {
                        None
                    },
                    None => None,
                }
            },
            None => None,
        },
        None => None,
    }
}

/// A directory and a path relative to it, with one slash added where needed.
pub open spec fn joined(base: Seq<u8>, p: Seq<u8>) -> Seq<u8> {
    if base.len() > 0 && base.last() == '/' as u8 {
        base + p
    } else {
        base.push('/' as u8) + p
    }
}

/// The path that a call names: absolute as it stands, or relative to an
/// annotated directory descriptor, or marked as relative with what is missing.
pub open spec fn path_text(a: Seq<Seq<char>>, at: bool) -> Option<Seq<char>> {
    let operand: int = if at {
        1
    } else {
        0
    };
    if operand >= a.len() {
        None
    } else {
        match unquoted(a[operand]) {
            None => None,
            Some(p) => if absolute(p) {
                Some(model::escaped(p))
            } else if at {
                match text::split_char(a[0], '<') {
                    Some((_, annotation)) => match text::before_suffix(annotation, ">"@) {
                        None => Some(
                            "relative:"@ + model::escaped(p) + " [dirfd annotation incomplete]"@,
                        ),
                        Some(encoded) => match annotation_bytes(encoded) {
                            Some(base) if absolute(base) && p.len() > 0 => Some(
                                model::escaped(joined(base, p)),
                            ),
                            _ => Some(
                                "relative:"@ + model::escaped(p) + " [dirfd:"@ + encoded + "]"@,
                            ),
                        },
                    },
                    None => if a[0] != "AT_FDCWD"@ {
                        Some("relative:"@ + model::escaped(p) + " [dirfd unresolved]"@)
                    } else {
                        Some("relative:"@ + model::escaped(p) + " [cwd unresolved]"@)
                    },
                }
            } else {
                Some("relative:"@ + model::escaped(p) + " [cwd unresolved]"@)
            },
        }
    }
}

/// Joins a directory and a relative path.
fn join(base: &Vec<u8>, p: &Vec<u8>) -> (r: Vec<u8>)
    ensures
        r@ == joined(base@, p@),
{
    let mut out: Vec<u8> = Vec::new();
    for i in 0..base.len()
        invariant
            out@ == base@.take(i as int),
    {
        out.push(base[i]);
    }
    assert(out@ =~= base@);
    if !(base.len() > 0 && base[base.len() - 1] == 47) {
        out.push(47);
    }
    let ghost start = out@;
    for i in 0..p.len()
        invariant
            out@ == start + p@.take(i as int),
    {
        out.push(p[i]);
    }
    assert(out@ =~= start + p@);
    out
}

/// Marks a relative path.
fn relative(p: &Vec<u8>, note: &str) -> (r: String)
    ensures
        r@ == "relative:"@ + model::escaped(p@) + note@,
{
    let mut s: String = "relative:".to_owned();
    s.append(bytes(p.as_slice()).as_str());
    s.append(note);
    s
}

/// Gives the path that a call names; `at` calls take it behind a directory
/// descriptor.
pub fn path(a: &[&str], at: bool) -> (r: Option<String>)
    ensures
        views::opt(r) == path_text(views::each(a@), at),
{
    let operand: usize = if at {
        1
    } else {
        0
    };
    if operand >= a.len() {
        return None;
    }
    let p: Vec<u8> = match unquote(a[operand]) {
        Some(p) => p,
        None => return None,
    };
    if is_absolute(&p) {
        return Some(bytes(p.as_slice()));
    }
    if at {
        let dir: &str = a[0];
        match text::split_once_char(dir, '<') {
            Some((_, annotation)) => {
                // With -xx, verified strace annotations encode every pathname byte.
                // Decode only that exact form; suffixes such as " (deleted)" stay unknown.
                let encoded: &str = match text::strip_suffix(annotation, ">") {
                    Some(encoded) => encoded,
                    None => return Some(relative(&p, " [dirfd annotation incomplete]")),
                };
                match decode_xx_annotation(encoded) {
                    Some(base) => {
                        if is_absolute(&base) && p.len() > 0 {
                            return Some(bytes(join(&base, &p).as_slice()));
                        }
                    },
                    None => {},
                }
                let mut s: String = relative(&p, " [dirfd:");
                s.append(encoded);
                s.append("]");
                return Some(s);
            },
            None => {},
        }
        if !text::same(dir, "AT_FDCWD") {
            return Some(relative(&p, " [dirfd unresolved]"));
        }
    }
    Some(relative(&p, " [cwd unresolved]"))
}

/// The field that follows `marker` in one argument, up to a comma or, without
/// one, a closing brace.
pub open spec fn field_in(arg: Seq<char>, marker: Seq<char>) -> Option<Seq<char>> {
    match text::split_text(arg, marker) {
        None => None,
        Some((_, value)) => {
            let comma = text::first_at(value, text::just(','), 0);
            let end = if comma < value.len() {
                comma
            } else {
                text::first_at(value, text::just('}'), 0)
            };
            let field = text::trimmed(value.subrange(0, end));
            if field.len() > 0 {
                Some(field)
            } else {
                None
            }
        },
    }
}

/// The first field that follows `marker` in the arguments from `i` on.
pub open spec fn field_from(a: Seq<Seq<char>>, marker: Seq<char>, i: int) -> Option<Seq<char>>
    decreases a.len() - i,
{
    if i < 0 || i >= a.len() {
        None
    } else {
        match field_in(a[i], marker) {
            Some(field) => Some(field),
            None => field_from(a, marker, i + 1),
        }
    }
}

/// The field that follows `marker` in some arguments.
pub open spec fn field_text(a: Seq<Seq<char>>, marker: Seq<char>) -> Option<Seq<char>> {
    field_from(a, marker, 0)
}

/// Extract one complete field from a strace structure. Missing or truncated
/// fields stay unknown rather than being supplied with ABI defaults.
pub fn field_expression<'a>(args: &[&'a str], marker: &str) -> (r: Option<&'a str>)
    ensures
        views::opt(r) == field_text(views::each(args@), marker@),
{
    for i in 0..args.len()
        invariant
            field_text(views::each(args@), marker@) == field_from(
                views::each(args@),
                marker@,
                i as int,
            ),
    {
        let arg: &'a str = args[i];
        assert(views::each(args@)[i as int] == arg@);
        match text::split_once_text(arg, marker) {
            Some((_, value)) => {
                let comma: usize = text::char_position(value, ',');
                let end: usize = if comma < value.unicode_len() {
                    comma
                } else {
                    text::char_position(value, '}')
                };
                let field: &'a str = text::trim(value.substring_char(0, end));
                if field.unicode_len() > 0 {
                    return Some(field);
                }
            },
            None => {},
        }
    }
    None
}

/// Behind the spelling of the first `k` bytes, decoding goes on to all of them.
proof fn spelled_from(v: Seq<u8>, k: int)
    requires
        0 <= k <= v.len(),
    ensures
        unescaped_from(
            model::escaped(v),
            model::escaped_upto(v, k).len() as int,
            v.take(k),
        ) == Some(v),
        model::escaped_upto(v, k).is_prefix_of(model::escaped(v)),
    decreases v.len() - k,
{
    let s = model::escaped(v);
    let i = model::escaped_upto(v, k).len() as int;
    if k == v.len() {
        assert(v.take(k) == v);
    } else {
        spelled_from(v, k + 1);
        let b = v[k];
        let next = model::escaped_upto(v, k + 1);
        assert(next == model::escaped_upto(v, k) + model::escaped_byte(b));
        assert(v.take(k + 1) == v.take(k).push(b));
        assert forall|j: int| 0 <= j < next.len() implies #[trigger] s[j] == next[j] by {
            assert(s.subrange(0, next.len() as int)[j] == next[j]);
        }
        assert(model::escaped_upto(v, k) =~= s.subrange(0, i));
        assert(s[i] == model::escaped_byte(b)[0]);
        if model::plain_byte(b) {
            assert((b as char) as u8 == b);
        } else {
            let pair = seq![s[i + 2], s[i + 3]];
            assert(s[i + 1] == model::escaped_byte(b)[1]);
            assert(s[i + 2] == model::escaped_byte(b)[2]);
            assert(s[i + 3] == model::escaped_byte(b)[3]);
            hex_pair_value(b, pair);
        }
    }
}

/// Two hexadecimal digits of a byte name it.
pub proof fn hex_pair_value(b: u8, pair: Seq<char>)
    requires
        pair == seq![numbers::hex_digit(b as int / 16), numbers::hex_digit(b as int % 16)],
    ensures
        numbers::bounded_value(pair, 16, 255) == Some(b as int),
{
    reveal_with_fuel(numbers::digits_value, 3);
    let n = b as int;
    assert(numbers::digit_value(pair[0], 16) == Some(n / 16));
    assert(numbers::digit_value(pair[1], 16) == Some(n % 16));
    assert(n / 16 * 16 + n % 16 == n);
}

/// A spelling is ASCII throughout.
proof fn spelling_is_ascii(v: Seq<u8>, n: int)
    requires
        0 <= n <= v.len(),
    ensures
        vstd::utf8::is_ascii_chars(model::escaped_upto(v, n)),
    decreases n,
{
    if n > 0 {
        spelling_is_ascii(v, n - 1);
        let before = model::escaped_upto(v, n - 1);
        let s = model::escaped_upto(v, n);
        assert forall|i: int| 0 <= i < s.len() implies (#[trigger] s[i] as nat) < 128 by {
            if i < before.len() {
                assert(s[i] == before[i]);
            } else {
                assert(s[i] == model::escaped_byte(v[n - 1])[i - before.len()]);
            }
        }
    }
}

/// Decoding the quoted spelling of bytes gives the bytes back: what [`bytes`] spells,
/// [`unquote`] reads.
pub proof fn quoted_spelling_reads_back(v: Seq<u8>)
    ensures
        unquoted("\""@ + model::escaped(v) + "\""@) == Some(v),
{
    reveal_strlit("\"");
    let inner = model::escaped(v);
    let s = "\""@ + inner + "\""@;
    assert(s.subrange(0, 1) =~= "\""@);
    let rest = s.subrange(1, s.len() as int);
    assert(rest =~= inner + "\""@);
    assert(rest.subrange(rest.len() - 1, rest.len() as int) =~= "\""@);
    assert(rest.subrange(0, rest.len() - 1) =~= inner);
    spelling_is_ascii(v, v.len() as int);
    spelled_from(v, 0);
    assert(v.take(0) =~= Seq::<u8>::empty());
}

} // verus!
