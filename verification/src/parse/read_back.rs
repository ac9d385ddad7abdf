//! That what a trace spells is what is read from it.
//!
//! A call is spelled as the collector spells it: byte strings with every byte escaped,
//! lists in brackets, and arguments separated by a comma and a space.
use vstd::prelude::*;

use crate::model;
use crate::numbers;
use crate::parse::syntax;
use crate::parse::syntax::ArgScan;
use crate::parse::trace;
use crate::text;

verus! {

/// The first `n` of some bytes, each escaped.
pub open spec fn hexed_upto(v: Seq<u8>, n: int) -> Seq<char>
    decreases n,
{
    if n <= 0 {
        Seq::empty()
    } else {
        hexed_upto(v, n - 1) + seq![
            '\\',
            'x',
            numbers::hex_digit(v[n - 1] as int / 16),
            numbers::hex_digit(v[n - 1] as int % 16),
        ]
    }
}

/// Bytes, each escaped.
pub open spec fn hexed(v: Seq<u8>) -> Seq<char> {
    hexed_upto(v, v.len() as int)
}

/// A quoted string.
pub open spec fn quoted(v: Seq<u8>) -> Seq<char> {
    "\""@ + hexed(v) + "\""@
}

/// The first `n` of some texts, separated by a comma and a space.
pub open spec fn listed_upto(items: Seq<Seq<char>>, n: int) -> Seq<char>
    decreases n,
{
    if n <= 0 {
        Seq::empty()
    } else if n == 1 {
        items[0]
    } else {
        listed_upto(items, n - 1) + ", "@ + items[n - 1]
    }
}

/// Texts, separated by a comma and a space.
pub open spec fn listed(items: Seq<Seq<char>>) -> Seq<char> {
    listed_upto(items, items.len() as int)
}

/// Quoted strings.
pub open spec fn all_quoted(list: Seq<Seq<u8>>) -> Seq<Seq<char>> {
    list.map_values(|v: Seq<u8>| quoted(v))
}

/// A list of quoted strings in brackets.
pub open spec fn bracketed(list: Seq<Seq<u8>>) -> Seq<char> {
    "["@ + listed(all_quoted(list)) + "]"@
}

/// Whether a text is a word: some characters without white space, quotation marks,
/// brackets or commas.
pub open spec fn is_word(s: Seq<char>) -> bool {
    &&& s.len() > 0
    &&& forall|i: int| 0 <= i < s.len() ==> word_char(#[trigger] s[i])
}

/// Whether a character may stand in a word.
pub open spec fn word_char(c: char) -> bool {
    !text::white_space(c) && c != '"' && c != ',' && !syntax::opens(c) && !syntax::closes(c)
}

/// A call whose arguments are some texts.
pub open spec fn call_text(op: Seq<char>, items: Seq<Seq<char>>, ret: Seq<char>) -> Seq<char> {
    op + "("@ + listed(items) + ") = "@ + ret
}

/// Whether a byte is escaped at its place.
spec fn byte_at(s: Seq<char>, k: int, b: u8) -> bool {
    &&& s[4 * k] == '\\'
    &&& s[4 * k + 1] == 'x'
    &&& s[4 * k + 2] == numbers::hex_digit(b as int / 16)
    &&& s[4 * k + 3] == numbers::hex_digit(b as int % 16)
}

/// The characters of the bytes of an escaped string.
proof fn hexed_chars(v: Seq<u8>, n: int)
    requires
        0 <= n <= v.len(),
    ensures
        hexed_upto(v, n).len() == 4 * n,
        forall|k: int| 0 <= k < n ==> #[trigger] byte_at(hexed_upto(v, n), k, v[k]),
    decreases n,
{
    if n > 0 {
        hexed_chars(v, n - 1);
        let a = hexed_upto(v, n - 1);
        let s = hexed_upto(v, n);
        assert forall|k: int| 0 <= k < n implies #[trigger] byte_at(s, k, v[k]) by {
            if k < n - 1 {
                assert(byte_at(a, k, v[k]));
            }
        }
    }
}

/// Escaped bytes are spelled by characters of words.
pub(crate) proof fn hexed_is_plain(v: Seq<u8>)
    ensures
        hexed(v).len() == 4 * v.len(),
        forall|i: int| 0 <= i < hexed(v).len() ==> word_char(#[trigger] hexed(v)[i]),
        syntax::escapes_alone(hexed(v)),
{
    hexed_chars(v, v.len() as int);
    let h = hexed(v);
    assert forall|i: int| 0 <= i < h.len() implies word_char(#[trigger] h[i]) by {
        let k = i / 4;
        assert(byte_at(h, k, v[k]));
        assert(i == 4 * k || i == 4 * k + 1 || i == 4 * k + 2 || i == 4 * k + 3);
    }
    assert forall|i: int| 0 <= i < h.len() && i % 4 == 0 implies #[trigger] syntax::escape_at(
        h,
        i,
    ) by {
        let k = i / 4;
        assert(byte_at(h, k, v[k]));
    }
}

/// Decoding goes on behind the first `k` bytes.
proof fn unescapes_from(v: Seq<u8>, k: int)
    requires
        0 <= k <= v.len(),
    ensures
        syntax::unescaped_from(hexed(v), 4 * k, v.take(k)) == Some(v),
    decreases v.len() - k,
{
    hexed_chars(v, v.len() as int);
    let s = hexed(v);
    if k == v.len() {
        assert(v.take(k) =~= v);
    } else {
        unescapes_from(v, k + 1);
        assert(byte_at(s, k, v[k]));
        let pair = seq![s[4 * k + 2], s[4 * k + 3]];
        syntax::hex_pair_value(v[k], pair);
        assert(v.take(k + 1) =~= v.take(k).push(v[k]));
    }
}

/// A quoted string is read as its bytes.
pub proof fn quoted_strings_read_back(v: Seq<u8>)
    ensures
        syntax::unquoted(quoted(v)) == Some(v),
{
    reveal_strlit("\"");
    let inner = hexed(v);
    let s = quoted(v);
    assert(s.subrange(0, 1) =~= "\""@);
    let rest = s.subrange(1, s.len() as int);
    assert(rest =~= inner + "\""@);
    assert(rest.subrange(rest.len() - 1, rest.len() as int) =~= "\""@);
    assert(rest.subrange(0, rest.len() - 1) =~= inner);
    hexed_chars(v, v.len() as int);
    assert forall|i: int| 0 <= i < inner.len() implies '\0' <= #[trigger] inner[i]
        <= '\u{7f}' by {
        let k = i / 4;
        assert(byte_at(inner, k, v[k]));
        assert(i == 4 * k || i == 4 * k + 1 || i == 4 * k + 2 || i == 4 * k + 3);
    }
    assert(vstd::utf8::is_ascii_chars(inner));
    unescapes_from(v, 0);
    assert(v.take(0) =~= Seq::<u8>::empty());
}

/// What was scanned does not depend on what follows.
proof fn scan_of_prefix(s: Seq<char>, t: Seq<char>, n: int)
    requires
        0 <= n <= s.len(),
        n <= t.len(),
        s.take(n) == t.take(n),
    ensures
        syntax::scan(s, n) == syntax::scan(t, n),
        0 <= syntax::scan(s, n).start <= n,
    decreases n,
{
    if n > 0 {
        assert(s.take(n - 1) =~= s.take(n).take(n - 1));
        assert(t.take(n - 1) =~= t.take(n).take(n - 1));
        scan_of_prefix(s, t, n - 1);
        assert(s[n - 1] == s.take(n)[n - 1]);
        assert(t[n - 1] == t.take(n)[n - 1]);
        let start = syntax::scan(s, n - 1).start;
        assert(s.subrange(start, n - 1) =~= s.take(n).subrange(start, n - 1));
        assert(t.subrange(start, n - 1) =~= t.take(n).subrange(start, n - 1));
    }
}

/// Whether scanning goes over a text from `i` up to `j` as if it were not there.
spec fn passes(s: Seq<char>, i: int, j: int) -> bool {
    syntax::scan(s, j) == syntax::scan(s, i)
}

/// Whether scanning stands outside of quoted strings.
spec fn outside(s: Seq<char>, i: int) -> bool {
    !syntax::scan(s, i).quote && !syntax::scan(s, i).escape
}

proof fn scan_passes_word(s: Seq<char>, i: int, j: int)
    requires
        0 <= i <= j <= s.len(),
        outside(s, i),
        forall|k: int|
            i <= k < j ==> #[trigger] s[k] != '"' && s[k] != ',' && !syntax::opens(s[k])
                && !syntax::closes(s[k]),
    ensures
        passes(s, i, j),
    decreases j - i,
{
    if i < j {
        scan_passes_word(s, i, j - 1);
        assert(s[j - 1] != '"');
    }
}

/// Inside of a quoted string, escaped bytes are passed.
proof fn scan_passes_bytes(s: Seq<char>, i: int, v: Seq<u8>, n: int)
    requires
        0 <= n <= v.len(),
        0 <= i,
        i + 4 * v.len() <= s.len(),
        s.subrange(i, i + 4 * v.len()) == hexed(v),
        syntax::scan(s, i).quote,
        !syntax::scan(s, i).escape,
    ensures
        syntax::scan(s, i + 4 * n) == syntax::scan(s, i),
    decreases n,
{
    hexed_chars(v, v.len() as int);
    if n > 0 {
        scan_passes_bytes(s, i, v, n - 1);
        let k = n - 1;
        let h = hexed(v);
        assert(byte_at(h, k, v[k]));
        assert(s[i + 4 * k] == h[4 * k] && s[i + 4 * k + 1] == h[4 * k + 1] && s[i + 4 * k + 2]
            == h[4 * k + 2] && s[i + 4 * k + 3] == h[4 * k + 3]);
        let st = syntax::scan(s, i + 4 * k);
        assert(syntax::scan(s, i + 4 * k + 1) == (ArgScan { escape: true, ..st }));
        assert(syntax::scan(s, i + 4 * k + 2) == st);
        assert(h[4 * k + 2] != '"' && h[4 * k + 3] != '"' && h[4 * k + 2] != '\\' && h[4 * k + 3]
            != '\\');
        assert(syntax::scan(s, i + 4 * k + 3) == st);
        assert(syntax::scan(s, i + 4 * k + 4) == st);
    }
}

proof fn scan_passes_quoted(s: Seq<char>, i: int, v: Seq<u8>)
    requires
        0 <= i,
        i + quoted(v).len() <= s.len(),
        s.subrange(i, i + quoted(v).len()) == quoted(v),
        outside(s, i),
    ensures
        passes(s, i, i + quoted(v).len()),
{
    reveal_strlit("\"");
    hexed_chars(v, v.len() as int);
    let q = quoted(v);
    let st = syntax::scan(s, i);
    assert(s[i] == q[0]);
    assert(syntax::scan(s, i + 1) == (ArgScan { quote: true, ..st }));
    assert(s.subrange(i + 1, i + 1 + 4 * v.len()) =~= hexed(v)) by {
        assert forall|k: int| 0 <= k < 4 * v.len() implies s[i + 1 + k] == hexed(v)[k] by {
            assert(s.subrange(i, i + q.len())[1 + k] == q[1 + k]);
        }
    }
    scan_passes_bytes(s, i + 1, v, v.len() as int);
    let last = i + 1 + 4 * v.len();
    assert(s[last] == s.subrange(i, i + q.len())[last - i]);
    assert(s[last] == '"');
}

/// How a descriptor is spelled with the path that it stands for.
pub open spec fn described(descriptor: Seq<char>, path: Seq<u8>) -> Seq<char> {
    descriptor + "<"@ + hexed(path) + ">"@
}

/// An argument: a word, a quoted string, a list of quoted strings, or a descriptor with its
/// path.
pub enum Argument {
    /// A word.
    Word(Seq<char>),
    /// A quoted string.
    Quoted(Seq<u8>),
    /// A list of quoted strings in brackets.
    List(Seq<Seq<u8>>),
    /// A descriptor with the path that it stands for.
    Descriptor(Seq<char>, Seq<u8>),
}

impl Argument {
    /// Whether a word is one.
    pub open spec fn wf(self) -> bool {
        &&& self matches Argument::Word(w) ==> is_word(w)
        &&& self matches Argument::Descriptor(w, _) ==> is_word(w)
    }

    /// How the argument is spelled.
    pub open spec fn spelling(self) -> Seq<char> {
        match self {
            Argument::Word(w) => w,
            Argument::Quoted(v) => quoted(v),
            Argument::List(list) => bracketed(list),
            Argument::Descriptor(w, path) => described(w, path),
        }
    }
}

/// How arguments are spelled.
pub open spec fn spellings(items: Seq<Argument>) -> Seq<Seq<char>> {
    items.map_values(|a: Argument| a.spelling())
}

/// Whether all arguments are well-formed.
pub open spec fn all_wf(items: Seq<Argument>) -> bool {
    forall|i: int| 0 <= i < items.len() ==> (#[trigger] items[i]).wf()
}

/// Within brackets, scanning goes over a list.
proof fn scan_passes_list(s: Seq<char>, i: int, list: Seq<Seq<u8>>, n: int)
    requires
        0 <= n <= list.len(),
        0 <= i,
        i + listed_upto(all_quoted(list), n).len() <= s.len(),
        s.subrange(i, i + listed_upto(all_quoted(list), n).len()) == listed_upto(
            all_quoted(list),
            n,
        ),
        outside(s, i),
        syntax::scan(s, i).depth > 0,
    ensures
        passes(s, i, i + listed_upto(all_quoted(list), n).len()),
    decreases n,
{
    if n > 0 {
        reveal_strlit(", ");
        let items = all_quoted(list);
        let whole = listed_upto(items, n);
        let before = listed_upto(items, n - 1);
        let q = quoted(list[n - 1]);
        assert(items[n - 1] == q);
        let head = if n == 1 {
            before
        } else {
            before + ", "@
        };
        assert(whole =~= head + q);
        assert forall|k: int| 0 <= k < whole.len() implies s[i + k] == whole[k] by {
            assert(s.subrange(i, i + whole.len())[k] == whole[k]);
        }
        assert(s.subrange(i, i + before.len()) =~= before);
        scan_passes_list(s, i, list, n - 1);
        let at = i + head.len();
        if n > 1 {
            let b = before.len() as int;
            assert(s[i + b] == whole[b] && s[i + b + 1] == whole[b + 1]);
            assert(s[i + b] == ',' && s[i + b + 1] == ' ');
            assert(syntax::scan(s, i + b + 1) == syntax::scan(s, i + b));
            assert(syntax::scan(s, i + b + 2) == syntax::scan(s, i + b));
        }
        assert(passes(s, i, at));
        assert forall|k: int| 0 <= k < q.len() implies s[at + k] == q[k] by {
            assert(s[i + (head.len() + k)] == whole[head.len() + k]);
        }
        assert(s.subrange(at, at + q.len()) =~= q);
        scan_passes_quoted(s, at, list[n - 1]);
    }
}

/// Scanning goes over an argument.
proof fn scan_passes_argument(s: Seq<char>, i: int, a: Argument)
    requires
        0 <= i,
        a.wf(),
        i + a.spelling().len() <= s.len(),
        s.subrange(i, i + a.spelling().len()) == a.spelling(),
        outside(s, i),
        syntax::scan(s, i).depth >= 0,
    ensures
        passes(s, i, i + a.spelling().len()),
{
    let t = a.spelling();
    assert forall|k: int| 0 <= k < t.len() implies s[i + k] == t[k] by {
        assert(s.subrange(i, i + t.len())[k] == t[k]);
    }
    match a {
        Argument::Word(w) => {
            assert forall|k: int| i <= k < i + w.len() implies #[trigger] s[k] != '"' && s[k] != ','
                && !syntax::opens(s[k]) && !syntax::closes(s[k]) by {
                assert(s[i + (k - i)] == t[k - i]);
                assert(word_char(w[k - i]));
            }
            scan_passes_word(s, i, i + w.len());
        },
        Argument::Quoted(v) => {
            scan_passes_quoted(s, i, v);
        },
        Argument::List(list) => {
            reveal_strlit("[");
            reveal_strlit("]");
            let inner = listed(all_quoted(list));
            let st = syntax::scan(s, i);
            assert(s[i + 0] == t[0]);
            assert(s[i] == '[');
            assert(syntax::scan(s, i + 1) == (ArgScan { depth: st.depth + 1, ..st }));
            assert(s.subrange(i + 1, i + 1 + inner.len()) =~= inner) by {
                assert forall|k: int| 0 <= k < inner.len() implies s[i + 1 + k] == inner[k] by {
                    assert(s[i + (1 + k)] == t[1 + k]);
                }
            }
            scan_passes_list(s, i + 1, list, list.len() as int);
            let last = inner.len() + 1;
            assert(s[i + last] == t[last as int]);
            assert(s[i + last] == ']');
        },
        Argument::Descriptor(w, path) => {
            reveal_strlit("<");
            reveal_strlit(">");
            let h = hexed(path);
            let a = i + w.len();
            let b = a + 1 + h.len();
            let st = syntax::scan(s, i);
            assert forall|k: int| i <= k < a implies #[trigger] s[k] != '"' && s[k] != ','
                && !syntax::opens(s[k]) && !syntax::closes(s[k]) by {
                assert(s[i + (k - i)] == t[k - i]);
                assert(word_char(w[k - i]));
            }
            scan_passes_word(s, i, a);
            assert(s[i + w.len()] == t[w.len() as int]);
            assert(syntax::scan(s, a + 1) == (ArgScan { depth: st.depth + 1, ..st }));
            hexed_is_plain(path);
            assert forall|k: int| a + 1 <= k < b implies #[trigger] s[k] != '"' && s[k] != ','
                && !syntax::opens(s[k]) && !syntax::closes(s[k]) by {
                assert(s[i + (k - i)] == t[k - i]);
                assert(word_char(h[k - a - 1]));
            }
            scan_passes_word(s, a + 1, b);
            assert(s[i + (b - i)] == t[b - i]);
            assert(syntax::scan(s, b + 1) == st);
        },
    }
}

/// A spelling neither starts nor ends with white space.
proof fn spelling_is_trimmed(a: Argument)
    requires
        a.wf(),
    ensures
        a.spelling().len() > 0,
        text::trimmed(a.spelling()) == a.spelling(),
        text::trimmed(seq![' '] + a.spelling()) == a.spelling(),
{
    reveal_strlit("\"");
    reveal_strlit("[");
    reveal_strlit("]");
    let t = a.spelling();
    if a is Word {
        assert(word_char(t[0]) && word_char(t.last()));
    }
    if let Argument::Descriptor(w, path) = a {
        reveal_strlit(">");
        assert(t[0] == w[0]);
        assert(word_char(w[0]));
        assert(t.last() == '>');
    }
    text::trimmed_stays(t);
    text::leading_space_is_trimmed(t, ' ');
}

/// The arguments of a call are read as they are spelled.
proof fn scan_of_arguments(items: Seq<Argument>, n: int)
    requires
        0 < n <= items.len(),
        all_wf(items),
    ensures
        ({
            let s = listed_upto(spellings(items), n);
            let st = syntax::scan(s, s.len() as int);
            &&& !st.quote && !st.escape && st.depth == 0
            &&& 0 <= st.start <= s.len()
            &&& st.out == spellings(items).take(n - 1)
            &&& s.subrange(st.start, s.len() as int) == (if n == 1 {
                items[0].spelling()
            } else {
                seq![' '] + items[n - 1].spelling()
            })
        }),
    decreases n,
{
    reveal_strlit(", ");
    let all = spellings(items);
    let s = listed_upto(all, n);
    let last = items[n - 1];
    let q = last.spelling();
    assert(items[n - 1].wf());
    assert(all[n - 1] == q);
    if n == 1 {
        assert(s == q);
        assert(s.subrange(0, q.len() as int) =~= q);
        assert(syntax::scan(s, 0).depth == 0);
        scan_passes_argument(s, 0, last);
        assert(s.subrange(0, s.len() as int) =~= q);
        assert(all.take(0) =~= Seq::<Seq<char>>::empty());
    } else {
        scan_of_arguments(items, n - 1);
        assert(items[n - 2].wf());
        let b = listed_upto(all, n - 1);
        let at = b.len() as int;
        assert(s.take(at) =~= b);
        assert(b.take(at) =~= b);
        scan_of_prefix(s, b, at);
        let st = syntax::scan(s, at);
        assert(s[at] == ',' && s[at + 1] == ' ');
        let made = s.subrange(st.start, at);
        assert(made =~= b.subrange(st.start, at));
        spelling_is_trimmed(items[n - 2]);
        assert(text::trimmed(made) == items[n - 2].spelling());
        let next = syntax::scan(s, at + 1);
        assert(next.out == st.out.push(items[n - 2].spelling()));
        assert(next.out =~= all.take(n - 1));
        assert(next.start == at + 1);
        assert(syntax::scan(s, at + 2) == next);
        assert(s.subrange(at + 2, at + 2 + q.len()) =~= q);
        scan_passes_argument(s, at + 2, last);
        assert(s.subrange(at + 1, s.len() as int) =~= seq![' '] + q);
    }
}

/// Arguments are read as they are spelled: same number, same order.
pub proof fn arguments_read_back(items: Seq<Argument>)
    requires
        items.len() > 0,
        all_wf(items),
    ensures
        syntax::arguments(listed(spellings(items))) == spellings(items),
{
    let n = items.len() as int;
    scan_of_arguments(items, n);
    assert(items[n - 1].wf());
    spelling_is_trimmed(items[n - 1]);
    let all = spellings(items);
    assert(all.take(n - 1).push(all[n - 1]) =~= all);
}

/// The first `n` quoted strings of a list are decoded to what they spell.
proof fn decoded_lists(list: Seq<Seq<u8>>, n: int)
    requires
        0 <= n <= list.len(),
    ensures
        trace::decoded_upto(all_quoted(list), n) == Some(
            list.take(n).map_values(|v: Seq<u8>| model::escaped(v)),
        ),
    decreases n,
{
    if n > 0 {
        decoded_lists(list, n - 1);
        quoted_strings_read_back(list[n - 1]);
        assert(all_quoted(list)[n - 1] == quoted(list[n - 1]));
        let a = list.take(n - 1).map_values(|v: Seq<u8>| model::escaped(v));
        let b = list.take(n).map_values(|v: Seq<u8>| model::escaped(v));
        assert(b =~= a.push(model::escaped(list[n - 1])));
    } else {
        assert(list.take(0).map_values(|v: Seq<u8>| model::escaped(v)) =~= Seq::empty());
    }
}

/// A list of byte strings is read as the spellings of exactly those byte strings: same
/// number, same order.
pub proof fn execution_arguments_read_back(list: Seq<Seq<u8>>)
    ensures
        trace::argv_of(bracketed(list)) == Some(
            Seq::new(list.len(), |i: int| model::escaped(list[i])),
        ),
{
    reveal_strlit("[");
    reveal_strlit("]");
    reveal_strlit("\"");
    let s = bracketed(list);
    let inner = listed(all_quoted(list));
    assert(s.subrange(0, 1) =~= "["@);
    let rest = s.subrange(1, s.len() as int);
    assert(rest.subrange(rest.len() - 1, rest.len() as int) =~= "]"@);
    assert(rest.subrange(0, rest.len() - 1) =~= inner);
    let expected = Seq::new(list.len(), |i: int| model::escaped(list[i]));
    if list.len() == 0 {
        assert(expected =~= Seq::empty());
    } else {
        let items = list.map_values(|v: Seq<u8>| Argument::Quoted(v));
        assert(spellings(items) =~= all_quoted(list));
        arguments_read_back(items);
        list_is_not_empty(list, list.len() as int);
        decoded_lists(list, list.len() as int);
        assert(list.take(list.len() as int) =~= list);
        assert(list.map_values(|v: Seq<u8>| model::escaped(v)) =~= expected);
    }
}

proof fn list_is_not_empty(list: Seq<Seq<u8>>, n: int)
    requires
        0 < n <= list.len(),
    ensures
        listed_upto(all_quoted(list), n).len() > 0,
    decreases n,
{
    reveal_strlit("\"");
    assert(all_quoted(list)[n - 1] == quoted(list[n - 1]));
    if n > 1 {
        list_is_not_empty(list, n - 1);
    }
}

/// Whether the search for the end of a call goes over the characters from `i` up to `j`.
spec fn calm(s: Seq<char>, i: int, j: int, depth: int, inside: bool) -> bool {
    syntax::closing(s, i, depth, inside, false) == syntax::closing(s, j, depth, inside, false)
}

proof fn calm_plain(s: Seq<char>, i: int, j: int, depth: int)
    requires
        0 <= i <= j <= s.len(),
        forall|k: int| i <= k < j ==> #[trigger] s[k] != '"' && s[k] != '(' && s[k] != ')',
    ensures
        calm(s, i, j, depth, false),
    decreases j - i,
{
    if i < j {
        assert(s[i] != '"');
        calm_plain(s, i + 1, j, depth);
    }
}

proof fn calm_bytes(s: Seq<char>, i: int, v: Seq<u8>, k: int, depth: int)
    requires
        0 <= k <= v.len(),
        0 <= i,
        i + 4 * v.len() <= s.len(),
        s.subrange(i, i + 4 * v.len()) == hexed(v),
    ensures
        calm(s, i + 4 * k, i + 4 * v.len(), depth, true),
    decreases v.len() - k,
{
    hexed_chars(v, v.len() as int);
    if k < v.len() {
        calm_bytes(s, i, v, k + 1, depth);
        let h = hexed(v);
        assert(byte_at(h, k, v[k]));
        let a = i + 4 * k;
        assert(s[a] == h[4 * k] && s[a + 1] == h[4 * k + 1] && s[a + 2] == h[4 * k + 2] && s[a + 3]
            == h[4 * k + 3]);
        assert(syntax::closing(s, a, depth, true, false) == syntax::closing(
            s,
            a + 1,
            depth,
            true,
            true,
        ));
        assert(syntax::closing(s, a + 1, depth, true, true) == syntax::closing(
            s,
            a + 2,
            depth,
            true,
            false,
        ));
        assert(syntax::closing(s, a + 2, depth, true, false) == syntax::closing(
            s,
            a + 3,
            depth,
            true,
            false,
        ));
        assert(syntax::closing(s, a + 3, depth, true, false) == syntax::closing(
            s,
            a + 4,
            depth,
            true,
            false,
        ));
    }
}

proof fn calm_quoted(s: Seq<char>, i: int, v: Seq<u8>, depth: int)
    requires
        0 <= i,
        i + quoted(v).len() <= s.len(),
        s.subrange(i, i + quoted(v).len()) == quoted(v),
    ensures
        calm(s, i, i + quoted(v).len(), depth, false),
{
    reveal_strlit("\"");
    hexed_chars(v, v.len() as int);
    let q = quoted(v);
    assert forall|k: int| 0 <= k < q.len() implies s[i + k] == q[k] by {
        assert(s.subrange(i, i + q.len())[k] == q[k]);
    }
    assert(s[i + 0] == q[0]);
    assert(s.subrange(i + 1, i + 1 + 4 * v.len()) =~= hexed(v)) by {
        assert forall|k: int| 0 <= k < 4 * v.len() implies s[i + 1 + k] == hexed(v)[k] by {
            assert(s[i + (1 + k)] == q[1 + k]);
        }
    }
    calm_bytes(s, i + 1, v, 0, depth);
    let last = 1 + 4 * v.len();
    assert(s[i + last] == q[last as int]);
    assert(s[i + last] == '"');
}

proof fn calm_list(s: Seq<char>, i: int, list: Seq<Seq<u8>>, n: int, depth: int)
    requires
        0 <= n <= list.len(),
        0 <= i,
        i + listed_upto(all_quoted(list), n).len() <= s.len(),
        s.subrange(i, i + listed_upto(all_quoted(list), n).len()) == listed_upto(
            all_quoted(list),
            n,
        ),
    ensures
        calm(s, i, i + listed_upto(all_quoted(list), n).len(), depth, false),
    decreases n,
{
    if n > 0 {
        reveal_strlit(", ");
        let items = all_quoted(list);
        let whole = listed_upto(items, n);
        let before = listed_upto(items, n - 1);
        let q = quoted(list[n - 1]);
        assert(items[n - 1] == q);
        let head = if n == 1 {
            before
        } else {
            before + ", "@
        };
        assert(whole =~= head + q);
        assert forall|k: int| 0 <= k < whole.len() implies s[i + k] == whole[k] by {
            assert(s.subrange(i, i + whole.len())[k] == whole[k]);
        }
        assert(s.subrange(i, i + before.len()) =~= before);
        calm_list(s, i, list, n - 1, depth);
        let at = i + head.len();
        if n > 1 {
            let b = before.len() as int;
            assert(s[i + b] == whole[b] && s[i + (b + 1)] == whole[b + 1]);
            calm_plain(s, i + b, i + b + 2, depth);
        }
        assert forall|k: int| 0 <= k < q.len() implies s[at + k] == q[k] by {
            assert(s[i + (head.len() + k)] == whole[head.len() + k]);
        }
        assert(s.subrange(at, at + q.len()) =~= q);
        calm_quoted(s, at, list[n - 1], depth);
    }
}

proof fn calm_argument(s: Seq<char>, i: int, a: Argument, depth: int)
    requires
        0 <= i,
        a.wf(),
        i + a.spelling().len() <= s.len(),
        s.subrange(i, i + a.spelling().len()) == a.spelling(),
    ensures
        calm(s, i, i + a.spelling().len(), depth, false),
{
    let t = a.spelling();
    assert forall|k: int| 0 <= k < t.len() implies s[i + k] == t[k] by {
        assert(s.subrange(i, i + t.len())[k] == t[k]);
    }
    match a {
        Argument::Word(w) => {
            assert forall|k: int| i <= k < i + w.len() implies #[trigger] s[k] != '"' && s[k] != '('
                && s[k] != ')' by {
                assert(s[i + (k - i)] == t[k - i]);
                assert(word_char(w[k - i]));
            }
            calm_plain(s, i, i + w.len(), depth);
        },
        Argument::Quoted(v) => {
            calm_quoted(s, i, v, depth);
        },
        Argument::List(list) => {
            reveal_strlit("[");
            reveal_strlit("]");
            let inner = listed(all_quoted(list));
            assert(s[i + 0] == t[0]);
            calm_plain(s, i, i + 1, depth);
            assert(s.subrange(i + 1, i + 1 + inner.len()) =~= inner) by {
                assert forall|k: int| 0 <= k < inner.len() implies s[i + 1 + k] == inner[k] by {
                    assert(s[i + (1 + k)] == t[1 + k]);
                }
            }
            calm_list(s, i + 1, list, list.len() as int, depth);
            let last = inner.len() + 1;
            assert(s[i + last] == t[last as int]);
            assert(s[i + last] == ']');
            calm_plain(s, i + last, i + last + 1, depth);
        },
        Argument::Descriptor(w, path) => {
            reveal_strlit("<");
            reveal_strlit(">");
            hexed_is_plain(path);
            let h = hexed(path);
            assert forall|k: int| i <= k < i + t.len() implies #[trigger] s[k] != '"' && s[k] != '('
                && s[k] != ')' by {
                let x = k - i;
                assert(s[i + x] == t[x]);
                if x < w.len() {
                    assert(word_char(w[x]));
                } else if w.len() < x < w.len() + 1 + h.len() {
                    assert(t[x] == h[x - w.len() - 1]);
                    assert(word_char(h[x - w.len() - 1]));
                }
            }
            calm_plain(s, i, i + t.len(), depth);
        },
    }
}

proof fn calm_arguments(s: Seq<char>, items: Seq<Argument>, n: int, depth: int)
    requires
        0 <= n <= items.len(),
        all_wf(items),
        listed_upto(spellings(items), n).len() <= s.len(),
        s.take(listed_upto(spellings(items), n).len() as int) == listed_upto(spellings(items), n),
    ensures
        calm(s, 0, listed_upto(spellings(items), n).len() as int, depth, false),
    decreases n,
{
    if n > 0 {
        reveal_strlit(", ");
        let all = spellings(items);
        let whole = listed_upto(all, n);
        let before = listed_upto(all, n - 1);
        let q = items[n - 1].spelling();
        assert(items[n - 1].wf());
        assert(all[n - 1] == q);
        let head = if n == 1 {
            before
        } else {
            before + ", "@
        };
        assert(whole =~= head + q);
        assert forall|k: int| 0 <= k < whole.len() implies s[k] == whole[k] by {
            assert(s.take(whole.len() as int)[k] == whole[k]);
        }
        assert(s.take(before.len() as int) =~= before);
        calm_arguments(s, items, n - 1, depth);
        let at = head.len() as int;
        if n > 1 {
            let b = before.len() as int;
            assert(s[b] == whole[b] && s[b + 1] == whole[b + 1]);
            calm_plain(s, b, b + 2, depth);
        }
        assert forall|k: int| 0 <= k < q.len() implies s[at + k] == q[k] by {
            assert(s[at + k] == whole[at + k]);
        }
        assert(s.subrange(at, at + q.len()) =~= q);
        calm_argument(s, at, items[n - 1], depth);
    }
}

/// A call is read as its name, its arguments and its result.
pub proof fn calls_read_back(op: Seq<char>, items: Seq<Argument>, ret: Seq<char>)
    requires
        !op.contains('('),
        all_wf(items),
        ret.len() > 0,
        !text::white_space(ret[0]),
    ensures
        ({
            let inner = listed(spellings(items));
            let rest = inner + ") = "@ + ret;
            &&& text::split_char(call_text(op, spellings(items), ret), '(') == Some((op, rest))
            &&& syntax::call_parts(rest) == Some((inner, ret))
            &&& items.len() > 0 ==> syntax::arguments(inner) == spellings(items)
        }),
{
    reveal_strlit("(");
    reveal_strlit(") = ");
    reveal_strlit("=");
    let inner = listed(spellings(items));
    let rest = inner + ") = "@ + ret;
    let s = call_text(op, spellings(items), ret);
    let n = op.len() as int;
    text::first_at_least(s, text::just('('), 0);
    let at = text::first_at(s, text::just('('), 0);
    assert(s[n] == '(');
    if at < n {
        assert(s[at] == op[at]);
        assert(op.contains(op[at]));
    }
    assert(s.subrange(0, n) =~= op);
    assert(s.subrange(n + 1, s.len() as int) =~= rest);
    let m = inner.len() as int;
    assert(rest.take(m) =~= inner);
    calm_arguments(rest, items, items.len() as int, 1);
    assert(rest[m] == ')');
    assert(syntax::closing(rest, 0, 1, false, false) == Some(m));
    let tail = rest.subrange(m + 1, rest.len() as int);
    let value = seq!['=', ' '] + ret;
    assert(tail =~= seq![' '] + value);
    text::leading_space_goes(value, ' ');
    assert(value.subrange(0, 1) =~= "="@);
    let padded = value.subrange(1, value.len() as int);
    assert(padded =~= seq![' '] + ret);
    text::leading_space_goes(ret, ' ');
    assert(rest.subrange(0, m) =~= inner);
    if items.len() > 0 {
        arguments_read_back(items);
    }
}

/// The first word of a text is what stands before its first white space.
pub proof fn first_words(w: Seq<char>, rest: Seq<char>)
    requires
        w.len() > 0,
        forall|i: int| 0 <= i < w.len() ==> !text::white_space(#[trigger] w[i]),
        rest.len() > 0 ==> text::white_space(rest[0]),
    ensures
        text::first_word(w + rest) == Some(w),
        text::after_first_word(w + rest) == rest,
{
    let s = w + rest;
    let n = w.len() as int;
    assert(s[0] == w[0]);
    text::first_at_least(s, text::non_spaces(), 0);
    assert(text::first_at(s, text::non_spaces(), 0) == 0);
    assert(text::trimmed_start(s) =~= s);
    text::first_at_least(s, text::spaces(), 0);
    let at = text::first_at(s, text::spaces(), 0);
    if at < n {
        assert(s[at] == w[at]);
    }
    if rest.len() > 0 {
        assert(s[n] == rest[0]);
    }
    assert(at == n);
    assert(s.subrange(0, n) =~= w);
    assert(s.subrange(n, s.len() as int) =~= rest);
}

/// A result that is a number is a success, with or without the path of a descriptor.
pub proof fn numbers_are_successes(n: nat, path: Seq<u8>)
    requires
        n <= i64::MAX,
    ensures
        trace::call_outcome(numbers::decimal(n)) == Some("success"@),
        text::first_word(numbers::decimal(n)) == Some(numbers::decimal(n)),
        trace::call_outcome(numbers::decimal(n) + "<"@ + hexed(path) + ">"@) == Some("success"@),
        text::first_word(numbers::decimal(n) + "<"@ + hexed(path) + ">"@) == Some(
            numbers::decimal(n) + "<"@ + hexed(path) + ">"@,
        ),
{
    let d = numbers::decimal(n);
    numbers::decimal_reads_back(n);
    reveal_strlit("<");
    reveal_strlit(">");
    reveal_strlit("-1");
    hexed_chars(path, path.len() as int);
    let h = hexed(path);
    let a = d + "<"@ + h + ">"@;
    let none = Seq::<char>::empty();
    assert forall|i: int| 0 <= i < d.len() implies !text::white_space(#[trigger] d[i]) && d[i]
        != '<' by {
        assert(text::ascii_digit(d[i]));
    }
    assert forall|i: int| 0 <= i < a.len() implies !text::white_space(#[trigger] a[i]) by {
        let k = i - d.len() - 1;
        if i < d.len() {
            assert(a[i] == d[i]);
        } else if 0 <= k < h.len() {
            assert(a[i] == h[k]);
            assert(byte_at(h, k / 4, path[k / 4]));
            assert(k == 4 * (k / 4) || k == 4 * (k / 4) + 1 || k == 4 * (k / 4) + 2 || k == 4 * (k
                / 4) + 3);
        }
    }
    first_words(d, none);
    first_words(a, none);
    assert(d + none =~= d);
    assert(a + none =~= a);
    assert(d[0] != '-' && a[0] == d[0]);
    text::first_at_least(d, text::just('<'), 0);
    text::first_at_least(a, text::just('<'), 0);
    let x = text::first_at(a, text::just('<'), 0);
    assert(a[d.len() as int] == '<');
    if x < d.len() {
        assert(a[x] == d[x]);
    }
    assert(d.subrange(0, d.len() as int) =~= d);
    assert(a.subrange(0, d.len() as int) =~= d);
}

/// A result behind `-1` is the error that it names, whatever words explain it.
pub proof fn errors_are_named(name: Seq<char>, words: Seq<char>)
    requires
        is_word(name),
    ensures
        trace::call_outcome("-1 "@ + name + " "@ + words) == Some(name),
{
    reveal_strlit("-1 ");
    reveal_strlit("-1");
    reveal_strlit(" ");
    let tail = seq![' '] + name + " "@ + words;
    let s = "-1 "@ + name + " "@ + words;
    assert(s =~= "-1"@ + tail);
    assert("-1"@[0] == '-' && "-1"@[1] == '1' && "-1"@.len() == 2);
    first_words("-1"@, tail);
    let after = " "@ + words;
    let named = name + after;
    assert(tail =~= seq![' '] + named);
    assert forall|i: int| 0 <= i < name.len() implies !text::white_space(#[trigger] name[i]) by {
        assert(word_char(name[i]));
    }
    assert(named[0] == name[0]);
    text::leading_space_goes(named, ' ');
    first_words(name, after);
    text::first_at_least(named, text::non_spaces(), 0);
    assert(text::first_at(named, text::non_spaces(), 0) == 0);
    assert(text::trimmed_start(named) =~= named);
}

} // verus!
