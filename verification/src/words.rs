//! What the library takes for parts of a text: white space, control characters, words, lines
//! and the components of paths; how texts are ordered; and which paths look temporary.
use vstd::prelude::*;

use crate::order;
use crate::parse::trace;
use crate::report;
use crate::text;

verus! {

/// Of the ASCII characters the tabs, line ends, form feeds and the space are white space, and
/// the first thirty-two and the last are control characters.
pub proof fn ascii_characters_are_sorted(c: char)
    requires
        (c as int) < 0x80,
    ensures
        text::white_space(c) <==> c == ' ' || '\t' <= c <= '\r',
        text::control(c) <==> (c as int) < 0x20 || c as int == 0x7f,
        text::ascii_digit(c) <==> '0' <= c <= '9',
        text::char_width(c) == 1,
{
}

/// Trimming takes off white space at both ends and nothing else.
pub proof fn trimming_takes_off_white_space(s: Seq<char>)
    ensures
        ({
            let t = text::trimmed(s);
            &&& t.len() > 0 ==> !text::white_space(t[0]) && !text::white_space(t.last())
            &&& exists|i: int, j: int|
                #![trigger s.subrange(i, j)]
                0 <= i <= j <= s.len() && t == s.subrange(i, j) && (forall|k: int|
                    0 <= k < i ==> text::white_space(#[trigger] s[k])) && (forall|k: int|
                    j <= k < s.len() ==> text::white_space(#[trigger] s[k]))
        }),
{
    text::first_at_least(s, text::non_spaces(), 0);
    let i = text::first_at(s, text::non_spaces(), 0);
    let a = text::trimmed_start(s);
    trimmed_end_is_white(a, a.len() as int);
    let n = text::trimmed_len(a, a.len() as int);
    let t = text::trimmed(s);
    let j = i + n;
    assert(t =~= s.subrange(i, j));
    assert forall|k: int| 0 <= k < i implies text::white_space(#[trigger] s[k]) by {
        assert(!(text::non_spaces())(s[k]));
    }
    assert forall|k: int| j <= k < s.len() implies text::white_space(#[trigger] s[k]) by {
        assert(a[k - i] == s[k]);
    }
    if t.len() > 0 {
        assert(t[0] == a[0] && a[0] == s[i]);
        assert((text::non_spaces())(s[i]));
        assert(t.last() == a[n - 1]);
    }
}

proof fn trimmed_end_is_white(s: Seq<char>, n: int)
    requires
        0 <= n <= s.len(),
    ensures
        0 <= text::trimmed_len(s, n) <= n,
        forall|k: int| text::trimmed_len(s, n) <= k < n ==> text::white_space(#[trigger] s[k]),
        text::trimmed_len(s, n) > 0 ==> !text::white_space(s[text::trimmed_len(s, n) - 1]),
    decreases n,
{
    if n > 0 && text::white_space(s[n - 1]) {
        trimmed_end_is_white(s, n - 1);
    }
}

/// Texts are ordered by their first different character, and a text comes before what it is the
/// start of.
pub proof fn texts_are_ordered_by_characters(p: Seq<char>, a: Seq<char>, b: Seq<char>)
    ensures
        b.len() > 0 ==> order::text_before(p, p + b),
        !order::text_before(p + b, p),
        a.len() > 0 && b.len() > 0 && a[0] < b[0] ==> order::text_before(p + a, p + b),
        a.len() > 0 && b.len() > 0 && a[0] > b[0] ==> !order::text_before(p + a, p + b),
    decreases p.len(),
{
    if p.len() > 0 {
        let q = p.drop_first();
        texts_are_ordered_by_characters(q, a, b);
        assert((p + a).drop_first() =~= q + a);
        assert((p + b).drop_first() =~= q + b);
        assert((p + a)[0] == p[0] && (p + b)[0] == p[0]);
    } else {
        assert(p + a =~= a);
        assert(p + b =~= b);
        assert(p =~= Seq::<char>::empty());
    }
}

/// The parts of a text are what stands between its separators: putting one more behind a
/// separator adds one part, and nothing else does.
pub proof fn texts_have_their_parts(s: Seq<char>, c: char, t: Seq<char>)
    requires
        !t.contains(c),
    ensures
        text::parts(t, c) == seq![t],
        text::parts(s.push(c) + t, c) == text::parts(s, c).push(t),
{
    let none = Seq::<char>::empty();
    assert forall|i: int| 0 <= i < t.len() implies #[trigger] t[i] != c by {
        assert(t.contains(t[i]));
    }
    parts_of_word(none, t, c, t.len() as int);
    assert(none + t =~= t);
    assert(t.take(t.len() as int) =~= t);
    assert(text::parts_upto(t, c, 0).0 == Seq::<Seq<char>>::empty());
    assert(text::parts_upto(t, c, t.len() as int).1 == t);
    assert(text::parts(t, c) =~= seq![t]);
    let longer = s.push(c) + t;
    same_parts(s, longer, c, s.len() as int);
    let n = s.len() as int;
    assert(longer[n] == c);
    let (ended, current) = text::parts_upto(s, c, n);
    assert(text::parts_upto(longer, c, n + 1) == (ended.push(current), none));
    parts_of_word(s.push(c), t, c, t.len() as int);
    assert(s.push(c).len() == n + 1);
    assert(text::parts_upto(longer, c, longer.len() as int) == (ended.push(current), t));
    assert(text::parts(longer, c) =~= text::parts(s, c).push(t));
}

proof fn same_parts(a: Seq<char>, b: Seq<char>, c: char, n: int)
    requires
        0 <= n <= a.len(),
        n <= b.len(),
        forall|i: int| 0 <= i < n ==> a[i] == b[i],
    ensures
        text::parts_upto(a, c, n) == text::parts_upto(b, c, n),
    decreases n,
{
    if n > 0 {
        same_parts(a, b, c, n - 1);
    }
}

/// Behind a separator a word becomes the part that is not ended.
proof fn parts_of_word(p: Seq<char>, t: Seq<char>, c: char, n: int)
    requires
        p.len() == 0 || p.last() == c,
        0 <= n <= t.len(),
        forall|i: int| 0 <= i < t.len() ==> #[trigger] t[i] != c,
    ensures
        ({
            let before = text::parts_upto(p + t, c, p.len() as int);
            let after = text::parts_upto(p + t, c, p.len() + n);
            &&& before.1 == Seq::<char>::empty()
            &&& after.0 == before.0
            &&& after.1 == t.take(n)
        }),
    decreases n,
{
    let s = p + t;
    if n > 0 {
        parts_of_word(p, t, c, n - 1);
        assert(s[p.len() + n - 1] == t[n - 1]);
        assert(t.take(n - 1).push(t[n - 1]) =~= t.take(n));
    } else {
        if p.len() > 0 {
            assert(s[p.len() - 1] == c);
        }
        assert(t.take(0) =~= Seq::<char>::empty());
    }
}

/// Whether a text is made of six ASCII letters or digits.
pub open spec fn is_random(s: Seq<char>) -> bool {
    s.len() == 6 && forall|i: int|
        0 <= i < s.len() ==> '0' <= #[trigger] s[i] <= '9' || 'a' <= s[i] <= 'z' || 'A' <= s[i]
            <= 'Z'
}

/// A path whose last component is a prefix that compilers use and six letters or digits looks
/// temporary, wherever it stands.
pub proof fn compiler_files_look_temporary(directory: Seq<char>, random: Seq<char>)
    requires
        is_random(random),
    ensures
        report::temporary_path(directory.push('/') + ("rustc"@ + random)),
        report::temporary_path(directory.push('/') + ("rmeta"@ + random)),
        report::temporary_path(directory.push('/') + (".tmp"@ + random)),
{
    reveal_strlit("rustc");
    reveal_strlit("rmeta");
    reveal_strlit(".tmp");
    names_look_random("rustc"@, random);
    names_look_random("rmeta"@, random);
    names_look_random(".tmp"@, random);
    last_component(directory, "rustc"@ + random);
    last_component(directory, "rmeta"@ + random);
    last_component(directory, ".tmp"@ + random);
}

proof fn names_look_random(prefix: Seq<char>, random: Seq<char>)
    requires
        is_random(random),
        forall|i: int| 0 <= i < prefix.len() ==> #[trigger] prefix[i] != '/',
    ensures
        report::random_name(prefix + random, prefix),
        !(prefix + random).contains('/'),
{
    let s = prefix + random;
    assert(s.subrange(0, prefix.len() as int) =~= prefix);
    assert(s.subrange(prefix.len() as int, s.len() as int) =~= random);
    assert forall|i: int| 0 <= i < random.len() implies report::ascii_alphanumeric(
        #[trigger] random[i],
    ) by {}
    if s.contains('/') {
        let i = choose|i: int| 0 <= i < s.len() && s[i] == '/';
        if i < prefix.len() {
            assert(prefix[i] == '/');
        } else {
            assert(random[i - prefix.len()] == '/');
        }
    }
}

proof fn last_component(directory: Seq<char>, name: Seq<char>)
    requires
        !name.contains('/'),
    ensures
        ({
            let components = text::parts(directory.push('/') + name, '/');
            components.len() > 0 && components[components.len() - 1] == name && components.last()
                == name
        }),
{
    texts_have_their_parts(directory, '/', name);
}

/// A path does not look temporary by a component unless one is such a prefix and exactly six
/// letters or digits.
pub proof fn other_names_do_not_look_temporary(part: Seq<char>)
    requires
        report::temporary_name(part),
    ensures
        exists|random: Seq<char>| #[trigger]
            is_random(random) && (part == "rustc"@ + random || part == "rmeta"@ + random || part
                == ".tmp"@ + random),
{
    let prefix = if report::random_name(part, "rustc"@) {
        "rustc"@
    } else if report::random_name(part, "rmeta"@) {
        "rmeta"@
    } else {
        ".tmp"@
    };
    let random = part.subrange(prefix.len() as int, part.len() as int);
    assert(part =~= prefix + random);
    assert forall|i: int| 0 <= i < random.len() implies '0' <= #[trigger] random[i] <= '9' || 'a'
        <= random[i] <= 'z' || 'A' <= random[i] <= 'Z' by {
        assert(report::ascii_alphanumeric(random[i]));
    }
    assert(is_random(random));
}

/// The lines of a trace put together are the trace: each but the last ends with a newline and
/// holds no other, and only a last one may be without.
pub proof fn lines_make_the_trace(raw: Seq<char>, n: int)
    requires
        0 <= n <= raw.len(),
    ensures
        ({
            let (lines, current) = trace::lines_upto(raw, n);
            &&& joined(lines, lines.len() as int) + current == raw.take(n)
            &&& forall|i: int|
                0 <= i < lines.len() ==> (#[trigger] lines[i]).len() > 0 && lines[i].last() == '\n'
                    && !lines[i].drop_last().contains('\n')
            &&& !current.contains('\n')
        }),
    decreases n,
{
    if n > 0 {
        lines_make_the_trace(raw, n - 1);
        let (lines, current) = trace::lines_upto(raw, n - 1);
        let longer = current.push(raw[n - 1]);
        assert(raw.take(n) =~= raw.take(n - 1).push(raw[n - 1]));
        let k = lines.len() as int;
        if raw[n - 1] == '\n' {
            let all = lines.push(longer);
            same_joined(lines, all, k);
            assert(all[k] == longer);
            assert(joined(all, k + 1) =~= joined(lines, k) + longer);
            assert(joined(all, k + 1) + Seq::<char>::empty() =~= raw.take(n));
            assert(longer.drop_last() =~= current);
        } else {
            assert(joined(lines, k) + longer =~= raw.take(n));
            if longer.contains('\n') {
                let i = choose|i: int| 0 <= i < longer.len() && longer[i] == '\n';
                assert(current[i] == '\n');
            }
        }
    } else {
        assert(joined(Seq::<Seq<char>>::empty(), 0) + Seq::<char>::empty() =~= raw.take(0));
    }
}

/// The first `n` lines put together.
pub open spec fn joined(lines: Seq<Seq<char>>, n: int) -> Seq<char>
    decreases n,
{
    if n <= 0 {
        Seq::empty()
    } else {
        joined(lines, n - 1) + lines[n - 1]
    }
}

proof fn same_joined(a: Seq<Seq<char>>, b: Seq<Seq<char>>, n: int)
    requires
        forall|i: int| 0 <= i < n ==> a[i] == b[i],
    ensures
        joined(a, n) == joined(b, n),
    decreases n,
{
    if n > 0 {
        same_joined(a, b, n - 1);
    }
}

} // verus!
