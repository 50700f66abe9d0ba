//! Character-level text handling: the trimming and splitting that the
//! quote and chart data go through, stated over `Seq<char>`.
use vstd::prelude::*;
use vstd::string::*;

verus! {

/// Whether `c` has the Unicode `White_Space` property, which is what
/// `char::is_whitespace` decides: the ASCII tab, line feed, vertical tab,
/// form feed, carriage return and space, and U+0085, U+00A0, U+1680,
/// U+2000 to U+200A, U+2028, U+2029, U+202F, U+205F and U+3000.
pub open spec fn unicode_white_space(c: char) -> bool {
    ||| ('\u{9}' <= c && c <= '\u{d}')
    ||| c == ' '
    ||| c == '\u{85}'
    ||| c == '\u{a0}'
    ||| c == '\u{1680}'
    ||| ('\u{2000}' <= c && c <= '\u{200a}')
    ||| c == '\u{2028}'
    ||| c == '\u{2029}'
    ||| c == '\u{202f}'
    ||| c == '\u{205f}'
    ||| c == '\u{3000}'
}

/// Whether `c` is white space, as `char::is_whitespace` answers.
pub fn is_whitespace(c: char) -> (r: bool)
    ensures
        r == unicode_white_space(c),
{
    ('\u{9}' <= c && c <= '\u{d}') || c == ' ' || c == '\u{85}' || c == '\u{a0}'
        || c == '\u{1680}' || ('\u{2000}' <= c && c <= '\u{200a}') || c == '\u{2028}'
        || c == '\u{2029}' || c == '\u{202f}' || c == '\u{205f}' || c == '\u{3000}'
}

/// Among the ASCII characters exactly the space and the control characters
/// tab, line feed, vertical tab, form feed and carriage return are white
/// space; in particular no digit, letter or punctuation sign is.
pub proof fn lemma_ascii_white_space(c: char)
    requires
        c <= '\u{7f}',
    ensures
        unicode_white_space(c) <==> (c == ' ' || c == '\t' || c == '\n' || c == '\u{b}'
            || c == '\u{c}' || c == '\r'),
        '0' <= c <= '9' ==> !unicode_white_space(c),
{
}

/// The predicate "is white space".
pub open spec fn white_space() -> spec_fn(char) -> bool {
    |c: char| unicode_white_space(c)
}

/// The predicate "is not white space".
pub open spec fn not_white_space() -> spec_fn(char) -> bool {
    |c: char| !unicode_white_space(c)
}

/// The predicate "is the character `sep`".
pub open spec fn is_char(sep: char) -> spec_fn(char) -> bool {
    |c: char| c == sep
}

/// The predicate "is not the character `sep`".
pub open spec fn other_than(sep: char) -> spec_fn(char) -> bool {
    |c: char| c != sep
}

/// How many characters at the start of `s` satisfy `p`.
pub open spec fn leading_count(s: Seq<char>, p: spec_fn(char) -> bool) -> nat
    decreases s.len(),
{
    if s.len() > 0 && p(s[0]) {
        1 + leading_count(s.drop_first(), p)
    } else {
        0
    }
}

/// How many characters at the end of `s` satisfy `p`.
pub open spec fn trailing_count(s: Seq<char>, p: spec_fn(char) -> bool) -> nat
    decreases s.len(),
{
    if s.len() > 0 && p(s.last()) {
        1 + trailing_count(s.drop_last(), p)
    } else {
        0
    }
}

/// `s` without its leading white space (`str::trim_start`).
pub open spec fn trim_start_ws(s: Seq<char>) -> Seq<char> {
    s.skip(leading_count(s, white_space()) as int)
}

/// `s` without its trailing white space (`str::trim_end`).
pub open spec fn trim_end_ws(s: Seq<char>) -> Seq<char> {
    s.take(s.len() - trailing_count(s, white_space()))
}

/// `s` without leading and trailing white space (`str::trim`).
pub open spec fn trim_ws(s: Seq<char>) -> Seq<char> {
    trim_end_ws(trim_start_ws(s))
}

/// `s` without the run of `c` it starts with (`str::trim_start_matches(c)`).
pub open spec fn trim_start_char(s: Seq<char>, c: char) -> Seq<char> {
    s.skip(leading_count(s, is_char(c)) as int)
}

/// The first piece of `s` split at `sep` (`s.split(sep).nth(0)`): all of `s`
/// up to the first `sep`, or all of `s` when there is none.
pub open spec fn first_piece(s: Seq<char>, sep: char) -> Seq<char> {
    s.take(leading_count(s, other_than(sep)) as int)
}

/// The second piece of `s` split at `sep` (`s.split(sep).nth(1)`): what lies
/// between the first and the second `sep` (or the end), if `s` holds a `sep`.
pub open spec fn second_piece(s: Seq<char>, sep: char) -> Option<Seq<char>> {
    let i = leading_count(s, other_than(sep));
    if i < s.len() {
        Some(first_piece(s.skip(i + 1 as int), sep))
    } else {
        None
    }
}

/// The first white-space separated word of `s` (`s.split_whitespace().next()`).
pub open spec fn first_word(s: Seq<char>) -> Option<Seq<char>> {
    let t = trim_start_ws(s);
    if t.len() == 0 {
        None
    } else {
        Some(t.take(leading_count(t, not_white_space()) as int))
    }
}

/// Unfolds `leading_count` one step at position `i`.
proof fn lemma_leading_step(s: Seq<char>, p: spec_fn(char) -> bool, i: int)
    requires
        0 <= i < s.len(),
    ensures
        p(s[i]) ==> leading_count(s.skip(i), p) == 1 + leading_count(s.skip(i + 1), p),
        !p(s[i]) ==> leading_count(s.skip(i), p) == 0,
{
    assert(s.skip(i).drop_first() =~= s.skip(i + 1));
}

/// Unfolds `trailing_count` one step at length `j`.
proof fn lemma_trailing_step(s: Seq<char>, p: spec_fn(char) -> bool, j: int)
    requires
        0 < j <= s.len(),
    ensures
        p(s[j - 1]) ==> trailing_count(s.take(j), p) == 1 + trailing_count(s.take(j - 1), p),
        !p(s[j - 1]) ==> trailing_count(s.take(j), p) == 0,
{
    assert(s.take(j).drop_last() =~= s.take(j - 1));
}

/// Counts the leading characters of `s[from..]` that are white space.
fn count_leading_ws(s: &str, from: usize) -> (n: usize)
    requires
        from <= s@.len(),
    ensures
        n == leading_count(s@.skip(from as int), white_space()),
        from + n <= s@.len(),
{
    let len = s.unicode_len();
    let mut i = from;
    while i < len && is_whitespace(s.get_char(i))
        invariant
            from <= i <= len,
            len == s@.len(),
            leading_count(s@.skip(from as int), white_space())
                == (i - from) + leading_count(s@.skip(i as int), white_space()),
        decreases len - i,
    {
        proof {
            lemma_leading_step(s@, white_space(), i as int);
        }
        i = i + 1;
    }
    proof {
        if i < len {
            lemma_leading_step(s@, white_space(), i as int);
        } else {
            assert(s@.skip(i as int).len() == 0);
        }
    }
    i - from
}

/// Counts the leading characters of `s[from..]` that are not white space.
fn count_leading_non_ws(s: &str, from: usize) -> (n: usize)
    requires
        from <= s@.len(),
    ensures
        n == leading_count(s@.skip(from as int), not_white_space()),
        from + n <= s@.len(),
{
    let len = s.unicode_len();
    let mut i = from;
    while i < len && !is_whitespace(s.get_char(i))
        invariant
            from <= i <= len,
            len == s@.len(),
            leading_count(s@.skip(from as int), not_white_space())
                == (i - from) + leading_count(s@.skip(i as int), not_white_space()),
        decreases len - i,
    {
        proof {
            lemma_leading_step(s@, not_white_space(), i as int);
        }
        i = i + 1;
    }
    proof {
        if i < len {
            lemma_leading_step(s@, not_white_space(), i as int);
        } else {
            assert(s@.skip(i as int).len() == 0);
        }
    }
    i - from
}

/// Counts the leading characters of `s[from..]` equal to `c` (`want == true`)
/// or different from `c` (`want == false`).
fn count_leading_char(s: &str, from: usize, c: char, want: bool) -> (n: usize)
    requires
        from <= s@.len(),
    ensures
        want ==> n == leading_count(s@.skip(from as int), is_char(c)),
        !want ==> n == leading_count(s@.skip(from as int), other_than(c)),
        from + n <= s@.len(),
{
    let ghost p = if want { is_char(c) } else { other_than(c) };
    let len = s.unicode_len();
    let mut i = from;
    while i < len && ((s.get_char(i) == c) == want)
        invariant
            from <= i <= len,
            len == s@.len(),
            p == (if want { is_char(c) } else { other_than(c) }),
            leading_count(s@.skip(from as int), p)
                == (i - from) + leading_count(s@.skip(i as int), p),
        decreases len - i,
    {
        proof {
            lemma_leading_step(s@, p, i as int);
        }
        i = i + 1;
    }
    proof {
        if i < len {
            lemma_leading_step(s@, p, i as int);
        } else {
            assert(s@.skip(i as int).len() == 0);
        }
    }
    i - from
}

/// `s` with leading and trailing white space removed, as `str::trim` does.
pub fn trim_whitespace(s: &str) -> (r: &str)
    ensures
        r@ == trim_ws(s@),
{
    let len = s.unicode_len();
    let start = count_leading_ws(s, 0);
    proof {
        assert(s@.skip(0) =~= s@);
    }
    let ghost t = s@.skip(start as int);
    proof {
        assert(t.take(len - start) =~= t);
    }
    let mut end = len;
    while end > start && is_whitespace(s.get_char(end - 1))
        invariant
            start <= end <= len,
            len == s@.len(),
            t == s@.skip(start as int),
            trailing_count(t, white_space())
                == (len - end) + trailing_count(t.take(end - start), white_space()),
        decreases end,
    {
        proof {
            lemma_trailing_step(t, white_space(), end - start);
        }
        end = end - 1;
    }
    proof {
        if end > start {
            lemma_trailing_step(t, white_space(), end - start);
        }
        assert(s@.subrange(start as int, end as int) =~= t.take(end - start));
    }
    s.substring_char(start, end)
}

/// `s` without the `'$'` signs it starts with, as `str::trim_start_matches("$")` does.
pub fn trim_leading_dollars(s: &str) -> (r: &str)
    ensures
        r@ == trim_start_char(s@, '$'),
{
    let len = s.unicode_len();
    let n = count_leading_char(s, 0, '$', true);
    proof {
        assert(s@.skip(0) =~= s@);
        assert(s@.subrange(n as int, len as int) =~= s@.skip(n as int));
    }
    s.substring_char(n, len)
}

/// The first piece of `s` split at `sep`, as `s.split(sep).nth(0)` gives it.
pub fn split_first_piece(s: &str, sep: char) -> (r: &str)
    ensures
        r@ == first_piece(s@, sep),
{
    let n = count_leading_char(s, 0, sep, false);
    proof {
        assert(s@.skip(0) =~= s@);
        assert(s@.subrange(0, n as int) =~= s@.take(n as int));
    }
    s.substring_char(0, n)
}

/// The second piece of `s` split at `sep`, as `s.split(sep).nth(1)` gives it:
/// `None` when `s` holds no `sep`.
pub fn split_second_piece(s: &str, sep: char) -> (r: Option<&str>)
    ensures
        r is Some <==> second_piece(s@, sep) is Some,
        r matches Some(piece) ==> piece@ == second_piece(s@, sep)->0,
{
    let len = s.unicode_len();
    let i = count_leading_char(s, 0, sep, false);
    proof {
        assert(s@.skip(0) =~= s@);
    }
    if i < len {
        let n = count_leading_char(s, i + 1, sep, false);
        proof {
            let rest = s@.skip(i + 1);
            assert(s@.subrange(i + 1, i + 1 + n) =~= rest.take(n as int));
        }
        Some(s.substring_char(i + 1, i + 1 + n))
    } else {
        None
    }
}

/// The first white-space separated word of `s`, as
/// `s.split_whitespace().next()` gives it.
pub fn first_word_of(s: &str) -> (r: Option<&str>)
    ensures
        r is Some <==> first_word(s@) is Some,
        r matches Some(w) ==> w@ == first_word(s@)->0,
{
    let len = s.unicode_len();
    let start = count_leading_ws(s, 0);
    proof {
        assert(s@.skip(0) =~= s@);
    }
    if start == len {
        None
    } else {
        let n = count_leading_non_ws(s, start);
        proof {
            let t = s@.skip(start as int);
            assert(s@.subrange(start as int, start + n) =~= t.take(n as int));
        }
        Some(s.substring_char(start, start + n))
    }
}

/// Counting through a prefix whose characters all satisfy `p`.
proof fn lemma_leading_count_concat(x: Seq<char>, y: Seq<char>, p: spec_fn(char) -> bool)
    requires
        forall|i: int| 0 <= i < x.len() ==> #[trigger] p(x[i]),
    ensures
        leading_count(x + y, p) == x.len() + leading_count(y, p),
    decreases x.len(),
{
    if x.len() > 0 {
        assert((x + y).drop_first() =~= x.drop_first() + y);
        lemma_leading_count_concat(x.drop_first(), y, p);
    } else {
        assert(x + y =~= y);
    }
}

/// Counting back through a suffix whose characters all satisfy `p`.
proof fn lemma_trailing_count_concat(x: Seq<char>, y: Seq<char>, p: spec_fn(char) -> bool)
    requires
        forall|i: int| 0 <= i < y.len() ==> #[trigger] p(y[i]),
    ensures
        trailing_count(x + y, p) == y.len() + trailing_count(x, p),
    decreases y.len(),
{
    if y.len() > 0 {
        assert((x + y).drop_last() =~= x + y.drop_last());
        lemma_trailing_count_concat(x, y.drop_last(), p);
    } else {
        assert(x + y =~= x);
    }
}

/// Whether every character of `s` is white space.
pub open spec fn all_white_space(s: Seq<char>) -> bool {
    forall|i: int| 0 <= i < s.len() ==> unicode_white_space(#[trigger] s[i])
}

/// Whether `s` neither starts nor ends with white space.
pub open spec fn unpadded(s: Seq<char>) -> bool {
    s.len() > 0 ==> !unicode_white_space(s[0]) && !unicode_white_space(s.last())
}

/// Whether `s` holds no `c`.
pub open spec fn free_of(s: Seq<char>, c: char) -> bool {
    forall|i: int| 0 <= i < s.len() ==> #[trigger] s[i] != c
}

/// Trimming removes exactly the white space around a text: a text that
/// neither starts nor ends with white space comes out of any padding of
/// white space unchanged (so a price such as `45.10`, whose ends are digits,
/// keeps every character).
pub proof fn lemma_trim_removes_padding(before: Seq<char>, s: Seq<char>, after: Seq<char>)
    requires
        all_white_space(before),
        all_white_space(after),
        unpadded(s),
    ensures
        trim_ws(before + s + after) == s,
        trim_ws(s) == s,
{
    let ws = white_space();
    assert forall|i: int| 0 <= i < before.len() implies #[trigger] ws(before[i]) by {}
    assert forall|i: int| 0 <= i < after.len() implies #[trigger] ws(after[i]) by {}
    assert(before + s + after =~= before + (s + after));
    lemma_leading_count_concat(before, s + after, ws);
    if s.len() > 0 {
        assert((s + after)[0] == s[0]);
    } else {
        assert(s + after =~= after);
        lemma_leading_count_concat(after, Seq::<char>::empty(), ws);
        assert(after + Seq::<char>::empty() =~= after);
    }
    assert(leading_count(s + after, ws) == 0 || s.len() == 0);
    let t = (before + s + after).skip(leading_count(before + s + after, ws) as int);
    if s.len() > 0 {
        assert(t =~= s + after);
    } else {
        assert(t =~= Seq::<char>::empty());
    }
    lemma_trailing_count_concat(s, after, ws);
    if s.len() > 0 {
        assert(trailing_count(s, ws) == 0);
        assert((s + after).take(s.len() as int) =~= s);
    }
    // The text on its own.
    lemma_leading_count_concat(Seq::<char>::empty(), s, ws);
    assert(Seq::<char>::empty() + s =~= s);
    assert(s.skip(0) =~= s);
    assert(s.take(s.len() as int) =~= s);
}

/// `trim_start_matches('$')` removes exactly the leading run of `'$'`: after
/// any number of `'$'` the rest of the text is kept whole, unless it starts
/// with a further `'$'`.
pub proof fn lemma_dollars_removed(dollars: Seq<char>, rest: Seq<char>)
    requires
        forall|i: int| 0 <= i < dollars.len() ==> #[trigger] dollars[i] == '$',
        rest.len() > 0 ==> rest[0] != '$',
    ensures
        trim_start_char(dollars + rest, '$') == rest,
{
    let p = is_char('$');
    assert forall|i: int| 0 <= i < dollars.len() implies #[trigger] p(dollars[i]) by {}
    lemma_leading_count_concat(dollars, rest, p);
    assert((dollars + rest).skip(dollars.len() as int) =~= rest);
}

/// Splitting at `sep`: when `a` holds no `sep`, the first piece of
/// `a + sep + b` is `a`, and the second is the first piece of `b` (all of
/// `b` when it holds no `sep` either). A text without `sep` is its own first
/// piece and has no second one.
pub proof fn lemma_split_pieces(a: Seq<char>, sep: char, b: Seq<char>)
    requires
        free_of(a, sep),
    ensures
        first_piece(a + seq![sep] + b, sep) == a,
        second_piece(a + seq![sep] + b, sep) == Some(first_piece(b, sep)),
        free_of(b, sep) ==> first_piece(b, sep) == b,
        first_piece(a, sep) == a,
        second_piece(a, sep) is None,
{
    let p = other_than(sep);
    assert forall|i: int| 0 <= i < a.len() implies #[trigger] p(a[i]) by {}
    let s = a + seq![sep] + b;
    assert(s =~= a + (seq![sep] + b));
    lemma_leading_count_concat(a, seq![sep] + b, p);
    assert((seq![sep] + b)[0] == sep);
    assert(leading_count(seq![sep] + b, p) == 0);
    assert(s.take(a.len() as int) =~= a);
    assert(s.skip(a.len() + 1 as int) =~= b);
    if free_of(b, sep) {
        assert forall|i: int| 0 <= i < b.len() implies #[trigger] p(b[i]) by {}
        lemma_leading_count_concat(b, Seq::<char>::empty(), p);
        assert(b + Seq::<char>::empty() =~= b);
        assert(b.take(b.len() as int) =~= b);
    }
    lemma_leading_count_concat(a, Seq::<char>::empty(), p);
    assert(a + Seq::<char>::empty() =~= a);
    assert(a.take(a.len() as int) =~= a);
}

/// The first word of a text is what stands between its leading white space
/// and the next white space: for white space `pad`, a word `w` free of white
/// space, and a `tail` that is empty or starts with white space, the first
/// word of `pad + w + tail` is `w`. A text of white space only has none.
pub proof fn lemma_first_word(pad: Seq<char>, w: Seq<char>, tail: Seq<char>)
    requires
        all_white_space(pad),
        w.len() > 0,
        forall|i: int| 0 <= i < w.len() ==> !unicode_white_space(#[trigger] w[i]),
        tail.len() > 0 ==> unicode_white_space(tail[0]),
    ensures
        first_word(pad + w + tail) == Some(w),
        first_word(pad) is None,
{
    let ws = white_space();
    let nws = not_white_space();
    assert forall|i: int| 0 <= i < pad.len() implies #[trigger] ws(pad[i]) by {}
    assert forall|i: int| 0 <= i < w.len() implies #[trigger] nws(w[i]) by {}
    let s = pad + w + tail;
    assert(s =~= pad + (w + tail));
    lemma_leading_count_concat(pad, w + tail, ws);
    assert((w + tail)[0] == w[0]);
    assert(leading_count(w + tail, ws) == 0);
    let t = s.skip(pad.len() as int);
    assert(t =~= w + tail);
    lemma_leading_count_concat(w, tail, nws);
    assert(leading_count(tail, nws) == 0);
    assert(t.take(w.len() as int) =~= w);
    lemma_leading_count_concat(pad, Seq::<char>::empty(), ws);
    assert(pad + Seq::<char>::empty() =~= pad);
    assert(pad.skip(pad.len() as int).len() == 0);
}

} // verus!
