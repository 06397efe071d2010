//! Character-level building blocks for the strings this crate produces.
//!
//! Every contract here is stated over `Seq<char>`, the view of `str` and `String`.

use vstd::prelude::*;
use vstd::std_specs::iter::IteratorSpec;

verus! {

/// Appends one character to a string.
///
/// Trusted: the body is `String::push` of the standard library, which the
/// verifier has no specification for. The contract says that the string grows
/// by exactly that character at its end.
#[verifier::external_body]
pub(crate) fn push_char(s: &mut String, c: char)
    ensures
        final(s)@ == old(s)@.push(c),
{
    s.push(c);
}

/// The characters of a string slice, in order.
pub fn chars_of(s: &str) -> (v: Vec<char>)
    ensures
        v@ == s@,
{
    let mut v: Vec<char> = Vec::new();
    let mut it = s.chars();
    proof {
        vstd::string::axiom_spec_iter(s);
    }
    let ghost mut taken: int = 0;
    loop
        invariant
            0 <= taken <= s@.len(),
            it.obeys_prophetic_iter_laws(),
            it.remaining() == s@.skip(taken),
            v@ == s@.take(taken),
        ensures
            v@ == s@,
        decreases s@.len() - taken,
    {
        let ghost before = it;
        let next = it.next();
        proof {
            vstd::string::next_postcondition(&before, &it, next);
        }
        match next {
            Some(c) => {
                proof {
                    assert(s@.skip(taken)[0] == s@[taken]);
                    assert(s@.skip(taken).drop_first() == s@.skip(taken + 1));
                    assert(s@.take(taken).push(c) == s@.take(taken + 1));
                    taken = taken + 1;
                }
                v.push(c);
            },
            None => {
                proof {
                    assert(s@.take(taken) == s@);
                }
                break;
            },
        }
    }
    v
}

/// The decimal digit that stands for `d`, for `0 <= d <= 9`.
pub open spec fn digit(d: int) -> char {
    if d == 0 {
        '0'
    } else if d == 1 {
        '1'
    } else if d == 2 {
        '2'
    } else if d == 3 {
        '3'
    } else if d == 4 {
        '4'
    } else if d == 5 {
        '5'
    } else if d == 6 {
        '6'
    } else if d == 7 {
        '7'
    } else if d == 8 {
        '8'
    } else {
        '9'
    }
}

/// The decimal numeral of `n`: no sign, no leading zero, `"0"` for zero.
pub open spec fn decimal(n: nat) -> Seq<char>
    decreases n,
{
    if n < 10 {
        seq![digit(n as int)]
    } else {
        decimal(n / 10).push(digit((n % 10) as int))
    }
}

fn digit_char(d: u64) -> (c: char)
    requires
        d < 10,
    ensures
        c == digit(d as int),
{
    if d == 0 {
        '0'
    } else if d == 1 {
        '1'
    } else if d == 2 {
        '2'
    } else if d == 3 {
        '3'
    } else if d == 4 {
        '4'
    } else if d == 5 {
        '5'
    } else if d == 6 {
        '6'
    } else if d == 7 {
        '7'
    } else if d == 8 {
        '8'
    } else {
        '9'
    }
}

/// Appends the decimal numeral of `n` to `out`.
pub fn push_decimal(out: &mut String, n: u64)
    ensures
        final(out)@ == old(out)@ + decimal(n as nat),
    decreases n,
{
    if n < 10 {
        push_char(out, digit_char(n));
        proof {
            assert(old(out)@.push(digit(n as int)) == old(out)@ + decimal(n as nat));
        }
    } else {
        push_decimal(out, n / 10);
        push_char(out, digit_char(n % 10));
        proof {
            assert((old(out)@ + decimal((n / 10) as nat)).push(digit((n % 10) as int)) == old(
                out,
            )@ + decimal(n as nat));
        }
    }
}

/// The decimal numeral of `n` as a string.
pub fn decimal_string(n: u64) -> (s: String)
    ensures
        s@ == decimal(n as nat),
{
    let mut s = String::new();
    push_decimal(&mut s, n);
    proof {
        assert(Seq::<char>::empty() + decimal(n as nat) == decimal(n as nat));
    }
    s
}

/// `a` comes strictly before `b` when the two are compared character by
/// character, by code point, a proper prefix coming first.
pub open spec fn text_less(a: Seq<char>, b: Seq<char>) -> bool
    decreases a.len(),
{
    if b.len() == 0 {
        false
    } else if a.len() == 0 {
        true
    } else if a[0] != b[0] {
        (a[0] as u32) < (b[0] as u32)
    } else {
        text_less(a.drop_first(), b.drop_first())
    }
}

/// The view of an optional string.
pub open spec fn opt_text(value: Option<String>) -> Option<Seq<char>> {
    match value {
        Some(text) => Some(text@),
        None => None,
    }
}

/// The view of an optional string slice.
pub open spec fn opt_str(value: Option<&str>) -> Option<Seq<char>> {
    match value {
        Some(text) => Some(text@),
        None => None,
    }
}

/// The views of a list of strings, in order.
pub open spec fn texts(items: Seq<String>) -> Seq<Seq<char>> {
    items.map_values(|item: String| item@)
}

/// The views of an optional list of strings, in order.
pub open spec fn opt_texts(value: Option<Vec<String>>) -> Option<Seq<Seq<char>>> {
    match value {
        Some(items) => Some(texts(items@)),
        None => None,
    }
}

/// A copy of an optional string.
pub fn copy_opt(value: &Option<String>) -> (copy: Option<String>)
    ensures
        copy == *value,
{
    match value {
        Some(text) => Some(text.clone()),
        None => None,
    }
}

/// `to`, then each character of `s` followed by `to`.
pub open spec fn interleaved(s: Seq<char>, to: Seq<char>) -> Seq<char>
    decreases s.len(),
{
    if s.len() == 0 {
        to
    } else {
        to + seq![s[0]] + interleaved(s.drop_first(), to)
    }
}

/// `s` with every occurrence of `pat` replaced by `to`. Occurrences are found
/// from the left and do not overlap. An empty `pat` occurs before every
/// character and at the end.
pub open spec fn replaced(s: Seq<char>, pat: Seq<char>, to: Seq<char>) -> Seq<char>
    decreases s.len(),
{
    if pat.len() == 0 {
        interleaved(s, to)
    } else if s.len() < pat.len() {
        s
    } else if s.take(pat.len() as int) == pat {
        to + replaced(s.skip(pat.len() as int), pat, to)
    } else {
        seq![s[0]] + replaced(s.drop_first(), pat, to)
    }
}

/// Tells whether `pat` occurs in `s` at position `at`.
pub fn occurs_at(s: &Vec<char>, at: usize, pat: &Vec<char>) -> (found: bool)
    requires
        at <= s.len(),
    ensures
        found == (at + pat.len() <= s.len() && s@.skip(at as int).take(pat.len() as int)
            == pat@),
{
    if pat.len() > s.len() - at {
        return false;
    }
    let mut k: usize = 0;
    while k < pat.len()
        invariant
            0 <= k <= pat.len(),
            at + pat.len() <= s.len(),
            forall|j: int| 0 <= j < k ==> s@[at + j] == pat@[j],
        decreases pat.len() - k,
    {
        if s[at + k] != pat[k] {
            proof {
                assert(s@.skip(at as int).take(pat.len() as int)[k as int] == s@[at + k]);
            }
            return false;
        }
        k += 1;
    }
    proof {
        assert(s@.skip(at as int).take(pat.len() as int) =~= pat@);
    }
    true
}

/// `s` with every occurrence of `pat` replaced by `to`.
pub fn replace_text(s: &str, pat: &str, to: &str) -> (out: String)
    ensures
        out@ == replaced(s@, pat@, to@),
{
    let sv = chars_of(s);
    let pv = chars_of(pat);
    let mut out = String::new();
    let mut i: usize = 0;
    proof {
        assert(s@.skip(0) == s@);
        assert(Seq::<char>::empty() + replaced(s@, pat@, to@) == replaced(s@, pat@, to@));
    }
    if pv.len() == 0 {
        while i < sv.len()
            invariant
                0 <= i <= sv.len(),
                sv@ == s@,
                pat@.len() == 0,
                out@ + replaced(s@.skip(i as int), pat@, to@) == replaced(s@, pat@, to@),
            decreases sv.len() - i,
        {
            let ghost rest = s@.skip(i as int);
            let ghost before = out@;
            out.append(to);
            push_char(&mut out, sv[i]);
            proof {
                assert(rest[0] == s@[i as int]);
                assert(rest.drop_first() == s@.skip(i + 1));
                assert(out@ + replaced(s@.skip(i + 1), pat@, to@) == before + (to@ + seq![
                    rest[0],
                ] + interleaved(rest.drop_first(), to@)));
            }
            i += 1;
        }
        proof {
            assert(s@.skip(i as int).len() == 0);
        }
        out.append(to);
        out
    } else {
        while i < sv.len()
            invariant
                0 <= i <= sv.len(),
                sv@ == s@,
                pv@ == pat@,
                pat@.len() > 0,
                out@ + replaced(s@.skip(i as int), pat@, to@) == replaced(s@, pat@, to@),
            decreases sv.len() - i,
        {
            let ghost rest = s@.skip(i as int);
            let ghost before = out@;
            if occurs_at(&sv, i, &pv) {
                out.append(to);
                proof {
                    assert(rest.skip(pat@.len() as int) == s@.skip(i + pat@.len()));
                    assert(out@ + replaced(s@.skip(i + pat@.len()), pat@, to@) == before + (to@
                        + replaced(rest.skip(pat@.len() as int), pat@, to@)));
                }
                i += pv.len();
            } else {
                push_char(&mut out, sv[i]);
                proof {
                    assert(rest[0] == s@[i as int]);
                    assert(rest.drop_first() == s@.skip(i + 1));
                    lemma_replaced_unmatched(rest, pat@, to@);
                    assert(out@ + replaced(s@.skip(i + 1), pat@, to@) == before + (seq![rest[0]]
                        + replaced(rest.drop_first(), pat@, to@)));
                }
                i += 1;
            }
        }
        proof {
            assert(s@.skip(i as int).len() == 0);
            assert(replaced(s@.skip(i as int), pat@, to@) == Seq::<char>::empty());
            assert(out@ + Seq::<char>::empty() == out@);
        }
        out
    }
}

/// Where a non-empty `pat` does not occur at the start of a non-empty `s`, the
/// first character of `s` is kept and the rest is replaced.
proof fn lemma_replaced_unmatched(s: Seq<char>, pat: Seq<char>, to: Seq<char>)
    requires
        s.len() > 0,
        pat.len() > 0,
        !(pat.len() <= s.len() && s.take(pat.len() as int) == pat),
    ensures
        replaced(s, pat, to) == seq![s[0]] + replaced(s.drop_first(), pat, to),
{
    if s.len() < pat.len() {
        assert(replaced(s.drop_first(), pat, to) == s.drop_first());
        assert(seq![s[0]] + s.drop_first() == s);
    }
}

/// Tells whether two strings hold the same characters.
pub fn same_string(a: &String, b: &String) -> (same: bool)
    ensures
        same == (a@ == b@),
{
    *a == *b
}

/// Tells whether `a` comes strictly before `b` as texts compare.
pub fn text_before(a: &str, b: &str) -> (less: bool)
    ensures
        less == text_less(a@, b@),
{
    let x = chars_of(a);
    let y = chars_of(b);
    let mut i: usize = 0;
    proof {
        assert(a@.skip(0) == a@);
        assert(b@.skip(0) == b@);
    }
    while i < x.len() && i < y.len()
        invariant
            0 <= i <= x.len(),
            i <= y.len(),
            x@ == a@,
            y@ == b@,
            text_less(a@, b@) == text_less(a@.skip(i as int), b@.skip(i as int)),
        decreases x.len() - i,
    {
        proof {
            assert(a@.skip(i as int)[0] == a@[i as int]);
            assert(b@.skip(i as int)[0] == b@[i as int]);
            assert(a@.skip(i as int).drop_first() == a@.skip(i + 1));
            assert(b@.skip(i as int).drop_first() == b@.skip(i + 1));
        }
        if x[i] != y[i] {
            return (x[i] as u32) < (y[i] as u32);
        }
        i += 1;
    }
    i < y.len()
}

/// The parts laid end to end, with `sep` between each two.
pub open spec fn joined(parts: Seq<Seq<char>>, sep: Seq<char>) -> Seq<char>
    decreases parts.len(),
{
    if parts.len() == 0 {
        Seq::empty()
    } else if parts.len() == 1 {
        parts[0]
    } else {
        joined(parts.drop_last(), sep) + sep + parts.last()
    }
}

/// The strings laid end to end, with `sep` between each two.
pub fn join(parts: &Vec<String>, sep: &str) -> (out: String)
    ensures
        out@ == joined(texts(parts@), sep@),
{
    let mut out = String::new();
    let mut i: usize = 0;
    proof {
        assert(texts(parts@).take(0) =~= Seq::empty());
    }
    while i < parts.len()
        invariant
            0 <= i <= parts.len(),
            out@ == joined(texts(parts@).take(i as int), sep@),
        decreases parts.len() - i,
    {
        proof {
            let done = texts(parts@).take(i as int);
            let next = texts(parts@).take(i + 1);
            assert(next.drop_last() =~= done);
            assert(next.last() == parts@[i as int]@);
            if i == 0 {
                assert(Seq::<char>::empty() + parts@[i as int]@ =~= parts@[i as int]@);
            }
        }
        if i > 0 {
            out.append(sep);
        }
        out.append(parts[i].as_str());
        i += 1;
    }
    proof {
        assert(texts(parts@).take(i as int) =~= texts(parts@));
    }
    out
}

/// Whether the character is white space.
pub open spec fn is_space(c: char) -> bool {
    let n = c as u32;
    (0x09 <= n <= 0x0D) || n == 0x20 || n == 0x85 || n == 0xA0 || n == 0x1680 || (0x2000 <= n
        <= 0x200A) || n == 0x2028 || n == 0x2029 || n == 0x202F || n == 0x205F || n == 0x3000
}

/// The text without the white space at its end.
pub open spec fn trimmed_end(text: Seq<char>) -> Seq<char>
    decreases text.len(),
{
    if text.len() > 0 && is_space(text.last()) {
        trimmed_end(text.drop_last())
    } else {
        text
    }
}

/// The text without the white space at its start.
pub open spec fn trimmed_start(text: Seq<char>) -> Seq<char>
    decreases text.len(),
{
    if text.len() > 0 && is_space(text[0]) {
        trimmed_start(text.drop_first())
    } else {
        text
    }
}

/// The text without the white space at its two ends.
pub open spec fn trimmed(text: Seq<char>) -> Seq<char> {
    trimmed_start(trimmed_end(text))
}

fn is_space_char(c: char) -> (yes: bool)
    ensures
        yes == is_space(c),
{
    let n = c as u32;
    (0x09 <= n && n <= 0x0D) || n == 0x20 || n == 0x85 || n == 0xA0 || n == 0x1680 || (0x2000
        <= n && n <= 0x200A) || n == 0x2028 || n == 0x2029 || n == 0x202F || n == 0x205F || n
        == 0x3000
}

/// Where the trimmed line begins and ends in the line.
pub fn trim_bounds(line: &Vec<char>) -> (bounds: (usize, usize))
    ensures
        bounds.0 <= bounds.1 <= line.len(),
        line@.subrange(bounds.0 as int, bounds.1 as int) == trimmed(line@),
{
    let mut end: usize = line.len();
    proof {
        assert(line@.take(end as int) =~= line@);
    }
    while end > 0 && is_space_char(line[end - 1])
        invariant
            0 <= end <= line.len(),
            trimmed_end(line@) == trimmed_end(line@.take(end as int)),
        decreases end,
    {
        proof {
            assert(line@.take(end as int).last() == line@[end - 1]);
            assert(line@.take(end as int).drop_last() =~= line@.take(end - 1));
        }
        end -= 1;
    }
    proof {
        if end > 0 {
            assert(line@.take(end as int).last() == line@[end - 1]);
        }
        assert(trimmed_end(line@) == line@.take(end as int));
        assert(line@.take(end as int) =~= line@.subrange(0, end as int));
    }
    let mut start: usize = 0;
    while start < end && is_space_char(line[start])
        invariant
            0 <= start <= end <= line.len(),
            trimmed(line@) == trimmed_start(line@.subrange(start as int, end as int)),
        decreases end - start,
    {
        proof {
            assert(line@.subrange(start as int, end as int)[0] == line@[start as int]);
            assert(line@.subrange(start as int, end as int).drop_first() =~= line@.subrange(
                start + 1,
                end as int,
            ));
        }
        start += 1;
    }
    proof {
        if start < end {
            assert(line@.subrange(start as int, end as int)[0] == line@[start as int]);
        }
    }
    (start, end)
}

/// The pieces of the text that a separator ends, in order.
pub open spec fn ended_pieces(text: Seq<char>, sep: char) -> Seq<Seq<char>>
    decreases text.len(),
{
    if text.len() == 0 {
        Seq::empty()
    } else if text.last() == sep {
        ended_pieces(text.drop_last(), sep).push(open_piece(text.drop_last(), sep))
    } else {
        ended_pieces(text.drop_last(), sep)
    }
}

/// What stands behind the last separator of the text.
pub open spec fn open_piece(text: Seq<char>, sep: char) -> Seq<char>
    decreases text.len(),
{
    if text.len() == 0 {
        Seq::empty()
    } else if text.last() == sep {
        Seq::empty()
    } else {
        open_piece(text.drop_last(), sep).push(text.last())
    }
}

/// The pieces that the separator splits the text into, each trimmed. There
/// is one piece more than there are separators.
pub open spec fn split_trimmed(text: Seq<char>, sep: char) -> Seq<Seq<char>> {
    ended_pieces(text, sep).push(open_piece(text, sep)).map_values(
        |piece: Seq<char>| trimmed(piece),
    )
}

/// Whether the character stands in the text.
pub open spec fn holds_char(text: Seq<char>, c: char) -> bool {
    exists|i: int| 0 <= i < text.len() && text[i] == c
}

/// Tells whether the character stands in the text.
pub fn has_char(text: &str, c: char) -> (found: bool)
    ensures
        found == holds_char(text@, c),
{
    let chars = chars_of(text);
    let mut i: usize = 0;
    while i < chars.len()
        invariant
            0 <= i <= chars.len(),
            chars@ == text@,
            forall|j: int| 0 <= j < i ==> text@[j] != c,
        decreases chars.len() - i,
    {
        if chars[i] == c {
            return true;
        }
        i += 1;
    }
    false
}

fn trimmed_string(piece: &Vec<char>) -> (out: String)
    ensures
        out@ == trimmed(piece@),
{
    let (start, end) = trim_bounds(piece);
    let mut out = String::new();
    let mut k: usize = start;
    proof {
        assert(piece@.subrange(start as int, start as int) =~= Seq::empty());
    }
    while k < end
        invariant
            start <= k <= end <= piece.len(),
            out@ == piece@.subrange(start as int, k as int),
        decreases end - k,
    {
        push_char(&mut out, piece[k]);
        proof {
            assert(piece@.subrange(start as int, k as int).push(piece@[k as int])
                =~= piece@.subrange(start as int, k + 1));
        }
        k += 1;
    }
    out
}

/// Splits the text at every separator and trims each piece.
pub fn split_and_trim(text: &str, sep: char) -> (pieces: Vec<String>)
    ensures
        texts(pieces@) == split_trimmed(text@, sep),
{
    let chars = chars_of(text);
    let mut pieces: Vec<String> = Vec::new();
    let mut piece: Vec<char> = Vec::new();
    let mut i: usize = 0;
    proof {
        assert(text@.take(0) =~= Seq::empty());
        assert(texts(pieces@) =~= ended_pieces(text@.take(0), sep).map_values(
            |piece: Seq<char>| trimmed(piece),
        ));
    }
    while i < chars.len()
        invariant
            0 <= i <= chars.len(),
            chars@ == text@,
            texts(pieces@) == ended_pieces(text@.take(i as int), sep).map_values(
                |piece: Seq<char>| trimmed(piece),
            ),
            piece@ == open_piece(text@.take(i as int), sep),
        decreases chars.len() - i,
    {
        let c = chars[i];
        proof {
            assert(text@.take(i + 1).drop_last() =~= text@.take(i as int));
            assert(text@.take(i + 1).last() == c);
        }
        if c == sep {
            let ghost done = texts(pieces@);
            let ghost ended = ended_pieces(text@.take(i as int), sep);
            pieces.push(trimmed_string(&piece));
            proof {
                assert(texts(pieces@) =~= done.push(trimmed(piece@)));
                assert(ended.push(piece@).map_values(|piece: Seq<char>| trimmed(piece))
                    =~= done.push(trimmed(piece@)));
            }
            piece = Vec::new();
        } else {
            piece.push(c);
        }
        i += 1;
    }
    proof {
        assert(text@.take(i as int) =~= text@);
    }
    let ghost done = texts(pieces@);
    pieces.push(trimmed_string(&piece));
    proof {
        assert(texts(pieces@) =~= done.push(trimmed(piece@)));
        assert(ended_pieces(text@, sep).push(piece@).map_values(
            |piece: Seq<char>| trimmed(piece),
        ) =~= done.push(trimmed(piece@)));
    }
    pieces
}

/// `pat` stands in `text` at position `at`.
pub open spec fn stands_at(text: Seq<char>, pat: Seq<char>, at: int) -> bool {
    0 <= at && at + pat.len() <= text.len() && text.subrange(at, at + pat.len()) == pat
}

/// `pat` stands somewhere in `text`.
pub open spec fn stands_in(text: Seq<char>, pat: Seq<char>) -> bool {
    exists|at: int| stands_at(text, pat, at)
}

/// No character of `pat` is a character of `to`.
pub open spec fn shares_no_char(pat: Seq<char>, to: Seq<char>) -> bool {
    forall|i: int, j: int| 0 <= i < pat.len() && 0 <= j < to.len() ==> pat[i] != to[j]
}

/// The character is one of those of `pat`.
pub open spec fn char_of(pat: Seq<char>, c: char) -> bool {
    exists|i: int| 0 <= i < pat.len() && pat[i] == c
}

/// Where a replaced text begins with characters that all come from `pat`,
/// none of them was written in place of an occurrence: they are the first
/// characters of the text itself.
proof fn lemma_replaced_keeps_start(text: Seq<char>, pat: Seq<char>, to: Seq<char>, k: int)
    requires
        pat.len() > 0,
        to.len() > 0,
        shares_no_char(pat, to),
        0 <= k <= replaced(text, pat, to).len(),
        forall|j: int| 0 <= j < k ==> char_of(pat, #[trigger] replaced(text, pat, to)[j]),
    ensures
        k <= text.len(),
        replaced(text, pat, to).take(k) == text.take(k),
    decreases text.len(),
{
    let out = replaced(text, pat, to);
    if k == 0 {
        assert(out.take(0) =~= text.take(0));
    } else if text.len() < pat.len() {
    } else if text.take(pat.len() as int) == pat {
        assert(char_of(pat, out[0]));
        let i = choose|i: int| 0 <= i < pat.len() && pat[i] == out[0];
        assert(out[0] == to[0]);
        assert(pat[i] != to[0]);
    } else {
        let rest = text.drop_first();
        let tail = replaced(rest, pat, to);
        assert forall|j: int| 0 <= j < k - 1 implies char_of(pat, #[trigger] tail[j]) by {
            assert(tail[j] == out[j + 1]);
            assert(char_of(pat, out[j + 1]));
        }
        lemma_replaced_keeps_start(rest, pat, to, k - 1);
        assert(out.take(k) =~= seq![text[0]] + tail.take(k - 1));
        assert(text.take(k) =~= seq![text[0]] + rest.take(k - 1));
    }
}

/// `pat` stands at no given position of a text in which it was replaced.
proof fn lemma_replaced_hides_at(text: Seq<char>, pat: Seq<char>, to: Seq<char>, at: int)
    requires
        pat.len() > 0,
        to.len() > 0,
        shares_no_char(pat, to),
    ensures
        !stands_at(replaced(text, pat, to), pat, at),
    decreases text.len(),
{
    let out = replaced(text, pat, to);
    let n = pat.len() as int;
    if stands_at(out, pat, at) {
        assert forall|j: int| 0 <= j < n implies out[at + j] == pat[j] by {
            assert(out.subrange(at, at + n)[j] == out[at + j]);
        }
        if at == 0 {
            assert forall|j: int| 0 <= j < n implies char_of(pat, #[trigger] out[j]) by {
                assert(pat[j] == out[at + j]);
            }
            lemma_replaced_keeps_start(text, pat, to, n);
            assert(out.take(n) =~= out.subrange(0, n));
            if text.len() >= pat.len() && text.take(n) == pat {
                assert(out[0] == to[0]);
                assert(out[at + 0] == pat[0]);
                assert(false);
            }
            assert(false);
        } else if text.len() < pat.len() {
            assert(false);
        } else if text.take(n) == pat {
            let tail = replaced(text.skip(n), pat, to);
            if at < to.len() {
                assert(out[at] == to[at]);
                assert(out[at + 0] == pat[0]);
                assert(false);
            } else {
                lemma_replaced_hides_at(text.skip(n), pat, to, at - to.len());
                assert(tail.subrange(at - to.len(), at - to.len() + n) =~= out.subrange(
                    at,
                    at + n,
                ));
                assert(false);
            }
        } else {
            let tail = replaced(text.drop_first(), pat, to);
            lemma_replaced_hides_at(text.drop_first(), pat, to, at - 1);
            assert(tail.subrange(at - 1, at - 1 + n) =~= out.subrange(at, at + n));
            assert(false);
        }
    }
}

/// Replacing every occurrence of a text by one that shares no character with
/// it leaves no occurrence, neither an old one nor one that the replacement
/// would bring about.
pub proof fn law_replaced_hides_pattern(text: Seq<char>, pat: Seq<char>, to: Seq<char>)
    requires
        pat.len() > 0,
        to.len() > 0,
        shares_no_char(pat, to),
    ensures
        !stands_in(replaced(text, pat, to), pat),
{
    assert forall|at: int| !stands_at(replaced(text, pat, to), pat, at) by {
        lemma_replaced_hides_at(text, pat, to, at);
    }
}

} // verus!
