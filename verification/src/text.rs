//! Text primitives: the handful of string operations that the rest of the
//! crate is written in, each with an exact contract over sequences of
//! characters.

use crate::views;
use vstd::prelude::*;

verus! {

/// The Unicode `White_Space` property.
pub open spec fn is_white_space(c: char) -> bool {
    ||| '\u{9}' <= c <= '\u{d}'
    ||| c == '\u{20}'
    ||| c == '\u{85}'
    ||| c == '\u{a0}'
    ||| c == '\u{1680}'
    ||| '\u{2000}' <= c <= '\u{200a}'
    ||| c == '\u{2028}'
    ||| c == '\u{2029}'
    ||| c == '\u{202f}'
    ||| c == '\u{205f}'
    ||| c == '\u{3000}'
}

/// `s` without its leading white space.
pub open spec fn trimmed_start(s: Seq<char>) -> Seq<char>
    decreases s.len(),
{
    if s.len() > 0 && is_white_space(s.first()) {
        trimmed_start(s.drop_first())
    } else {
        s
    }
}

/// `s` without its trailing white space.
pub open spec fn trimmed_end(s: Seq<char>) -> Seq<char>
    decreases s.len(),
{
    if s.len() > 0 && is_white_space(s.last()) {
        trimmed_end(s.drop_last())
    } else {
        s
    }
}

/// `s` without leading and trailing white space.
pub open spec fn trimmed(s: Seq<char>) -> Seq<char> {
    trimmed_end(trimmed_start(s))
}

/// `str::trim`: what is left once white space, as Unicode's `White_Space`
/// property defines it, is taken off both ends.
pub assume_specification[ str::trim ](s: &str) -> (r: &str)
    ensures
        r@ == trimmed(s@),
;

/// `String::push`: appends one character.
pub assume_specification[ String::push ](s: &mut String, c: char)
    ensures
        final(s)@ == old(s)@.push(c),
;

/// Equality of string slices (`str`'s `==`): the same characters in the same
/// order.
#[verifier::external_body]
pub(crate) fn same(a: &str, b: &str) -> (r: bool)
    ensures
        r == (a@ == b@),
{
    a == b
}

/// `str::strip_prefix`: the rest of `s` after `prefix`, or `None` where `s`
/// does not start with it.
#[verifier::external_body]
pub(crate) fn strip_prefix<'a>(s: &'a str, prefix: &str) -> (r: Option<&'a str>)
    ensures
        (match r {
            Some(rest) => s@ == prefix@ + rest@,
            None => !prefix@.is_prefix_of(s@),
        }),
{
    s.strip_prefix(prefix)
}

/// `s` without a prefix that may be repeated.
pub open spec fn without_prefixes(s: Seq<char>, prefix: Seq<char>) -> Seq<char>
    decreases s.len(),
{
    if prefix.len() > 0 && prefix.is_prefix_of(s) {
        without_prefixes(s.skip(prefix.len() as int), prefix)
    } else {
        s
    }
}

/// Takes a prefix off, as often as it is there.
pub fn strip_prefixes<'a>(s: &'a str, prefix: &str) -> (r: &'a str)
    ensures
        r@ == without_prefixes(s@, prefix@),
{
    if prefix.is_empty() {
        return s;
    }
    let mut rest: &'a str = s;
    loop
        invariant_except_break
            without_prefixes(rest@, prefix@) == without_prefixes(s@, prefix@),
        invariant
            prefix@.len() > 0,
        ensures
            rest@ == without_prefixes(s@, prefix@),
        decreases rest@.len(),
    {
        match strip_prefix(rest, prefix) {
            Some(shorter) => {
                proof {
                    assert(rest@.skip(prefix@.len() as int) =~= shorter@);
                    assert(prefix@.is_prefix_of(rest@));
                }
                rest = shorter;
            },
            None => break,
        }
    }
    rest
}

/// `str::strip_suffix` for one character: `s` without a final `c`, or `None`
/// where `s` does not end in it.
#[verifier::external_body]
pub(crate) fn strip_last<'a>(s: &'a str, c: char) -> (r: Option<&'a str>)
    ensures
        (match r {
            Some(rest) => s@ == rest@.push(c),
            None => s@.len() == 0 || s@.last() != c,
        }),
{
    s.strip_suffix(c)
}

/// `str::split_once` for one character: what stands before and after its
/// first occurrence, or `None` where it does not occur.
#[verifier::external_body]
pub(crate) fn split_once<'a>(s: &'a str, c: char) -> (r: Option<(&'a str, &'a str)>)
    ensures
        (match r {
            Some((before, after)) => !before@.contains(c) && s@ == before@.push(c) + after@,
            None => !s@.contains(c),
        }),
{
    s.split_once(c)
}

/// Whether `needle` occurs in `s` as a contiguous run.
pub open spec fn occurs_in(needle: Seq<char>, s: Seq<char>) -> bool {
    exists|i: int|
        0 <= i <= s.len() - needle.len() && #[trigger] s.subrange(i, i + needle.len()) == needle
}

/// `str::contains` for a string pattern: whether the pattern is a sub-slice.
#[verifier::external_body]
pub(crate) fn contains(s: &str, needle: &str) -> (r: bool)
    ensures
        r == occurs_in(needle@, s@),
{
    s.contains(needle)
}

/// The lowercase form of a text, as `str::to_lowercase` gives it.
pub uninterp spec fn lowercase(s: Seq<char>) -> Seq<char>;

/// `str::to_lowercase`: the Unicode lowercase equivalent, a function of the
/// text alone.
pub assume_specification[ str::to_lowercase ](s: &str) -> (r: String)
    ensures
        r@ == lowercase(s@),
;

/// The number of characters before the first line feed, or of all of them.
pub open spec fn line_len(s: Seq<char>) -> nat
    decreases s.len(),
{
    if s.len() == 0 || s.first() == '\n' {
        0
    } else {
        1 + line_len(s.drop_first())
    }
}

/// `s` without one final carriage return.
pub open spec fn without_cr(s: Seq<char>) -> Seq<char> {
    if s.len() > 0 && s.last() == '\r' {
        s.drop_last()
    } else {
        s
    }
}

/// The lines of a text. A line ends at a line feed, or at a carriage return
/// followed by one; neither belongs to the line, and a final line end opens
/// no further line.
pub open spec fn lines_of(s: Seq<char>) -> Seq<Seq<char>>
    decreases s.len(),
    via lines_of_shrinks
{
    if s.len() == 0 {
        seq![]
    } else if line_len(s) == s.len() {
        seq![s]
    } else {
        seq![without_cr(s.take(line_len(s) as int))] + lines_of(s.skip(line_len(s) as int + 1))
    }
}

#[via_fn]
proof fn lines_of_shrinks(s: Seq<char>) {
    lemma_line_len(s);
}

/// A line is a prefix that holds no line feed and is as long as possible.
pub proof fn lemma_line_len(s: Seq<char>)
    ensures
        line_len(s) <= s.len(),
        forall|i: int| 0 <= i < line_len(s) ==> s[i] != '\n',
        line_len(s) < s.len() ==> s[line_len(s) as int] == '\n',
    decreases s.len(),
{
    if s.len() > 0 && s.first() != '\n' {
        lemma_line_len(s.drop_first());
        assert forall|i: int| 0 <= i < line_len(s) implies s[i] != '\n' by {
            if i > 0 {
                assert(s.drop_first()[i - 1] == s[i]);
            }
        }
        if line_len(s) < s.len() {
            assert(s.drop_first()[line_len(s.drop_first()) as int] == s[line_len(s) as int]);
        }
    }
}

/// The first line of a text does not depend on what follows its line feed.
proof fn lemma_line_len_prefix(a: Seq<char>, b: Seq<char>)
    requires
        line_len(a) < a.len(),
    ensures
        line_len(a + b) == line_len(a),
    decreases a.len(),
{
    if a.first() == '\n' {
        assert((a + b).first() == '\n');
    } else {
        assert((a + b).first() == a.first());
        assert((a + b).drop_first() =~= a.drop_first() + b);
        lemma_line_len_prefix(a.drop_first(), b);
    }
}

/// Texts of whole lines concatenate: where `a` is empty or ends in a line
/// feed, the lines of `a + b` are those of `a`, then those of `b`.
pub proof fn law_lines_concatenate(a: Seq<char>, b: Seq<char>)
    requires
        a.len() == 0 || a.last() == '\n',
    ensures
        lines_of(a + b) == lines_of(a) + lines_of(b),
    decreases a.len(),
{
    if a.len() == 0 {
        assert(a + b =~= b);
        assert(lines_of(a) + lines_of(b) =~= lines_of(b));
    } else {
        lemma_line_len(a);
        let n = line_len(a) as int;
        if n == a.len() {
            assert(a[n - 1] == a.last());
        }
        assert(n < a.len());
        lemma_line_len_prefix(a, b);
        let rest = a.skip(n + 1);
        assert((a + b).take(n) =~= a.take(n));
        assert((a + b).skip(n + 1) =~= rest + b);
        assert(rest.len() > 0 ==> rest.last() == a.last());
        law_lines_concatenate(rest, b);
        assert(lines_of(a + b) =~= lines_of(a) + lines_of(b));
    }
}

/// The lines of a text with a line feed behind it: where the text is empty or
/// ends in a line feed, one empty line more; else the same lines, the last
/// without a final carriage return.
pub proof fn lemma_final_line_end(a: Seq<char>)
    ensures
        a.len() == 0 || a.last() == '\n' ==> lines_of(a.push('\n')) == lines_of(a).push(seq![]),
        a.len() > 0 && a.last() != '\n' ==> lines_of(a).len() > 0 && lines_of(a.push('\n'))
            == lines_of(a).drop_last().push(without_cr(lines_of(a).last())),
    decreases a.len(),
{
    let ended = a.push('\n');
    lemma_line_len(a);
    lemma_line_len(ended);
    let n = line_len(a) as int;
    let m = line_len(ended) as int;
    if m < n {
        assert(ended[m] == a[m]);
    }
    if n < m {
        assert(ended[n] == '\n');
    }
    assert(m == n);
    assert(ended.take(n) =~= a.take(n));
    if n == a.len() {
        assert(ended.skip(n + 1) =~= seq![]);
        assert(lines_of(ended.skip(n + 1)) =~= seq![]);
        assert(a.take(n) =~= a);
        if a.len() > 0 {
            assert(a[n - 1] == a.last());
            assert(lines_of(a) =~= seq![a]);
            assert(lines_of(ended) =~= lines_of(a).drop_last().push(without_cr(lines_of(a).last())));
        } else {
            assert(without_cr(a) =~= seq![]);
            assert(lines_of(ended) =~= lines_of(a).push(seq![]));
        }
    } else {
        let rest = a.skip(n + 1);
        assert(ended.skip(n + 1) =~= rest.push('\n'));
        lemma_final_line_end(rest);
        if rest.len() == 0 {
            assert(a.last() == a[n]);
        } else {
            assert(rest.last() == a.last());
        }
        if a.last() == '\n' {
            assert(lines_of(ended) =~= lines_of(a).push(seq![]));
        } else {
            assert(lines_of(a).last() == lines_of(rest).last());
            assert(lines_of(ended) =~= lines_of(a).drop_last().push(without_cr(lines_of(a).last())));
        }
    }
}

/// A final white space does not outlast trimming.
proof fn lemma_trimmed_start_push(s: Seq<char>, c: char)
    requires
        is_white_space(c),
    ensures
        trimmed_start(s.push(c)) == if trimmed_start(s).len() == 0 {
            seq![]
        } else {
            trimmed_start(s).push(c)
        },
    decreases s.len(),
{
    if s.len() == 0 {
        assert(s.push(c).drop_first() =~= seq![]);
        assert(trimmed_start(s.push(c).drop_first()) =~= seq![]);
    } else if is_white_space(s.first()) {
        assert(s.push(c).drop_first() =~= s.drop_first().push(c));
        lemma_trimmed_start_push(s.drop_first(), c);
    }
}

/// A final carriage return does not matter to a line that is trimmed.
pub proof fn lemma_trimmed_without_cr(line: Seq<char>)
    ensures
        trimmed(without_cr(line)) == trimmed(line),
{
    if line.len() > 0 && line.last() == '\r' {
        let s = line.drop_last();
        assert(line =~= s.push('\r'));
        lemma_trimmed_start_push(s, '\r');
        let t = trimmed_start(s);
        if t.len() == 0 {
            assert(t =~= seq![]);
        } else {
            assert(t.push('\r').drop_last() =~= t);
        }
    }
}

/// The lines of `s`, in order.
pub fn lines<'a>(s: &'a str) -> (out: Vec<&'a str>)
    ensures
        views::seq_view(out@) =~= lines_of(s@),
{
    let mut out: Vec<&'a str> = Vec::new();
    let mut rest: &'a str = s;
    loop
        invariant_except_break
            views::seq_view(out@) + lines_of(rest@) =~= lines_of(s@),
        ensures
            views::seq_view(out@) =~= lines_of(s@),
        decreases rest@.len(),
    {
        let ghost before_out = views::seq_view(out@);
        let ghost whole = rest@;
        match split_once(rest, '\n') {
            Some((before, after)) => {
                proof {
                    lemma_line_len(whole);
                    let n = line_len(whole) as int;
                    assert(whole[before@.len() as int] == '\n');
                    if n < before@.len() {
                        assert(whole[n] == before@[n]);
                        assert(before@.contains('\n'));
                    }
                    assert(n == before@.len());
                    assert(whole.take(n) =~= before@);
                    assert(whole.skip(n + 1) =~= after@);
                }
                let line: &'a str = match strip_last(before, '\r') {
                    Some(shorter) => shorter,
                    None => before,
                };
                assert(line@ == without_cr(before@));
                out.push(line);
                assert(views::seq_view(out@) =~= before_out.push(line@));
                rest = after;
            },
            None => {
                proof {
                    lemma_line_len(whole);
                    if line_len(whole) < whole.len() {
                        assert(whole.contains(whole[line_len(whole) as int]));
                    }
                }
                if !rest.is_empty() {
                    out.push(rest);
                    assert(views::seq_view(out@) =~= before_out.push(rest@));
                }
                break;
            },
        }
    }
    out
}

/// A copy of a run of texts.
pub fn clone_texts(texts: &Vec<String>) -> (r: Vec<String>)
    ensures
        views::seq_view(r@) == views::seq_view(texts@),
{
    broadcast use views::lemma_seq_view_push;

    let mut out: Vec<String> = Vec::new();
    for i in 0..texts.len()
        invariant
            views::seq_view(out@) =~= views::seq_view(texts@).take(i as int),
    {
        proof {
            views::lemma_seq_view_take(texts@, i as int);
        }
        out.push(texts[i].clone());
    }
    out
}

/// Whether a run of bytes comes before another: at the first byte in which
/// they differ it has the smaller one, or it ends where the other goes on.
pub open spec fn bytes_precede(a: Seq<u8>, b: Seq<u8>) -> bool
    decreases a.len(),
{
    if b.len() == 0 {
        false
    } else if a.len() == 0 {
        true
    } else if a.first() != b.first() {
        a.first() < b.first()
    } else {
        bytes_precede(a.drop_first(), b.drop_first())
    }
}

/// The order of texts, which is that of their bytes.
pub open spec fn precedes(a: Seq<char>, b: Seq<char>) -> bool {
    bytes_precede(vstd::utf8::encode_utf8(a), vstd::utf8::encode_utf8(b))
}

/// Whether a text comes before another.
pub fn is_before(a: &str, b: &str) -> (r: bool)
    ensures
        r == precedes(a@, b@),
{
    let x: &[u8] = a.as_bytes();
    let y: &[u8] = b.as_bytes();
    let mut i: usize = 0;
    assert(x@.skip(0) =~= x@);
    assert(y@.skip(0) =~= y@);
    while i < x.len() && i < y.len()
        invariant
            x@ == vstd::utf8::encode_utf8(a@),
            y@ == vstd::utf8::encode_utf8(b@),
            i <= x@.len(),
            i <= y@.len(),
            bytes_precede(x@, y@) == bytes_precede(x@.skip(i as int), y@.skip(i as int)),
        decreases x.len() - i,
    {
        assert(x@.skip(i as int).first() == x@[i as int]);
        assert(y@.skip(i as int).first() == y@[i as int]);
        if x[i] != y[i] {
            return x[i] < y[i];
        }
        assert(x@.skip(i as int).drop_first() =~= x@.skip(i + 1));
        assert(y@.skip(i as int).drop_first() =~= y@.skip(i + 1));
        i += 1;
    }
    i < y.len()
}

proof fn lemma_bytes_irreflexive(a: Seq<u8>)
    ensures
        !bytes_precede(a, a),
    decreases a.len(),
{
    if a.len() > 0 {
        lemma_bytes_irreflexive(a.drop_first());
    }
}

proof fn lemma_bytes_total(a: Seq<u8>, b: Seq<u8>)
    ensures
        bytes_precede(a, b) || bytes_precede(b, a) || a == b,
    decreases a.len(),
{
    if a.len() > 0 && b.len() > 0 && a.first() == b.first() {
        lemma_bytes_total(a.drop_first(), b.drop_first());
        if a.drop_first() == b.drop_first() {
            assert(a =~= seq![a.first()] + a.drop_first());
            assert(b =~= seq![b.first()] + b.drop_first());
        }
    } else if a.len() == 0 && b.len() == 0 {
        assert(a =~= b);
    }
}

proof fn lemma_bytes_transitive(a: Seq<u8>, b: Seq<u8>, c: Seq<u8>)
    requires
        bytes_precede(a, b),
        bytes_precede(b, c),
    ensures
        bytes_precede(a, c),
    decreases a.len(),
{
    if a.len() > 0 && a.first() == b.first() && b.first() == c.first() {
        lemma_bytes_transitive(a.drop_first(), b.drop_first(), c.drop_first());
    }
}

/// No text comes before itself.
pub proof fn lemma_precedes_irreflexive(a: Seq<char>)
    ensures
        !precedes(a, a),
{
    lemma_bytes_irreflexive(vstd::utf8::encode_utf8(a));
}

/// Of two texts that differ, one comes before the other.
pub proof fn lemma_precedes_total(a: Seq<char>, b: Seq<char>)
    ensures
        precedes(a, b) || precedes(b, a) || a == b,
{
    lemma_bytes_total(vstd::utf8::encode_utf8(a), vstd::utf8::encode_utf8(b));
    vstd::utf8::encode_utf8_decode_utf8(a);
    vstd::utf8::encode_utf8_decode_utf8(b);
}

/// What comes before a text comes before all that it comes before.
pub proof fn lemma_precedes_transitive(a: Seq<char>, b: Seq<char>, c: Seq<char>)
    requires
        precedes(a, b),
        precedes(b, c),
    ensures
        precedes(a, c),
{
    lemma_bytes_transitive(
        vstd::utf8::encode_utf8(a),
        vstd::utf8::encode_utf8(b),
        vstd::utf8::encode_utf8(c),
    );
}

/// A text of one line has that line; with a line feed behind it, the same line
/// without one final carriage return. An empty text has no line.
pub proof fn law_one_line(line: Seq<char>)
    requires
        !line.contains('\n'),
    ensures
        lines_of(line) == if line.len() == 0 {
            seq![]
        } else {
            seq![line]
        },
        line.len() > 0 && line.last() == '\r' ==> lines_of(line.push('\n'))
            == seq![line.drop_last()],
        line.len() == 0 || line.last() != '\r' ==> lines_of(line.push('\n')) == seq![line],
{
    lemma_line_len(line);
    if line_len(line) < line.len() {
        assert(line.contains(line[line_len(line) as int]));
    }
    if line.len() > 0 {
        assert(line.contains(line.last()));
        assert(lines_of(line) =~= seq![line]);
    } else {
        assert(line =~= seq![]);
    }
    lemma_final_line_end(line);
    if line.len() > 0 {
        assert(lines_of(line.push('\n')) =~= seq![without_cr(line)]);
    } else {
        assert(lines_of(line.push('\n')) =~= seq![line]);
    }
}

/// What `trimmed_start` takes off is white space, and all there is.
proof fn lemma_trimmed_start(s: Seq<char>) -> (n: int)
    ensures
        0 <= n <= s.len(),
        trimmed_start(s) == s.skip(n),
        forall|i: int| 0 <= i < n ==> is_white_space(#[trigger] s[i]),
        n < s.len() ==> !is_white_space(s[n]),
    decreases s.len(),
{
    if s.len() > 0 && is_white_space(s.first()) {
        let n = lemma_trimmed_start(s.drop_first());
        assert(s.drop_first().skip(n) =~= s.skip(n + 1));
        assert forall|i: int| 0 <= i < n + 1 implies is_white_space(#[trigger] s[i]) by {
            if i > 0 {
                assert(s[i] == s.drop_first()[i - 1]);
            }
        }
        n + 1
    } else {
        assert(s.skip(0) =~= s);
        0
    }
}

/// What `trimmed_end` takes off is white space, and all there is.
proof fn lemma_trimmed_end(s: Seq<char>) -> (n: int)
    ensures
        0 <= n <= s.len(),
        trimmed_end(s) == s.take(n),
        forall|i: int| n <= i < s.len() ==> is_white_space(#[trigger] s[i]),
        n > 0 ==> !is_white_space(s[n - 1]),
    decreases s.len(),
{
    if s.len() > 0 && is_white_space(s.last()) {
        let n = lemma_trimmed_end(s.drop_last());
        assert(s.drop_last().take(n) =~= s.take(n));
        assert forall|i: int| n <= i < s.len() implies is_white_space(#[trigger] s[i]) by {
            if i < s.len() - 1 {
                assert(s[i] == s.drop_last()[i]);
            }
        }
        n
    } else {
        assert(s.take(s.len() as int) =~= s);
        s.len() as int
    }
}

/// Trimming takes off nothing but white space, and leaves none at the ends:
/// what is left stands between two runs of white space.
pub proof fn law_trimming_takes_off_white_space(s: Seq<char>)
    ensures
        exists|i: int, j: int|
            0 <= i <= j <= s.len() && trimmed(s) == #[trigger] s.subrange(i, j) && (forall|k: int|
                0 <= k < i || j <= k < s.len() ==> is_white_space(#[trigger] s[k])),
        trimmed(s).len() > 0 ==> !is_white_space(trimmed(s).first()) && !is_white_space(
            trimmed(s).last(),
        ),
        trimmed(trimmed(s)) == trimmed(s),
{
    let i = lemma_trimmed_start(s);
    let t = trimmed_start(s);
    let n = lemma_trimmed_end(t);
    assert(trimmed(s) =~= s.subrange(i, i + n));
    assert forall|k: int| 0 <= k < i || i + n <= k < s.len() implies is_white_space(
        #[trigger] s[k],
    ) by {
        if k >= i + n {
            assert(t[k - i] == s[k]);
        }
    }
    if n > 0 {
        assert(t[0] == s[i]);
        assert(trimmed(s).first() == t[0]);
        assert(trimmed(s).last() == t[n - 1]);
        assert(trimmed_start(trimmed(s)) == trimmed(s));
    } else {
        assert(trimmed(s).len() == 0);
        assert(trimmed_start(trimmed(s)) == trimmed(s));
    }
}

/// A prefix that stands before a text is taken off, and then those of the text;
/// a text without it stays.
pub proof fn law_prefix_before_a_text_is_taken_off(s: Seq<char>, prefix: Seq<char>)
    requires
        prefix.len() > 0,
    ensures
        without_prefixes(prefix + s, prefix) == without_prefixes(s, prefix),
        !prefix.is_prefix_of(s) ==> without_prefixes(s, prefix) == s,
{
    assert((prefix + s).skip(prefix.len() as int) =~= s);
    assert(prefix.is_prefix_of(prefix + s));
}

/// What two runs of bytes have in common at their start does not matter to their
/// order; then the smaller byte comes first, and an end before any byte.
pub proof fn law_first_difference_orders(common: Seq<u8>, a: Seq<u8>, b: Seq<u8>)
    ensures
        bytes_precede(common + a, common + b) == bytes_precede(a, b),
        a.len() == 0 ==> (bytes_precede(a, b) <==> b.len() > 0),
        b.len() == 0 ==> !bytes_precede(a, b),
        a.len() > 0 && b.len() > 0 && a[0] < b[0] ==> bytes_precede(a, b),
        a.len() > 0 && b.len() > 0 && a[0] > b[0] ==> !bytes_precede(a, b),
    decreases common.len(),
{
    if common.len() == 0 {
        assert(common + a =~= a);
        assert(common + b =~= b);
    } else {
        law_first_difference_orders(common.drop_first(), a, b);
        assert((common + a).drop_first() =~= common.drop_first() + a);
        assert((common + b).drop_first() =~= common.drop_first() + b);
    }
}

/// The order of texts is that of their bytes.
pub proof fn law_texts_are_ordered_by_bytes(a: Seq<char>, b: Seq<char>)
    ensures
        precedes(a, b) <==> bytes_precede(vstd::utf8::encode_utf8(a), vstd::utf8::encode_utf8(b)),
{
}

} // verus!
