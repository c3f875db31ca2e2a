//! Scanning, trimming and splitting of character and byte sequences.
//!
//! The specifications are stated over `Seq`; the executable functions work on
//! slices and return sub-slices of their argument.

use vstd::prelude::*;
use vstd::slice::{slice_subrange, slice_to_vec};
use vstd::utf8::{decode_utf8, encode_utf8, valid_utf8};

verus! {

/// `String::push` appends one character.
pub assume_specification[ String::push ](s: &mut String, c: char)
    ensures
        final(s)@ == old(s)@.push(c),
;

/// The length of the longest prefix of `s` whose items all satisfy `p`.
pub open spec fn span<A>(s: Seq<A>, p: spec_fn(A) -> bool) -> nat
    decreases s.len(),
{
    if s.len() > 0 && p(s[0]) {
        1 + span(s.skip(1), p)
    } else {
        0
    }
}

/// The length of the longest suffix of `s` whose items all satisfy `p`.
pub open spec fn span_back<A>(s: Seq<A>, p: spec_fn(A) -> bool) -> nat
    decreases s.len(),
{
    if s.len() > 0 && p(s.last()) {
        1 + span_back(s.drop_last(), p)
    } else {
        0
    }
}

/// The predicate "is not `x`".
pub open spec fn other_than<A>(x: A) -> spec_fn(A) -> bool {
    |y: A| y != x
}

/// The predicate "is white space".
pub open spec fn blank() -> spec_fn(char) -> bool {
    |c: char| is_whitespace(c)
}

/// The predicate "is not white space".
pub open spec fn inked() -> spec_fn(char) -> bool {
    |c: char| !is_whitespace(c)
}

/// The characters with the Unicode property `White_Space`.
pub open spec fn is_whitespace(c: char) -> bool {
    ||| '\u{9}' <= c <= '\u{d}'
    ||| c == ' '
    ||| c == '\u{85}'
    ||| c == '\u{a0}'
    ||| c == '\u{1680}'
    ||| '\u{2000}' <= c <= '\u{200a}'
    ||| c == '\u{2028}'
    ||| c == '\u{2029}'
    ||| c == '\u{202f}'
    ||| c == '\u{205f}'
    ||| c == '\u{3000}'
}

/// `span` is the one index up to which `p` holds and at which it fails.
pub proof fn lemma_span_is<A>(s: Seq<A>, p: spec_fn(A) -> bool, i: int)
    requires
        0 <= i <= s.len(),
        forall|j: int| 0 <= j < i ==> p(#[trigger] s[j]),
        i < s.len() ==> !p(s[i]),
    ensures
        span(s, p) == i,
    decreases s.len(),
{
    if i > 0 {
        let t = s.skip(1);
        assert forall|j: int| 0 <= j < i - 1 implies p(#[trigger] t[j]) by {
            assert(t[j] == s[j + 1]);
        }
        lemma_span_is(t, p, i - 1);
    }
}

/// What `span` returns: an index within `s`, with `p` before it and not at it.
pub proof fn lemma_span<A>(s: Seq<A>, p: spec_fn(A) -> bool)
    ensures
        span(s, p) <= s.len(),
        forall|j: int| 0 <= j < span(s, p) ==> p(#[trigger] s[j]),
        span(s, p) < s.len() ==> !p(s[span(s, p) as int]),
    decreases s.len(),
{
    if s.len() > 0 && p(s[0]) {
        let t = s.skip(1);
        lemma_span(t, p);
        assert forall|j: int| 0 <= j < span(s, p) implies p(#[trigger] s[j]) by {
            if j > 0 {
                assert(s[j] == t[j - 1]);
            }
        }
    }
}

/// `span_back` is the one length of a suffix in which `p` holds and before
/// which it fails.
pub proof fn lemma_span_back_is<A>(s: Seq<A>, p: spec_fn(A) -> bool, n: int)
    requires
        0 <= n <= s.len(),
        forall|j: int| s.len() - n <= j < s.len() ==> p(#[trigger] s[j]),
        n < s.len() ==> !p(s[s.len() - n - 1]),
    ensures
        span_back(s, p) == n,
    decreases s.len(),
{
    if n > 0 {
        let t = s.drop_last();
        assert forall|j: int| t.len() - (n - 1) <= j < t.len() implies p(#[trigger] t[j]) by {
            assert(t[j] == s[j]);
        }
        lemma_span_back_is(t, p, n - 1);
    }
}

/// What `span_back` returns: a length within `s`, with `p` in that suffix and
/// not just before it.
pub proof fn lemma_span_back<A>(s: Seq<A>, p: spec_fn(A) -> bool)
    ensures
        span_back(s, p) <= s.len(),
        forall|j: int| s.len() - span_back(s, p) <= j < s.len() ==> p(#[trigger] s[j]),
        span_back(s, p) < s.len() ==> !p(s[s.len() - span_back(s, p) - 1]),
    decreases s.len(),
{
    if s.len() > 0 && p(s.last()) {
        let t = s.drop_last();
        lemma_span_back(t, p);
        assert forall|j: int| s.len() - span_back(s, p) <= j < s.len() implies p(
            #[trigger] s[j],
        ) by {
            if j < s.len() - 1 {
                assert(s[j] == t[j]);
            }
        }
    }
}

/// Tells white space from other characters.
pub fn whitespace(c: char) -> (r: bool)
    ensures
        r == is_whitespace(c),
{
    ('\u{9}' <= c && c <= '\u{d}') || c == ' ' || c == '\u{85}' || c == '\u{a0}' || c
        == '\u{1680}' || ('\u{2000}' <= c && c <= '\u{200a}') || c == '\u{2028}' || c
        == '\u{2029}' || c == '\u{202f}' || c == '\u{205f}' || c == '\u{3000}'
}

/// The index of the first `c` in `s`, or the length of `s` where there is none.
pub fn find(s: &[char], c: char) -> (i: usize)
    ensures
        i == span(s@, other_than(c)),
        i <= s.len(),
{
    let mut i: usize = 0;
    while i < s.len() && s[i] != c
        invariant
            i <= s.len(),
            forall|j: int| 0 <= j < i ==> other_than(c)(#[trigger] s@[j]),
        decreases s.len() - i,
    {
        i += 1;
    }
    proof {
        lemma_span_is(s@, other_than(c), i as int);
    }
    i
}

/// `s` without the white space at its start.
pub open spec fn trim_start(s: Seq<char>) -> Seq<char> {
    s.skip(span(s, blank()) as int)
}

/// `s` without the white space at its end.
pub open spec fn trim_end(s: Seq<char>) -> Seq<char> {
    s.take(s.len() - span_back(s, blank()))
}

/// `s` without the white space at its start and at its end.
pub open spec fn trim(s: Seq<char>) -> Seq<char> {
    trim_end(trim_start(s))
}

/// Removes the white space at both ends of `s`.
pub fn trimmed<'a>(s: &'a [char]) -> (r: &'a [char])
    ensures
        r@ == trim(s@),
{
    let mut a: usize = 0;
    while a < s.len() && whitespace(s[a])
        invariant
            a <= s.len(),
            forall|j: int| 0 <= j < a ==> blank()(#[trigger] s@[j]),
        decreases s.len() - a,
    {
        a += 1;
    }
    let mut b: usize = s.len();
    while b > a && whitespace(s[b - 1])
        invariant
            a <= b <= s.len(),
            forall|j: int| b <= j < s.len() ==> blank()(#[trigger] s@[j]),
        decreases b,
    {
        b -= 1;
    }
    proof {
        lemma_span_is(s@, blank(), a as int);
        let t = s@.skip(a as int);
        assert forall|j: int| t.len() - (s.len() - b) <= j < t.len() implies blank()(
            #[trigger] t[j],
        ) by {
            assert(t[j] == s@[j + a]);
        }
        lemma_span_back_is(t, blank(), s.len() - b);
        assert(t.take(b - a) =~= s@.subrange(a as int, b as int));
    }
    slice_subrange(s, a, b)
}

/// The characters of `s`, one by one.
pub fn chars_of(s: &str) -> (v: Vec<char>)
    ensures
        v@ == s@,
{
    let mut v: Vec<char> = Vec::new();
    for c in it: s.chars()
        invariant
            v@ == it.seq().take(it.index() as int),
            it.seq() == s@,
    {
        v.push(c);
    }
    v
}

/// Appends the characters of `chars` to `s`.
pub fn push_all(s: &mut String, chars: &[char])
    ensures
        final(s)@ == old(s)@ + chars@,
{
    let mut i: usize = 0;
    while i < chars.len()
        invariant
            i <= chars.len(),
            s@ == old(s)@ + chars@.take(i as int),
        decreases chars.len() - i,
    {
        s.push(chars[i]);
        i += 1;
    }
}

/// The string made of the characters of `chars`.
pub fn string_of(chars: &[char]) -> (s: String)
    ensures
        s@ == chars@,
{
    let mut s = String::new();
    push_all(&mut s, chars);
    s
}

/// Whether two slices hold the same characters.
pub fn same(a: &[char], b: &[char]) -> (r: bool)
    ensures
        r == (a@ == b@),
{
    if a.len() != b.len() {
        return false;
    }
    let mut i: usize = 0;
    while i < a.len()
        invariant
            i <= a.len(),
            a.len() == b.len(),
            a@.take(i as int) == b@.take(i as int),
        decreases a.len() - i,
    {
        if a[i] != b[i] {
            return false;
        }
        i += 1;
        assert(a@.take(i as int) == a@.take(i - 1).push(a@[i - 1]));
        assert(b@.take(i as int) == b@.take(i - 1).push(b@[i - 1]));
    }
    assert(a@ == a@.take(i as int));
    assert(b@ == b@.take(i as int));
    true
}

/// Whether `s` spells the word `word`.
pub fn is(s: &[char], word: &str) -> (r: bool)
    ensures
        r == (s@ == word@),
{
    let w = chars_of(word);
    same(s, w.as_slice())
}

/// The two parts of `s` around its first `c`, where it has one.
pub open spec fn split_once(s: Seq<char>, c: char) -> Option<(Seq<char>, Seq<char>)> {
    let i = span(s, other_than(c)) as int;
    if i < s.len() {
        Some((s.take(i), s.skip(i + 1)))
    } else {
        None
    }
}

/// Splits `s` at its first `c`.
pub fn cut<'a>(s: &'a [char], c: char) -> (r: Option<(&'a [char], &'a [char])>)
    ensures
        match r {
            Some((a, b)) => split_once(s@, c) == Some((a@, b@)),
            None => split_once(s@, c) is None,
        },
{
    let i = find(s, c);
    if i < s.len() {
        Some((slice_subrange(s, 0, i), slice_subrange(s, i + 1, s.len())))
    } else {
        None
    }
}

/// The views of the slices in `parts`.
pub open spec fn views(parts: Seq<&[char]>) -> Seq<Seq<char>> {
    Seq::new(parts.len(), |i: int| parts[i]@)
}

/// The non-empty pieces of `path` between its slashes, in order.
pub open spec fn segments(path: Seq<char>) -> Seq<Seq<char>>
    decreases path.len(),
{
    let i = span(path, other_than('/')) as int;
    let head = if i > 0 {
        seq![path.take(i)]
    } else {
        seq![]
    };
    if i < path.len() {
        head + segments(path.skip(i + 1))
    } else {
        head
    }
}

/// The pieces of `parts` in one sequence, with `sep` between neighbours.
pub open spec fn join(parts: Seq<Seq<char>>, sep: Seq<char>) -> Seq<char>
    decreases parts.len(),
{
    if parts.len() == 0 {
        Seq::empty()
    } else if parts.len() == 1 {
        parts[0]
    } else {
        join(parts.drop_last(), sep) + sep + parts.last()
    }
}

/// Splits `path` at its slashes and drops the empty pieces.
pub fn segments_of<'a>(path: &'a [char]) -> (r: Vec<&'a [char]>)
    ensures
        views(r@) == segments(path@),
{
    let mut r: Vec<&'a [char]> = Vec::new();
    let mut pos: usize = 0;
    let mut done = false;
    assert(path@.skip(0) =~= path@);
    assert(views(r@) + segments(path@) =~= segments(path@));
    while !done
        invariant
            pos <= path.len(),
            !done ==> views(r@) + segments(path@.skip(pos as int)) == segments(path@),
            done ==> views(r@) == segments(path@),
        decreases path.len() - pos + (if done { 0int } else { 1int }),
    {
        let rest = slice_subrange(path, pos, path.len());
        let i = find(rest, '/');
        let ghost before = views(r@);
        if i > 0 {
            r.push(slice_subrange(rest, 0, i));
        }
        proof {
            let head = if i > 0 {
                seq![rest@.take(i as int)]
            } else {
                seq![]
            };
            assert(views(r@) =~= before + head);
            assert(rest@ == path@.skip(pos as int));
            if i < rest.len() {
                assert(rest@.skip(i + 1) =~= path@.skip(pos + i + 1));
                assert(before + (head + segments(rest@.skip(i + 1))) =~= (before + head)
                    + segments(rest@.skip(i + 1)));
            }
        }
        if i < rest.len() {
            pos = pos + i + 1;
        } else {
            done = true;
        }
    }
    r
}

/// Appends to `s` the pieces of `parts` from index `from` on, with `sep`
/// between neighbours.
pub fn push_joined(s: &mut String, parts: &Vec<&[char]>, from: usize, sep: &[char])
    requires
        from <= parts.len(),
    ensures
        final(s)@ == old(s)@ + join(views(parts@).skip(from as int), sep@),
{
    let mut k: usize = from;
    while k < parts.len()
        invariant
            from <= k <= parts.len(),
            s@ == old(s)@ + join(views(parts@).subrange(from as int, k as int), sep@),
        decreases parts.len() - k,
    {
        let ghost done = views(parts@).subrange(from as int, k as int);
        let ghost next = views(parts@).subrange(from as int, k + 1);
        if k > from {
            push_all(s, sep);
        }
        push_all(s, parts[k]);
        proof {
            assert(next.drop_last() =~= done);
            assert(next.last() == parts@[k as int]@);
            assert(old(s)@ + (join(done, sep@) + sep@ + next.last()) =~= old(s)@ + join(
                done,
                sep@,
            ) + sep@ + next.last());
            assert(old(s)@ + Seq::<char>::empty() + next.last() =~= old(s)@ + next.last());
        }
        k += 1;
    }
    assert(views(parts@).subrange(from as int, k as int) =~= views(parts@).skip(from as int));
}

/// The number of bytes that `s` takes in UTF-8, as far as a `usize` holds it.
pub open spec fn byte_length(s: Seq<char>) -> usize {
    encode_utf8(s).len() as usize
}

/// The text that `bytes` encode in UTF-8; the empty text where they encode
/// none.
pub open spec fn text_of(bytes: Seq<u8>) -> Seq<char> {
    if valid_utf8(bytes) {
        decode_utf8(bytes)
    } else {
        Seq::empty()
    }
}

/// `String::from_utf8` gives the text that `bytes` encode in UTF-8, and fails
/// exactly where they are no valid UTF-8.
#[verifier::external_body]
fn from_utf8(bytes: Vec<u8>) -> (r: Option<String>)
    ensures
        r is Some <==> valid_utf8(bytes@),
        r matches Some(s) ==> s@ == decode_utf8(bytes@),
{
    match String::from_utf8(bytes) {
        Ok(s) => Some(s),
        Err(_) => None,
    }
}

/// Decodes `bytes` as UTF-8; bytes that are no valid UTF-8 give the empty
/// string.
pub fn decoded(bytes: Vec<u8>) -> (s: String)
    ensures
        s@ == text_of(bytes@),
{
    match from_utf8(bytes) {
        Some(s) => s,
        None => String::new(),
    }
}

/// The words of `s`: its longest runs of characters that are no white space,
/// in order.
pub open spec fn words(s: Seq<char>) -> Seq<Seq<char>>
    decreases s.len(),
{
    let t = trim_start(s);
    let n = span(t, inked()) as int;
    if n == 0 {
        seq![]
    } else {
        proof {
            lemma_span(s, blank());
            lemma_span(t, inked());
        }
        seq![t.take(n)] + words(t.skip(n))
    }
}

/// Splits `s` at white space and drops the empty pieces.
pub fn words_of<'a>(s: &'a [char]) -> (r: Vec<&'a [char]>)
    ensures
        views(r@) == words(s@),
{
    let mut r: Vec<&'a [char]> = Vec::new();
    let mut pos: usize = 0;
    let mut done = false;
    assert(s@.skip(0) =~= s@);
    assert(views(r@) + words(s@) =~= words(s@));
    while !done
        invariant
            pos <= s.len(),
            !done ==> views(r@) + words(s@.skip(pos as int)) == words(s@),
            done ==> views(r@) == words(s@),
        decreases s.len() - pos + (if done { 0int } else { 1int }),
    {
        let ghost rest = s@.skip(pos as int);
        let mut a: usize = pos;
        while a < s.len() && whitespace(s[a])
            invariant
                pos <= a <= s.len(),
                forall|j: int| pos <= j < a ==> blank()(#[trigger] s@[j]),
            decreases s.len() - a,
        {
            a += 1;
        }
        let mut b: usize = a;
        while b < s.len() && !whitespace(s[b])
            invariant
                a <= b <= s.len(),
                forall|j: int| a <= j < b ==> inked()(#[trigger] s@[j]),
            decreases s.len() - b,
        {
            b += 1;
        }
        let ghost before = views(r@);
        proof {
            assert forall|j: int| 0 <= j < a - pos implies blank()(#[trigger] rest[j]) by {
                assert(rest[j] == s@[j + pos]);
            }
            lemma_span_is(rest, blank(), a - pos);
            let t = trim_start(rest);
            assert(t =~= s@.skip(a as int));
            assert forall|j: int| 0 <= j < b - a implies inked()(#[trigger] t[j]) by {
                assert(t[j] == s@[j + a]);
            }
            lemma_span_is(t, inked(), b - a);
            assert(t.take(b - a) =~= s@.subrange(a as int, b as int));
            assert(t.skip(b - a) =~= s@.skip(b as int));
        }
        if b > a {
            r.push(slice_subrange(s, a, b));
            proof {
                let word = s@.subrange(a as int, b as int);
                assert(views(r@) =~= before.push(word));
                assert(before + (seq![word] + words(s@.skip(b as int))) =~= before.push(word)
                    + words(s@.skip(b as int)));
            }
            pos = b;
        } else {
            assert(before + Seq::<Seq<char>>::empty() =~= before);
            done = true;
        }
    }
    r
}

/// Whether `c` occurs in `s`.
pub fn has(s: &[char], c: char) -> (r: bool)
    ensures
        r == s@.contains(c),
{
    let i = find(s, c);
    proof {
        lemma_span(s@, other_than(c));
        if i < s.len() {
            assert(s@[i as int] == c);
        }
    }
    i < s.len()
}

/// The text that `bytes` stand for, one character for each byte.
pub open spec fn latin1(bytes: Seq<u8>) -> Seq<char> {
    bytes.map_values(|b: u8| b as char)
}

/// `line` without the carriage return at its end, where it has one.
pub open spec fn strip_cr(line: Seq<u8>) -> Seq<u8> {
    if line.len() > 0 && line.last() == 13u8 {
        line.drop_last()
    } else {
        line
    }
}

/// The first line of `bytes`: what stands before the first line feed,
/// without a carriage return at its end.
pub open spec fn first_line(bytes: Seq<u8>) -> Seq<u8> {
    strip_cr(bytes.take(span(bytes, other_than(10u8)) as int))
}

/// What follows the first line of `bytes` and its line feed.
pub open spec fn after_line(bytes: Seq<u8>) -> Seq<u8> {
    let i = span(bytes, other_than(10u8)) as int;
    if i < bytes.len() {
        bytes.skip(i + 1)
    } else {
        Seq::empty()
    }
}

/// What follows the first line is shorter than the whole.
pub proof fn lemma_after_line(bytes: Seq<u8>)
    requires
        bytes.len() > 0,
    ensures
        after_line(bytes).len() < bytes.len(),
{
    lemma_span(bytes, other_than(10u8));
}

/// Decodes `bytes` one byte to a character.
pub fn latin1_of(bytes: &[u8]) -> (r: Vec<char>)
    ensures
        r@ == latin1(bytes@),
{
    let mut r: Vec<char> = Vec::new();
    let mut i: usize = 0;
    while i < bytes.len()
        invariant
            i <= bytes.len(),
            r@ == latin1(bytes@.take(i as int)),
        decreases bytes.len() - i,
    {
        r.push(bytes[i] as char);
        i += 1;
        assert(latin1(bytes@.take(i as int)) =~= latin1(bytes@.take(i - 1)).push(
            bytes@[i - 1] as char,
        ));
    }
    assert(bytes@.take(i as int) =~= bytes@);
    r
}

/// Finds the line that starts at `from`: where it ends, and where the next
/// line starts.
pub fn line_at(bytes: &[u8], from: usize) -> (r: (usize, usize))
    requires
        from <= bytes.len(),
    ensures
        from <= r.0 <= r.1 <= bytes.len(),
        from < bytes.len() ==> from < r.1,
        bytes@.subrange(from as int, r.0 as int) == first_line(bytes@.skip(from as int)),
        bytes@.skip(r.1 as int) == after_line(bytes@.skip(from as int)),
{
    let ghost rest = bytes@.skip(from as int);
    let mut i: usize = from;
    while i < bytes.len() && bytes[i] != 10u8
        invariant
            from <= i <= bytes.len(),
            forall|j: int| from <= j < i ==> other_than(10u8)(#[trigger] bytes@[j]),
        decreases bytes.len() - i,
    {
        i += 1;
    }
    proof {
        assert forall|j: int| 0 <= j < i - from implies other_than(10u8)(#[trigger] rest[j]) by {
            assert(rest[j] == bytes@[j + from]);
        }
        lemma_span_is(rest, other_than(10u8), i - from);
        assert(rest.take(i - from) =~= bytes@.subrange(from as int, i as int));
    }
    let end = if i > from && bytes[i - 1] == 13u8 {
        i - 1
    } else {
        i
    };
    let next = if i < bytes.len() {
        i + 1
    } else {
        i
    };
    proof {
        let line = bytes@.subrange(from as int, i as int);
        if i > from && bytes@[i - 1] == 13u8 {
            assert(line.last() == 13u8);
            assert(line.drop_last() =~= bytes@.subrange(from as int, end as int));
        }
        if i < bytes.len() {
            assert(rest.skip(i - from + 1) =~= bytes@.skip(next as int));
        } else {
            assert(bytes@.skip(next as int) =~= Seq::<u8>::empty());
        }
    }
    (end, next)
}

/// The bytes of `bytes` from `from` up to `to`, in a vector of their own.
pub fn copy_of(bytes: &[u8], from: usize, to: usize) -> (r: Vec<u8>)
    requires
        from <= to <= bytes.len(),
    ensures
        r@ == bytes@.subrange(from as int, to as int),
{
    slice_to_vec(slice_subrange(bytes, from, to))
}

/// A text that neither starts nor ends with white space.
pub open spec fn tidy(s: Seq<char>) -> bool {
    s.len() > 0 ==> !is_whitespace(s[0]) && !is_whitespace(s.last())
}

/// `trim` keeps what stands between the white space at the two ends.
pub proof fn lemma_trim_is(s: Seq<char>, a: int, b: int)
    requires
        0 <= a <= b <= s.len(),
        forall|j: int| 0 <= j < a ==> is_whitespace(#[trigger] s[j]),
        forall|j: int| b <= j < s.len() ==> is_whitespace(#[trigger] s[j]),
        a < b ==> !is_whitespace(s[a]) && !is_whitespace(s[b - 1]),
    ensures
        trim(s) == s.subrange(a, b),
{
    if a < b {
        lemma_span_is(s, blank(), a);
        let t = s.skip(a);
        assert forall|j: int| t.len() - (s.len() - b) <= j < t.len() implies blank()(
            #[trigger] t[j],
        ) by {
            assert(t[j] == s[j + a]);
        }
        assert(t[b - a - 1] == s[b - 1]);
        lemma_span_back_is(t, blank(), s.len() - b);
        assert(t.take(b - a) =~= s.subrange(a, b));
    } else {
        assert forall|j: int| 0 <= j < s.len() implies blank()(#[trigger] s[j]) by {
            if j < a {
                assert(is_whitespace(s[j]));
            } else {
                assert(is_whitespace(s[j]));
            }
        }
        lemma_span_is(s, blank(), s.len() as int);
        let t = s.skip(s.len() as int);
        assert(t.take(t.len() - span_back(t, blank())) =~= s.subrange(a, b));
    }
}

/// Where `trim` cuts: the bounds of what it keeps.
pub proof fn lemma_trim(s: Seq<char>) -> (r: (int, int))
    ensures
        0 <= r.0 <= r.1 <= s.len(),
        forall|j: int| 0 <= j < r.0 ==> is_whitespace(#[trigger] s[j]),
        forall|j: int| r.1 <= j < s.len() ==> is_whitespace(#[trigger] s[j]),
        r.0 < r.1 ==> !is_whitespace(s[r.0]) && !is_whitespace(s[r.1 - 1]),
        trim(s) == s.subrange(r.0, r.1),
        tidy(trim(s)),
{
    let a = span(s, blank()) as int;
    lemma_span(s, blank());
    let t = s.skip(a);
    let n = span_back(t, blank()) as int;
    lemma_span_back(t, blank());
    let b = s.len() - n;
    assert forall|j: int| 0 <= j < a implies is_whitespace(#[trigger] s[j]) by {
        assert(blank()(s[j]));
    }
    if a < s.len() {
        assert(!blank()(s[a]));
        assert(t[0] == s[a]);
        if n == t.len() {
            assert(blank()(t[0]));
        }
        assert(t[t.len() - n - 1] == s[b - 1]);
        assert forall|j: int| b <= j < s.len() implies is_whitespace(#[trigger] s[j]) by {
            assert(t[j - a] == s[j]);
            assert(blank()(t[j - a]));
        }
        assert(t.take(t.len() - n) =~= s.subrange(a, b));
        assert(s.subrange(a, b)[0] == s[a]);
        assert(s.subrange(a, b).last() == s[b - 1]);
        (a, b)
    } else {
        assert(t.take(t.len() - n) =~= s.subrange(a, a));
        (a, a)
    }
}

/// A tidy text is its own trimming.
pub proof fn lemma_trim_tidy(s: Seq<char>)
    ensures
        tidy(s) <==> trim(s) == s,
{
    let (a, b) = lemma_trim(s);
    if tidy(s) {
        lemma_trim_is(s, 0, s.len() as int);
        assert(s.subrange(0, s.len() as int) =~= s);
    }
}

/// White space around a text does not change its trimming.
pub proof fn lemma_trim_pads(before: Seq<char>, s: Seq<char>, after: Seq<char>)
    requires
        forall|j: int| 0 <= j < before.len() ==> is_whitespace(#[trigger] before[j]),
        forall|j: int| 0 <= j < after.len() ==> is_whitespace(#[trigger] after[j]),
    ensures
        trim(before + s + after) == trim(s),
{
    let (a, b) = lemma_trim(s);
    let whole = before + s + after;
    let n = before.len() as int;
    assert forall|j: int| 0 <= j < n + a implies is_whitespace(#[trigger] whole[j]) by {
        if j < n {
            assert(whole[j] == before[j]);
        } else {
            assert(whole[j] == s[j - n]);
        }
    }
    assert forall|j: int| n + b <= j < whole.len() implies is_whitespace(#[trigger] whole[j]) by {
        if j < n + s.len() {
            assert(whole[j] == s[j - n]);
        } else {
            assert(whole[j] == after[j - n - s.len()]);
        }
    }
    if a < b {
        assert(whole[n + a] == s[a]);
        assert(whole[n + b - 1] == s[b - 1]);
    }
    lemma_trim_is(whole, n + a, n + b);
    assert(whole.subrange(n + a, n + b) =~= s.subrange(a, b));
}

/// `split_once` cuts at the first `c`, and only there.
pub proof fn lemma_split_once_is(s: Seq<char>, c: char, i: int)
    requires
        0 <= i < s.len(),
        s[i] == c,
        forall|j: int| 0 <= j < i ==> #[trigger] s[j] != c,
    ensures
        split_once(s, c) == Some((s.take(i), s.skip(i + 1))),
{
    assert forall|j: int| 0 <= j < i implies other_than(c)(#[trigger] s[j]) by {
        assert(s[j] != c);
    }
    lemma_span_is(s, other_than(c), i);
}

/// `split_once` finds nothing exactly where there is no `c`.
pub proof fn lemma_split_once_none(s: Seq<char>, c: char)
    ensures
        split_once(s, c) is None <==> !s.contains(c),
{
    lemma_span(s, other_than(c));
    let i = span(s, other_than(c)) as int;
    if i < s.len() {
        assert(s[i] == c);
    } else {
        if s.contains(c) {
            let j = choose|j: int| 0 <= j < s.len() && s[j] == c;
            assert(other_than(c)(s[j]));
        }
    }
}

/// The end of a line on the wire: carriage return and line feed.
pub open spec fn crlf() -> Seq<u8> {
    seq![13u8, 10u8]
}

/// A line that can be framed: it holds no line feed and does not end with a
/// carriage return.
pub open spec fn is_line(line: Seq<u8>) -> bool {
    &&& forall|i: int| 0 <= i < line.len() ==> #[trigger] line[i] != 10u8
    &&& line.len() > 0 ==> line.last() != 13u8
}

/// A line, the end of a line, and more: the first line is the line, and
/// what follows it is the rest.
pub proof fn lemma_line_then(line: Seq<u8>, rest: Seq<u8>)
    requires
        is_line(line),
    ensures
        first_line(line + crlf() + rest) == line,
        after_line(line + crlf() + rest) == rest,
{
    let whole = line + crlf() + rest;
    let n = line.len() as int;
    assert forall|j: int| 0 <= j < n + 1 implies other_than(10u8)(#[trigger] whole[j]) by {
        if j < n {
            assert(whole[j] == line[j]);
        } else {
            assert(whole[j] == crlf()[0]);
        }
    }
    assert(whole[n + 1] == crlf()[1]);
    lemma_span_is(whole, other_than(10u8), n + 1);
    let cut = whole.take(n + 1);
    assert(cut.last() == 13u8);
    assert(cut.drop_last() =~= line);
    assert(whole.skip(n + 2) =~= rest);
}

} // verus!
