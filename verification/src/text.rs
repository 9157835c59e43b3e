//! Text as the panes see it: byte positions inside UTF-8 lines.

use vstd::prelude::*;
use vstd::utf8::*;

verus! {

/// Lines as characters.
pub open spec fn texts(lines: Seq<String>) -> Seq<Seq<char>> {
    lines.map_values(|line: String| line@)
}

/// `pattern` stands in `bytes` at byte `i`.
pub open spec fn occurs_at(bytes: Seq<u8>, pattern: Seq<u8>, i: int) -> bool {
    &&& 0 <= i <= bytes.len() - pattern.len()
    &&& bytes.subrange(i, i + pattern.len()) == pattern
}

/// `i` is the leftmost place at which `pattern` stands in `bytes`.
pub open spec fn is_first_match(bytes: Seq<u8>, pattern: Seq<u8>, i: int) -> bool {
    &&& occurs_at(bytes, pattern, i)
    &&& forall|j: int| j < i ==> !#[trigger] occurs_at(bytes, pattern, j)
}

/// `i` is the rightmost place at which `pattern` stands in `bytes`.
pub open spec fn is_last_match(bytes: Seq<u8>, pattern: Seq<u8>, i: int) -> bool {
    &&& occurs_at(bytes, pattern, i)
    &&& forall|j: int| i < j ==> !#[trigger] occurs_at(bytes, pattern, j)
}

/// The leftmost place of `pattern` in `bytes`, if it occurs at all.
pub open spec fn first_match(bytes: Seq<u8>, pattern: Seq<u8>) -> Option<int> {
    if exists|i: int| is_first_match(bytes, pattern, i) {
        Some(choose|i: int| is_first_match(bytes, pattern, i))
    } else {
        None
    }
}

/// The rightmost place of `pattern` in `bytes`, if it occurs at all.
pub open spec fn last_match(bytes: Seq<u8>, pattern: Seq<u8>) -> Option<int> {
    if exists|i: int| is_last_match(bytes, pattern, i) {
        Some(choose|i: int| is_last_match(bytes, pattern, i))
    } else {
        None
    }
}

/// A machine index read as a mathematical one.
pub open spec fn as_position(found: Option<usize>) -> Option<int> {
    match found {
        Some(i) => Some(i as int),
        None => None,
    }
}

/// There is only one leftmost place.
pub proof fn lemma_first_match(bytes: Seq<u8>, pattern: Seq<u8>, i: int)
    requires
        is_first_match(bytes, pattern, i),
    ensures
        first_match(bytes, pattern) == Some(i),
{
    let k = choose|k: int| is_first_match(bytes, pattern, k);
    assert(occurs_at(bytes, pattern, k));
    assert(occurs_at(bytes, pattern, i));
}

/// Where a pattern occurs at all, there is a leftmost place.
pub proof fn lemma_has_first_match(bytes: Seq<u8>, pattern: Seq<u8>, i: int)
    requires
        occurs_at(bytes, pattern, i),
    ensures
        first_match(bytes, pattern) matches Some(first) && first <= i && is_first_match(
            bytes,
            pattern,
            first,
        ),
    decreases i,
{
    if exists|j: int| j < i && occurs_at(bytes, pattern, j) {
        let j = choose|j: int| j < i && occurs_at(bytes, pattern, j);
        lemma_has_first_match(bytes, pattern, j);
    } else {
        assert(is_first_match(bytes, pattern, i));
        lemma_first_match(bytes, pattern, i);
    }
}

/// There is only one rightmost place.
pub proof fn lemma_last_match(bytes: Seq<u8>, pattern: Seq<u8>, i: int)
    requires
        is_last_match(bytes, pattern, i),
    ensures
        last_match(bytes, pattern) == Some(i),
{
    let k = choose|k: int| is_last_match(bytes, pattern, k);
    assert(occurs_at(bytes, pattern, k));
    assert(occurs_at(bytes, pattern, i));
}

/// `pattern` stands in `bytes` at byte `i`, tested byte by byte.
fn matches_at(bytes: &[u8], pattern: &[u8], i: usize) -> (found: bool)
    requires
        i + pattern@.len() <= bytes@.len(),
    ensures
        found == occurs_at(bytes@, pattern@, i as int),
{
    let n = pattern.len();
    let total = bytes.len();
    let mut k: usize = 0;
    while k < n
        invariant
            n == pattern@.len(),
            total == bytes@.len(),
            k <= n,
            i + n <= total,
            forall|j: int| 0 <= j < k ==> bytes@[i + j] == pattern@[j],
        decreases n - k,
    {
        if bytes[i + k] != pattern[k] {
            proof {
                if occurs_at(bytes@, pattern@, i as int) {
                    assert(bytes@.subrange(i as int, i + pattern@.len())[k as int] == pattern@[k as int]);
                }
            }
            return false;
        }
        k += 1;
    }
    assert(bytes@.subrange(i as int, i + pattern@.len()) =~= pattern@);
    true
}

/// Tells whether two texts are the same.
pub fn same(a: &str, b: &str) -> (equal: bool)
    ensures
        equal == (a@ == b@),
{
    let left = a.as_bytes();
    let right = b.as_bytes();
    proof {
        encode_utf8_decode_utf8(a@);
        encode_utf8_decode_utf8(b@);
        assert(left@.subrange(0, left@.len() as int) =~= left@);
    }
    left.len() == right.len() && matches_at(left, right, 0)
}

/// The byte index at which `pattern` first stands in `text`.
pub fn find(text: &str, pattern: &str) -> (found: Option<usize>)
    ensures
        as_position(found) == first_match(encode_utf8(text@), encode_utf8(pattern@)),
{
    let bytes = text.as_bytes();
    let wanted = pattern.as_bytes();
    if wanted.len() > bytes.len() {
        return None;
    }
    let last = bytes.len() - wanted.len();
    let mut i: usize = 0;
    loop
        invariant
            bytes@ == encode_utf8(text@),
            wanted@ == encode_utf8(pattern@),
            i <= last,
            last == bytes@.len() - wanted@.len(),
            forall|j: int| j < i ==> !#[trigger] occurs_at(bytes@, wanted@, j),
        decreases last - i,
    {
        if matches_at(bytes, wanted, i) {
            proof {
                lemma_first_match(bytes@, wanted@, i as int);
            }
            return Some(i);
        }
        if i == last {
            assert(forall|j: int| !#[trigger] occurs_at(bytes@, wanted@, j));
            return None;
        }
        i += 1;
    }
}

/// The byte index at which `pattern` last stands in `text`.
pub fn rfind(text: &str, pattern: &str) -> (found: Option<usize>)
    ensures
        as_position(found) == last_match(encode_utf8(text@), encode_utf8(pattern@)),
{
    let bytes = text.as_bytes();
    let wanted = pattern.as_bytes();
    if wanted.len() > bytes.len() {
        return None;
    }
    let last = bytes.len() - wanted.len();
    let mut i: usize = last;
    loop
        invariant
            bytes@ == encode_utf8(text@),
            wanted@ == encode_utf8(pattern@),
            i <= last,
            last == bytes@.len() - wanted@.len(),
            forall|j: int| i < j ==> !#[trigger] occurs_at(bytes@, wanted@, j),
        decreases i,
    {
        if matches_at(bytes, wanted, i) {
            proof {
                lemma_last_match(bytes@, wanted@, i as int);
            }
            return Some(i);
        }
        if i == 0 {
            assert(forall|j: int| !#[trigger] occurs_at(bytes@, wanted@, j));
            return None;
        }
        i -= 1;
    }
}

/// The bytes of a text decode to that text, and so determine it.
pub proof fn lemma_bytes_determine_text(text: Seq<char>, bytes: Seq<u8>)
    requires
        encode_utf8(text) == bytes,
    ensures
        text == decode_utf8(bytes),
{
    encode_utf8_decode_utf8(text);
}

/// A place between two characters is such a place also in the part of the text
/// that starts at an earlier one.
proof fn lemma_boundary_in_rest(bytes: Seq<u8>, from: int, to: int)
    requires
        valid_utf8(bytes),
        is_char_boundary(bytes, from),
        is_char_boundary(bytes, to),
        from <= to,
    ensures
        0 <= from <= to <= bytes.len(),
        is_char_boundary(bytes.subrange(from, bytes.len() as int), to - from),
{
    let rest = bytes.subrange(from, bytes.len() as int);
    valid_utf8_split(bytes, from);
    is_char_boundary_start_end_of_seq(rest);
    if from < to && to < bytes.len() {
        is_char_boundary_iff_not_is_continuation_byte(bytes, to);
        is_char_boundary_iff_not_is_continuation_byte(rest, to - from);
        assert(rest[to - from] == bytes[to]);
    }
}

/// A place between two characters lies in the text.
pub proof fn lemma_boundary_in_range(text: Seq<char>, i: int)
    requires
        is_char_boundary(encode_utf8(text), i),
    ensures
        0 <= i <= encode_utf8(text).len(),
{
    encode_utf8_valid_utf8(text);
}

/// A non-empty pattern starts and ends between two characters wherever it stands.
pub proof fn lemma_match_boundaries(text: Seq<char>, pattern: Seq<char>, i: int)
    requires
        occurs_at(encode_utf8(text), encode_utf8(pattern), i),
        pattern.len() > 0,
    ensures
        is_char_boundary(encode_utf8(text), i),
        is_char_boundary(encode_utf8(text), i + encode_utf8(pattern).len()),
{
    let b = encode_utf8(text);
    let p = encode_utf8(pattern);
    encode_utf8_valid_utf8(text);
    encode_utf8_valid_utf8(pattern);
    encode_utf8_first_scalar(pattern);
    assert(p.len() > 0);
    is_char_boundary_start_end_of_seq(p);
    is_char_boundary_iff_not_is_continuation_byte(p, 0);
    assert(b.subrange(i, i + p.len())[0] == p[0]);
    is_char_boundary_iff_not_is_continuation_byte(b, i);
    let e = i + p.len();
    is_char_boundary_start_end_of_seq(b);
    if e < b.len() {
        valid_utf8_split(b, i);
        let tail = b.subrange(i, b.len() as int);
        assert(tail.subrange(0, p.len() as int) =~= p);
        let rest = tail.subrange(p.len() as int, tail.len() as int);
        if !valid_utf8(rest) {
            partial_valid_partial_invalid_utf8(tail, p.len() as int);
        }
        is_char_boundary_start_end_of_seq(rest);
        is_char_boundary_iff_not_is_continuation_byte(rest, 0);
        assert(rest[0] == b[e]);
        is_char_boundary_iff_not_is_continuation_byte(b, e);
    }
}

/// A pattern ends between two characters where it first stands, also if it is empty.
pub proof fn lemma_first_match_end(text: Seq<char>, pattern: Seq<char>, from: int)
    requires
        is_char_boundary(encode_utf8(text), from),
        first_match(
            encode_utf8(text).subrange(from, encode_utf8(text).len() as int),
            encode_utf8(pattern),
        ) is Some,
    ensures
        ({
            let bytes = encode_utf8(text);
            let wanted = encode_utf8(pattern);
            let distance = first_match(bytes.subrange(from, bytes.len() as int), wanted)->0;
            &&& 0 <= distance
            &&& occurs_at(bytes, wanted, from + distance)
            &&& is_char_boundary(bytes, from + distance)
            &&& is_char_boundary(bytes, from + distance + wanted.len())
        }),
{
    let bytes = encode_utf8(text);
    let wanted = encode_utf8(pattern);
    encode_utf8_valid_utf8(text);
    lemma_boundary_in_rest(bytes, from, from);
    let rest = bytes.subrange(from, bytes.len() as int);
    let distance = first_match(rest, wanted)->0;
    assert(is_first_match(rest, wanted, distance));
    assert(bytes.subrange(from + distance, from + distance + wanted.len()) =~= rest.subrange(
        distance,
        distance + wanted.len(),
    ));
    if pattern.len() > 0 {
        lemma_match_boundaries(text, pattern, from + distance);
    } else {
        assert(rest.subrange(0, 0) =~= wanted);
        assert(occurs_at(rest, wanted, 0));
    }
}

/// The byte behind a stretch as long as `pattern` that starts at `index`.
pub fn behind(text: &str, index: usize, pattern: &str) -> (end: usize)
    requires
        is_char_boundary(encode_utf8(text@), index + encode_utf8(pattern@).len()),
    ensures
        end == index + encode_utf8(pattern@).len(),
        end <= encode_utf8(text@).len() <= usize::MAX,
{
    let bytes = text.as_bytes();
    proof {
        lemma_boundary_in_range(text@, index + encode_utf8(pattern@).len());
        assert(bytes@.len() == bytes.len());
    }
    index + pattern.as_bytes().len()
}

/// The bytes of two texts put together are the bytes of the one, then of the other.
pub proof fn lemma_encode_concat(a: Seq<char>, b: Seq<char>)
    ensures
        encode_utf8(a + b) == encode_utf8(a) + encode_utf8(b),
    decreases a.len(),
{
    if a.len() == 0 {
        assert(a + b =~= b);
        assert(encode_utf8(a) + encode_utf8(b) =~= encode_utf8(b));
    } else {
        lemma_encode_concat(a.drop_first(), b);
        assert((a + b).drop_first() =~= a.drop_first() + b);
        assert(encode_utf8(a + b) =~= encode_utf8(a) + encode_utf8(b));
    }
}

/// The bytes of a character hold no one-byte character but itself.
proof fn lemma_absent_byte_in_char(start: char, c: char, i: int)
    requires
        c <= '\u{7f}',
        start != c,
        0 <= i < encode_utf8(seq![start]).len(),
    ensures
        encode_utf8(seq![start])[i] != c as u8,
{
    let first = seq![start];
    let head = encode_utf8(first);
    encode_utf8_first_scalar(first);
    assert(first.drop_first().len() == 0);
    reveal_with_fuel(encode_utf8, 2);
    assert(head =~= encode_scalar(start as u32));
    if start <= '\u{7f}' {
        is_ascii_chars_encode_utf8(first);
        assert(first[0] as u8 == head[0]);
    }
}

/// A one-byte character that is not in a text is not among its bytes either.
pub proof fn lemma_absent_byte(text: Seq<char>, c: char, i: int)
    requires
        c <= '\u{7f}',
        forall|k: int| 0 <= k < text.len() ==> #[trigger] text[k] != c,
        0 <= i < encode_utf8(text).len(),
    ensures
        encode_utf8(text)[i] != c as u8,
    decreases text.len(),
{
    let first = seq![text[0]];
    let rest = text.drop_first();
    lemma_encode_concat(first, rest);
    assert(first + rest =~= text);
    let head = encode_utf8(first);
    if i < head.len() {
        lemma_absent_byte_in_char(text[0], c, i);
    } else {
        lemma_absent_byte(rest, c, i - head.len());
    }
}

/// The part of `text` from byte `from` up to byte `to`.
pub fn slice<'a>(text: &'a str, from: usize, to: usize) -> (part: &'a str)
    requires
        from <= to,
        is_char_boundary(encode_utf8(text@), from as int),
        is_char_boundary(encode_utf8(text@), to as int),
    ensures
        encode_utf8(part@) == encode_utf8(text@).subrange(from as int, to as int),
        part@ == decode_utf8(encode_utf8(text@).subrange(from as int, to as int)),
{
    proof {
        encode_utf8_valid_utf8(text@);
        lemma_boundary_in_rest(encode_utf8(text@), from as int, to as int);
    }
    let rest = text.split_at(from).1;
    let part = rest.split_at(to - from).0;
    proof {
        assert(encode_utf8(part@) =~= encode_utf8(text@).subrange(from as int, to as int));
        lemma_bytes_determine_text(part@, encode_utf8(part@));
    }
    part
}

/// `text` with the bytes from `from` up to `to` replaced by `middle`.
pub open spec fn spliced(text: Seq<char>, from: int, to: int, middle: Seq<char>) -> Seq<char> {
    let bytes = encode_utf8(text);
    decode_utf8(bytes.subrange(0, from)) + middle + decode_utf8(
        bytes.subrange(to, bytes.len() as int),
    )
}

/// Replaces the bytes from `from` up to `to` by `middle`.
pub fn splice(text: &str, from: usize, to: usize, middle: &str) -> (result: String)
    requires
        from <= to,
        is_char_boundary(encode_utf8(text@), from as int),
        is_char_boundary(encode_utf8(text@), to as int),
    ensures
        result@ == spliced(text@, from as int, to as int, middle@),
{
    let head = text.split_at(from).0;
    let tail = text.split_at(to).1;
    proof {
        lemma_bytes_determine_text(head@, encode_utf8(head@));
        lemma_bytes_determine_text(tail@, encode_utf8(tail@));
    }
    let mut result = head.to_owned();
    result.append(middle);
    result.append(tail);
    result
}

/// `n` blanks.
pub open spec fn blanks(n: int) -> Seq<char> {
    Seq::new(n as nat, |i: int| ' ')
}

/// `text` in the middle of `width` columns; an odd blank goes to the right.
pub open spec fn centered(text: Seq<char>, width: int) -> Seq<char> {
    let spare = if text.len() < width {
        width - text.len()
    } else {
        0
    };
    blanks(spare / 2) + text + blanks(spare - spare / 2)
}

/// Appends `n` blanks.
fn pad(text: &mut String, n: usize)
    ensures
        final(text)@ == old(text)@ + blanks(n as int),
{
    let ghost start = text@;
    let mut k: usize = 0;
    assert(text@ =~= start + blanks(0));
    proof {
        reveal_strlit(" ");
    }
    while k < n
        invariant
            k <= n,
            text@ == start + blanks(k as int),
            " "@ =~= seq![' '],
        decreases n - k,
    {
        text.append(" ");
        k += 1;
        assert(text@ =~= start + blanks(k as int));
    }
}

/// Puts `text` in the middle of `width` columns, one column to a character.
pub fn center(text: &str, width: usize) -> (result: String)
    ensures
        result@ == centered(text@, width as int),
{
    let length = text.unicode_len();
    let spare: usize = if length < width {
        width - length
    } else {
        0
    };
    let mut result = String::new();
    pad(&mut result, spare / 2);
    result.append(text);
    pad(&mut result, spare - spare / 2);
    assert(result@ =~= centered(text@, width as int));
    result
}

/// `text` with a dash for each blank.
pub open spec fn dashes_for_blanks(text: Seq<char>) -> Seq<char> {
    text.map_values(
        |c: char|
            if c == ' ' {
                '-'
            } else {
                c
            },
    )
}

/// Puts a dash for each blank.
pub fn dashed(text: &str) -> (result: String)
    ensures
        result@ == dashes_for_blanks(text@),
{
    let mut result = String::new();
    for c in it: text.chars()
        invariant
            it.seq() == text@,
            result@ == dashes_for_blanks(text@.take(it.index())),
    {
        if c == ' ' {
            result.push('-');
        } else {
            result.push(c);
        }
        assert(result@ =~= dashes_for_blanks(text@.take(it.index() + 1)));
    }
    assert(text@.take(text@.len() as int) =~= text@);
    result
}

} // verus!
