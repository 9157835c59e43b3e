//! What holds of searching, cutting and reading text.

use vstd::prelude::*;
use vstd::utf8::*;

use crate::link;
use crate::outside;
use crate::text;

verus! {

/// Lines keep their number, their order and their characters.
pub proof fn law_texts(lines: Seq<String>, i: int)
    requires
        0 <= i < lines.len(),
    ensures
        text::texts(lines).len() == lines.len(),
        text::texts(lines)[i] == lines[i]@,
{
}

/// The first match is a place where the bytes are those of the pattern, and no
/// such place lies before it; without a match there is no such place.
pub proof fn law_first_match(bytes: Seq<u8>, pattern: Seq<u8>, j: int)
    ensures
        ({
            let n = pattern.len();
            let stands_at_j = 0 <= j && j + n <= bytes.len() && bytes.subrange(j, j + n) == pattern;
            match text::first_match(bytes, pattern) {
                Some(i) => {
                    &&& 0 <= i && i + n <= bytes.len()
                    &&& bytes.subrange(i, i + n) == pattern
                    &&& stands_at_j ==> i <= j
                },
                None => !stands_at_j,
            }
        }),
{
    let n = pattern.len();
    if 0 <= j && j + n <= bytes.len() && bytes.subrange(j, j + n) == pattern {
        assert(text::occurs_at(bytes, pattern, j));
        text::lemma_has_first_match(bytes, pattern, j);
    }
    if text::first_match(bytes, pattern) is Some {
        let i = text::first_match(bytes, pattern)->0;
        assert(text::is_first_match(bytes, pattern, i));
    }
}

proof fn lemma_has_last_match(bytes: Seq<u8>, pattern: Seq<u8>, i: int)
    requires
        text::occurs_at(bytes, pattern, i),
    ensures
        text::last_match(bytes, pattern) matches Some(last) && i <= last && text::is_last_match(
            bytes,
            pattern,
            last,
        ),
    decreases bytes.len() - i,
{
    if exists|j: int| i < j && text::occurs_at(bytes, pattern, j) {
        let j = choose|j: int| i < j && text::occurs_at(bytes, pattern, j);
        lemma_has_last_match(bytes, pattern, j);
    } else {
        assert(text::is_last_match(bytes, pattern, i));
        text::lemma_last_match(bytes, pattern, i);
    }
}

/// The last match is a place where the bytes are those of the pattern, and no such
/// place lies behind it; without a match there is no such place.
pub proof fn law_last_match(bytes: Seq<u8>, pattern: Seq<u8>, j: int)
    ensures
        ({
            let n = pattern.len();
            let stands_at_j = 0 <= j && j + n <= bytes.len() && bytes.subrange(j, j + n) == pattern;
            match text::last_match(bytes, pattern) {
                Some(i) => {
                    &&& 0 <= i && i + n <= bytes.len()
                    &&& bytes.subrange(i, i + n) == pattern
                    &&& stands_at_j ==> j <= i
                },
                None => !stands_at_j,
            }
        }),
{
    let n = pattern.len();
    if 0 <= j && j + n <= bytes.len() && bytes.subrange(j, j + n) == pattern {
        assert(text::occurs_at(bytes, pattern, j));
        lemma_has_last_match(bytes, pattern, j);
    }
    if text::last_match(bytes, pattern) is Some {
        let i = text::last_match(bytes, pattern)->0;
        assert(text::is_last_match(bytes, pattern, i));
    }
}

/// Replacing the middle of a text keeps what stands before it and behind it.
pub proof fn law_splice(before: Seq<char>, middle: Seq<char>, behind: Seq<char>, new: Seq<char>)
    ensures
        text::spliced(
            before + middle + behind,
            encode_utf8(before).len() as int,
            (encode_utf8(before).len() + encode_utf8(middle).len()) as int,
            new,
        ) == before + new + behind,
{
    let bytes = encode_utf8(before + middle + behind);
    let from = encode_utf8(before).len() as int;
    let to = from + encode_utf8(middle).len();
    text::lemma_encode_concat(before + middle, behind);
    text::lemma_encode_concat(before, middle);
    assert(bytes.subrange(0, from) =~= encode_utf8(before));
    assert(bytes.subrange(to, bytes.len() as int) =~= encode_utf8(behind));
    text::lemma_bytes_determine_text(before, encode_utf8(before));
    text::lemma_bytes_determine_text(behind, encode_utf8(behind));
}

/// A centered text fills the width, or stands alone where it is as wide; the
/// columns around it are blank, as many before it as behind it, or one less.
pub proof fn law_centered(title: Seq<char>, width: int, i: int)
    requires
        0 <= width,
        0 <= i < text::centered(title, width).len(),
    ensures
        ({
            let shown = text::centered(title, width);
            let spare = if title.len() < width {
                width - title.len()
            } else {
                0
            };
            let before = spare / 2;
            &&& shown.len() == title.len() + spare
            &&& shown[i] == if before <= i < before + title.len() {
                title[i - before]
            } else {
                ' '
            }
        }),
{
}

/// The name of a page is the lower-case form of the link, character for character,
/// but for the blanks, which become dashes.
pub proof fn law_slug_is_lower_case_with_dashes(link: Seq<char>, i: int)
    requires
        0 <= i < outside::lowercase(link).len(),
    ensures
        link::slug_of(link).len() == outside::lowercase(link).len(),
        outside::lowercase(link)[i] == ' ' ==> link::slug_of(link)[i] == '-',
        outside::lowercase(link)[i] != ' ' ==> link::slug_of(link)[i] == outside::lowercase(link)[i],
{
}

/// Dashes stand for blanks, and for nothing else.
pub proof fn law_dashes_stand_for_blanks(words: Seq<char>, i: int)
    requires
        0 <= i < words.len(),
    ensures
        text::dashes_for_blanks(words).len() == words.len(),
        words[i] == ' ' ==> text::dashes_for_blanks(words)[i] == '-',
        words[i] != ' ' ==> text::dashes_for_blanks(words)[i] == words[i],
{
}

proof fn lemma_pair(bytes: Seq<u8>, j: int)
    ensures
        text::occurs_at(bytes, encode_utf8(link::link_open()), j) <==> 0 <= j && j + 2
            <= bytes.len() && bytes[j] == 0x5b && bytes[j + 1] == 0x5b,
        text::occurs_at(bytes, encode_utf8(link::link_close()), j) <==> 0 <= j && j + 2
            <= bytes.len() && bytes[j] == 0x5d && bytes[j + 1] == 0x5d,
{
    let open = encode_utf8(link::link_open());
    let close = encode_utf8(link::link_close());
    is_ascii_chars_encode_utf8(link::link_open());
    is_ascii_chars_encode_utf8(link::link_close());
    assert(link::link_open()[0] == '[' && link::link_open()[1] == '[');
    assert(link::link_close()[0] == ']' && link::link_close()[1] == ']');
    assert(open =~= seq![0x5b, 0x5b]);
    assert(close =~= seq![0x5d, 0x5d]);
    if 0 <= j && j + 2 <= bytes.len() {
        let part = bytes.subrange(j, j + 2);
        assert(part[0] == bytes[j] && part[1] == bytes[j + 1]);
        if bytes[j] == 0x5b && bytes[j + 1] == 0x5b {
            assert(part =~= open);
        }
        if bytes[j] == 0x5d && bytes[j + 1] == 0x5d {
            assert(part =~= close);
        }
        if part == open {
            assert(open[0] == 0x5b && open[1] == 0x5b);
        }
        if part == close {
            assert(close[0] == 0x5d && close[1] == 0x5d);
        }
    }
}

proof fn lemma_open_at(line: Seq<char>, x: int, start: int)
    requires
        is_char_boundary(encode_utf8(line), x),
        0 <= start,
        start + 2 <= x,
        encode_utf8(line)[start] == 0x5b,
        encode_utf8(line)[start + 1] == 0x5b,
        forall|j: int|
            start < j && j + 2 <= x ==> !(#[trigger] encode_utf8(line)[j] == 0x5b && encode_utf8(
                line,
            )[j + 1] == 0x5b),
    ensures
        link::link_start(line, x) == Some(start),
        x <= encode_utf8(line).len(),
{
    let bytes = encode_utf8(line);
    text::lemma_boundary_in_range(line, x);
    let head = bytes.subrange(0, x);
    let open = encode_utf8(link::link_open());
    lemma_pair(head, start);
    assert forall|j: int| start < j implies !#[trigger] text::occurs_at(head, open, j) by {
        lemma_pair(head, j);
        if j + 2 <= x {
            assert(head[j] == bytes[j] && head[j + 1] == bytes[j + 1]);
        }
    }
    text::lemma_last_match(head, open, start);
}

/// The link at a place of a line starts behind the last two opening brackets
/// before that place, and is read up to the byte whose index is the distance from
/// those brackets to the first two closing brackets behind them.
pub proof fn law_link_lies_between_brackets(line: Seq<char>, x: int, start: int, distance: int)
    requires
        is_char_boundary(encode_utf8(line), x),
        0 <= start,
        start + 2 <= x,
        encode_utf8(line)[start] == 0x5b,
        encode_utf8(line)[start + 1] == 0x5b,
        forall|j: int|
            start < j && j + 2 <= x ==> !(#[trigger] encode_utf8(line)[j] == 0x5b && encode_utf8(
                line,
            )[j + 1] == 0x5b),
        0 <= distance,
        start + distance + 2 <= encode_utf8(line).len(),
        encode_utf8(line)[start + distance] == 0x5d,
        encode_utf8(line)[start + distance + 1] == 0x5d,
        forall|j: int|
            start <= j < start + distance ==> !(#[trigger] encode_utf8(line)[j] == 0x5d
                && encode_utf8(line)[j + 1] == 0x5d),
    ensures
        link::link_at(line, x) == Some(
            decode_utf8(encode_utf8(line).subrange(start + 2, distance)),
        ),
        link::link_readable(line, x) <==> start + 2 <= distance && is_char_boundary(
            encode_utf8(line),
            distance,
        ),
{
    let bytes = encode_utf8(line);
    lemma_open_at(line, x, start);
    let rest = bytes.subrange(start, bytes.len() as int);
    let close = encode_utf8(link::link_close());
    lemma_pair(rest, distance);
    assert(rest[distance] == bytes[start + distance]);
    assert(rest[distance + 1] == bytes[start + distance + 1]);
    assert forall|j: int| j < distance implies !#[trigger] text::occurs_at(rest, close, j) by {
        lemma_pair(rest, j);
        if 0 <= j {
            assert(rest[j] == bytes[start + j] && rest[j + 1] == bytes[start + j + 1]);
        }
    }
    text::lemma_first_match(rest, close, distance);
}

/// Without two opening brackets before a place there is no link there.
pub proof fn law_no_link_without_opening(line: Seq<char>, x: int)
    requires
        is_char_boundary(encode_utf8(line), x),
        forall|j: int|
            0 <= j && j + 2 <= x ==> !(#[trigger] encode_utf8(line)[j] == 0x5b && encode_utf8(
                line,
            )[j + 1] == 0x5b),
    ensures
        link::link_at(line, x) is None,
        link::link_readable(line, x),
{
    let bytes = encode_utf8(line);
    text::lemma_boundary_in_range(line, x);
    let head = bytes.subrange(0, x);
    let open = encode_utf8(link::link_open());
    assert forall|j: int| !#[trigger] text::occurs_at(head, open, j) by {
        lemma_pair(head, j);
        if 0 <= j && j + 2 <= x {
            assert(head[j] == bytes[j] && head[j + 1] == bytes[j + 1]);
        }
    }
}

/// Without two closing brackets behind the opening ones there is no link.
pub proof fn law_no_link_without_closing(line: Seq<char>, x: int, start: int)
    requires
        is_char_boundary(encode_utf8(line), x),
        0 <= start,
        start + 2 <= x,
        encode_utf8(line)[start] == 0x5b,
        encode_utf8(line)[start + 1] == 0x5b,
        forall|j: int|
            start < j && j + 2 <= x ==> !(#[trigger] encode_utf8(line)[j] == 0x5b && encode_utf8(
                line,
            )[j + 1] == 0x5b),
        forall|j: int|
            start <= j && j + 2 <= encode_utf8(line).len() ==> !(#[trigger] encode_utf8(line)[j]
                == 0x5d && encode_utf8(line)[j + 1] == 0x5d),
    ensures
        link::link_at(line, x) is None,
        link::link_readable(line, x),
{
    let bytes = encode_utf8(line);
    lemma_open_at(line, x, start);
    let rest = bytes.subrange(start, bytes.len() as int);
    let close = encode_utf8(link::link_close());
    assert forall|j: int| !#[trigger] text::occurs_at(rest, close, j) by {
        lemma_pair(rest, j);
        if 0 <= j && j + 2 <= rest.len() {
            assert(rest[j] == bytes[start + j] && rest[j + 1] == bytes[start + j + 1]);
        }
    }
}

/// One word stands alone, two have a blank between them.
pub proof fn law_spaced(a: Seq<char>, b: Seq<char>)
    ensures
        outside::spaced(seq![a]) == a,
        outside::spaced(seq![a, b]) == a + seq![' '] + b,
{
    reveal_with_fuel(outside::spaced, 2);
    assert(seq![a, b].drop_last() =~= seq![a]);
    assert(outside::spaced(seq![a, b]) =~= a + seq![' '] + b);
}

} // verus!
