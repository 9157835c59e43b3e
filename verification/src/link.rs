//! Links between double brackets, and the names of the pages they lead to.

use vstd::prelude::*;
use vstd::utf8::*;

use crate::outside;
use crate::text;

verus! {

/// What opens a link.
pub open spec fn link_open() -> Seq<char> {
    seq!['[', '[']
}

/// What closes a link.
pub open spec fn link_close() -> Seq<char> {
    seq![']', ']']
}

/// Where the last link before byte `x` of the line opens.
pub open spec fn link_start(line: Seq<char>, x: int) -> Option<int> {
    text::last_match(encode_utf8(line).subrange(0, x), encode_utf8(link_open()))
}

/// How far behind `start` a link next closes.
pub open spec fn link_end(line: Seq<char>, start: int) -> Option<int> {
    let bytes = encode_utf8(line);
    text::first_match(bytes.subrange(start, bytes.len() as int), encode_utf8(link_close()))
}

/// What is read as the link at byte `x` of the line: the bytes behind the
/// brackets that open it, up to the byte whose index in the line is the distance
/// from those brackets to the ones that close it. For a link at the start of the
/// line that is what stands between the brackets.
pub open spec fn link_at(line: Seq<char>, x: int) -> Option<Seq<char>> {
    match link_start(line, x) {
        Some(start) => match link_end(line, start) {
            Some(end) => Some(decode_utf8(encode_utf8(line).subrange(start + 2, end))),
            None => None,
        },
        None => None,
    }
}

/// `x` lies between two characters of the line, and so does the end of what is
/// read as the link there, which does not lie before its start.
pub open spec fn link_readable(line: Seq<char>, x: int) -> bool {
    &&& is_char_boundary(encode_utf8(line), x)
    &&& link_start(line, x) matches Some(start) ==> link_end(line, start) matches Some(end) ==> {
        &&& start + 2 <= end
        &&& is_char_boundary(encode_utf8(line), end)
    }
}

/// A bracket takes one byte, so a pair of them takes two.
proof fn lemma_brackets()
    ensures
        "[["@ == link_open(),
        "]]"@ == link_close(),
        encode_utf8(link_open()).len() == 2,
        encode_utf8(link_close()).len() == 2,
{
    reveal_strlit("[[");
    reveal_strlit("]]");
    assert("[["@ =~= link_open());
    assert("]]"@ =~= link_close());
    is_ascii_chars_encode_utf8(link_open());
    is_ascii_chars_encode_utf8(link_close());
}

/// What is known of the place where a link opens.
proof fn lemma_link_start(line: Seq<char>, x: int)
    requires
        is_char_boundary(encode_utf8(line), x),
        link_start(line, x) is Some,
    ensures
        0 <= link_start(line, x)->0,
        link_start(line, x)->0 + 2 <= x <= encode_utf8(line).len(),
        is_char_boundary(encode_utf8(line), link_start(line, x)->0),
        is_char_boundary(encode_utf8(line), link_start(line, x)->0 + 2),
{
    let bytes = encode_utf8(line);
    let head = bytes.subrange(0, x);
    let open = encode_utf8(link_open());
    encode_utf8_valid_utf8(line);
    lemma_brackets();
    let start = link_start(line, x)->0;
    assert(text::is_last_match(head, open, start));
    assert(bytes.subrange(start, start + 2) =~= head.subrange(start, start + 2));
    assert(text::occurs_at(bytes, open, start));
    text::lemma_match_boundaries(line, link_open(), start);
}

/// The place where a link opens before byte `x`.
fn find_start(line: &str, x: usize) -> (start: Option<usize>)
    requires
        is_char_boundary(encode_utf8(line@), x as int),
    ensures
        text::as_position(start) == link_start(line@, x as int),
{
    proof {
        lemma_brackets();
    }
    text::rfind(line.split_at(x).0, "[[")
}

/// How far behind byte `start` a link next closes.
fn find_end(line: &str, start: usize) -> (end: Option<usize>)
    requires
        is_char_boundary(encode_utf8(line@), start as int),
    ensures
        text::as_position(end) == link_end(line@, start as int),
{
    proof {
        lemma_brackets();
    }
    text::find(line.split_at(start).1, "]]")
}

/// Tells whether `find_link` can read the line at byte `x`.
pub fn can_find_link(line: &str, x: usize) -> (readable: bool)
    ensures
        readable == link_readable(line@, x as int),
{
    if !line.is_char_boundary(x) {
        return false;
    }
    match find_start(line, x) {
        Some(start) => {
            proof {
                lemma_link_start(line@, x as int);
            }
            match find_end(line, start) {
                Some(end) => start + 2 <= end && line.is_char_boundary(end),
                None => true,
            }
        },
        None => true,
    }
}

/// A text or nothing, as characters.
pub open spec fn as_text(found: Option<String>) -> Option<Seq<char>> {
    match found {
        Some(text) => Some(text@),
        None => None,
    }
}

/// Reads the link at byte `x` of the line.
pub fn find_link(line: &str, x: usize) -> (link: Option<String>)
    requires
        link_readable(line@, x as int),
    ensures
        as_text(link) == link_at(line@, x as int),
{
    match find_start(line, x) {
        Some(start) => {
            proof {
                lemma_link_start(line@, x as int);
            }
            match find_end(line, start) {
                Some(end) => Some(text::slice(line, start + 2, end).to_owned()),
                None => None,
            }
        },
        None => None,
    }
}

/// The name of the page that a link leads to: lower case, dashes for blanks.
pub open spec fn slug_of(link: Seq<char>) -> Seq<char> {
    text::dashes_for_blanks(outside::lowercase(link))
}

/// Turns a link into the name of the page that it leads to.
pub fn slug(link: &str) -> (slug: String)
    ensures
        slug@ == slug_of(link@),
{
    text::dashed(outside::to_lowercase(link).as_str())
}

} // verus!
