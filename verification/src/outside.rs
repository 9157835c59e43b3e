//! What the crate takes from outside and believes without proof.

use vstd::prelude::*;

use crate::text;

verus! {

/// `String::push`: the character goes behind the text.
pub assume_specification[ String::push ](s: &mut String, c: char)
    ensures
        final(s)@ == old(s)@.push(c),
;

/// What `str::to_lowercase` makes of a text.
pub uninterp spec fn lowercase(text: Seq<char>) -> Seq<char>;

/// `str::to_lowercase`: the lower-case form that Unicode gives the text.
/// The result depends on the text alone; which form that is stays unsaid.
#[verifier::external_body]
pub(crate) fn to_lowercase(text: &str) -> (result: String)
    ensures
        result@ == lowercase(text@),
{
    text.to_lowercase()
}

/// How a text stands out on the terminal.
pub enum Emphasis {
    /// Heavier strokes.
    Bold,
    /// Foreground and background exchanged.
    Reverse,
}

/// The digit that selects the emphasis in the terminal's control sequences.
pub open spec fn emphasis_digit(emphasis: Emphasis) -> char {
    match emphasis {
        Emphasis::Bold => '1',
        Emphasis::Reverse => '7',
    }
}

/// `text` between the sequence that switches the emphasis on and the one that
/// switches everything off.
pub open spec fn emphasized(text: Seq<char>, emphasis: Emphasis) -> Seq<char> {
    seq!['\u{1b}', '[', emphasis_digit(emphasis), 'm'] + text + seq!['\u{1b}', '[', '0', 'm']
}

/// `crossterm::style::style`, `StyledContent::attribute` and the `Display` of
/// the result: the text comes out between the code of the attribute and the code
/// that resets it. So it is on every Unix, and on Windows from version 10 on;
/// older Windows consoles, where the codes are left out, are not spoken of.
#[verifier::external_body]
pub(crate) fn emphasize(text: &str, emphasis: Emphasis) -> (result: String)
    ensures
        result@ == emphasized(text@, emphasis),
{
    let attribute = match emphasis {
        Emphasis::Bold => crossterm::style::Attribute::Bold,
        Emphasis::Reverse => crossterm::style::Attribute::Reverse,
    };
    crossterm::style::style(text).attribute(attribute).to_string()
}

/// `std::path::PathBuf`, carried and never looked into.
#[verifier::external_type_specification]
#[verifier::external_body]
pub struct ExPathBuf(std::path::PathBuf);

/// The error of `shell_words::split`.
#[verifier::external_type_specification]
#[verifier::external_body]
pub struct ExSplitError(shell_words::ParseError);

/// The error of `url::Url::parse`.
#[verifier::external_type_specification]
#[verifier::external_body]
pub struct ExUrlError(url::ParseError);

/// What `shell_words::split` makes of a command: its words, or nothing if a
/// quote is not closed.
pub uninterp spec fn words_of(command: Seq<char>) -> Option<Seq<Seq<char>>>;

/// The words as characters, or nothing.
pub open spec fn as_words(
    split: Result<Vec<String>, shell_words::ParseError>,
) -> Option<Seq<Seq<char>>> {
    match split {
        Ok(words) => Some(text::texts(words@)),
        Err(_) => None,
    }
}

/// A character that ends a word or quotes.
pub open spec fn is_special(c: char) -> bool {
    c == ' ' || c == '\t' || c == '\n' || c == '\'' || c == '"' || c == '\\'
}

/// A word that needs no quotes.
pub open spec fn is_plain_word(word: Seq<char>) -> bool {
    &&& 0 < word.len()
    &&& word[0] != '#'
    &&& forall|i: int| 0 <= i < word.len() ==> !is_special(#[trigger] word[i])
}

/// Words with one blank between each two.
pub open spec fn spaced(words: Seq<Seq<char>>) -> Seq<char>
    decreases words.len(),
{
    if words.len() == 0 {
        Seq::empty()
    } else if words.len() == 1 {
        words[0]
    } else {
        spaced(words.drop_last()).push(' ') + words.last()
    }
}

/// `shell_words::split`: the result depends on the command alone, and plain
/// words with one blank between each two come back as they are. How quotes,
/// backslashes and comments are read stays unsaid.
#[verifier::external_body]
pub(crate) fn split(command: &str) -> (parts: Result<Vec<String>, shell_words::ParseError>)
    ensures
        as_words(parts) == words_of(command@),
        forall|words: Seq<Seq<char>>|
            (forall|i: int| 0 <= i < words.len() ==> is_plain_word(#[trigger] words[i]))
                && command@ == #[trigger] spaced(words) ==> as_words(parts) == Some(words),
{
    shell_words::split(command)
}

/// What `url::Url::parse` and `url::Url::host_str` make of an address: nothing if
/// it is not an absolute URL, else its host if it has one.
pub uninterp spec fn host_of(address: Seq<char>) -> Option<Option<Seq<char>>>;

/// The host as characters.
pub open spec fn as_host(
    parsed: Result<Option<String>, url::ParseError>,
) -> Option<Option<Seq<char>>> {
    match parsed {
        Ok(Some(host)) => Some(Some(host@)),
        Ok(None) => Some(None),
        Err(_) => None,
    }
}

/// `url::Url::parse`, and `url::Url::host_str` of what it gives: the result
/// depends on the address alone. Which addresses have which host stays unsaid.
#[verifier::external_body]
pub(crate) fn url_host(address: &str) -> (host: Result<Option<String>, url::ParseError>)
    ensures
        as_host(host) == host_of(address@),
{
    match url::Url::parse(address) {
        Ok(parsed) => Ok(parsed.host_str().map(|host| host.to_owned())),
        Err(error) => Err(error),
    }
}

} // verus!
