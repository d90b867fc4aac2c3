use vstd::prelude::*;

verus! {

/// One classified unit of an input string, consumed in order by the
/// compositor: the token sequence is the unit of work of one render call,
/// and its order is render order, left to right.
pub enum RenderToken {
    /// A run of plain text, painted as glyphs.
    Text(String),
    /// A standard pictograph, carried as the raw bytes of an image bundled
    /// with the tokenizer.
    StandardPictograph(Vec<u8>),
    /// A custom pictograph, referenced by the URL its bytes are fetched
    /// from.
    CustomPictograph(String),
}

/// What the external tokenizer returns for a string.  The tokenization is
/// a function of the text alone: a fixed pattern picks out custom
/// pictograph references, and every other character is looked up in the
/// pictograph assets compiled into the tokenizer.
pub uninterp spec fn tokens_of(text: Seq<char>) -> Seq<RenderToken>;

/// Relies on rustwemoji_parser::parse and rustwemoji_parser::Token:
/// `parse` splits a string into text and pictograph tokens, preserving
/// left-to-right reading order, deterministically (compiled-in assets and
/// a constant pattern); each variant of the tokenizer's token then moves,
/// fields unchanged, into the corresponding variant of this crate's own
/// token type.
#[verifier::external_body]
pub fn tokenize(text: String) -> (r: Vec<RenderToken>)
    ensures
        r@ == tokens_of(text@),
{
    rustwemoji_parser::parse(text)
        .into_iter()
        .map(|token| match token {
            rustwemoji_parser::Token::Text(s) => RenderToken::Text(s),
            rustwemoji_parser::Token::Emoji(bytes) => RenderToken::StandardPictograph(bytes),
            rustwemoji_parser::Token::CustomEmoji(url) => RenderToken::CustomPictograph(url),
        })
        .collect()
}

} // verus!
