//! Offset annotations: `offset = <integer literal>`.

use vstd::prelude::*;
use vstd::string::*;
use crate::schema::{AttrToken, TokenModel};

verus! {

/// The error type of the `syn` parser.
#[verifier::external_type_specification]
#[verifier::external_body]
pub struct ExSynError(syn::Error);

/// The value of the integer literal that `text` is to the `syn` lexer,
/// whatever its base and suffix; `None` where `text` is not a single
/// non-negative integer literal. The value is not bounded by any integer
/// type.
pub uninterp spec fn int_literal_value(text: Seq<char>) -> Option<nat>;

/// Whether `c` is an ASCII letter, an ASCII digit or an underscore.
pub open spec fn is_word_char(c: char) -> bool {
    let code = c as u32;
    ||| 48 <= code <= 57
    ||| 65 <= code <= 90
    ||| 97 <= code <= 122
    ||| code == 95
}

/// Whether `text` is one word that starts with an ASCII digit: the only
/// texts an integer literal token can have.
pub open spec fn is_literal_word(text: Seq<char>) -> bool {
    &&& text.len() > 0
    &&& 48 <= text[0] as u32 <= 57
    &&& forall|i: int| 0 <= i < text.len() ==> is_word_char(#[trigger] text[i])
}

/// Lexes `text` with `syn::parse_str::<syn::LitInt>` and reads the literal
/// with `syn::LitInt::base10_parse::<usize>`. The call succeeds exactly
/// where `text` is an integer literal whose value fits `usize`, and then
/// returns that value. On the words that `requires` admits the lexer reaches
/// none of its panics.
#[verifier::external_body]
fn lex_int_literal(text: &str) -> (r: Result<usize, syn::Error>)
    requires
        is_literal_word(text@),
    ensures
        match r {
            Ok(value) => int_literal_value(text@) == Some(value as nat),
            Err(_) => match int_literal_value(text@) {
                Some(value) => value > usize::MAX,
                None => true,
            },
        },
{
    syn::parse_str::<syn::LitInt>(text)?.base10_parse::<usize>()
}

/// The offset that the argument tokens of an annotation give: the tokens
/// are the identifier `offset`, the sign `=` and one integer literal whose
/// value fits `usize`. Anything else gives none.
pub open spec fn annotated_offset(tokens: Seq<TokenModel>) -> Option<nat> {
    if tokens.len() == 3 && tokens[0] == TokenModel::Ident("offset"@) && tokens[1]
        == TokenModel::Punct('=') {
        match tokens[2] {
            TokenModel::Literal(text) => if is_literal_word(text) {
                match int_literal_value(text) {
                    Some(value) => if value <= usize::MAX {
                        Some(value)
                    } else {
                        None
                    },
                    None => None,
                }
            } else {
                None
            },
            _ => None,
        }
    } else {
        None
    }
}

/// Whether `text` is one word that starts with a digit.
fn check_literal_word(text: &str) -> (r: bool)
    ensures
        r == is_literal_word(text@),
{
    let len = text.unicode_len();
    if len == 0 {
        return false;
    }
    let first = text.get_char(0) as u32;
    if first < 48 || first > 57 {
        return false;
    }
    let mut i: usize = 0;
    while i < len
        invariant
            i <= len,
            len == text@.len(),
            forall|j: int| 0 <= j < i ==> is_word_char(#[trigger] text@[j]),
        decreases len - i,
    {
        let code = text.get_char(i) as u32;
        let word = (48 <= code && code <= 57) || (65 <= code && code <= 90) || (97 <= code && code
            <= 122) || code == 95;
        if !word {
            assert(!is_word_char(text@[i as int]));
            return false;
        }
        i += 1;
    }
    true
}

/// A byte offset given by an annotation.
#[derive(Clone, Copy, Debug, PartialEq, Eq, Structural)]
pub struct Offset(pub usize);

impl Offset {
    /// Reads the argument tokens of an offset annotation.
    pub fn parse(tokens: &Vec<AttrToken>) -> (r: Option<Offset>)
        ensures
            match r {
                Some(offset) => annotated_offset(tokens.deep_view()) == Some(offset.0 as nat),
                None => annotated_offset(tokens.deep_view()) is None,
            },
    {
        let ghost model = tokens.deep_view();
        if tokens.len() != 3 {
            return None;
        }
        assert(model[0] == tokens[0]@ && model[1] == tokens[1]@ && model[2] == tokens[2]@);
        let keyword = match &tokens[0] {
            AttrToken::Ident(text) => *text == "offset".to_owned(),
            _ => false,
        };
        let equals = match &tokens[1] {
            AttrToken::Punct(c) => *c == '=',
            _ => false,
        };
        if !keyword || !equals {
            return None;
        }
        match &tokens[2] {
            AttrToken::Literal(text) => {
                if !check_literal_word(text.as_str()) {
                    return None;
                }
                match lex_int_literal(text.as_str()) {
                    Ok(value) => Some(Offset(value)),
                    Err(_) => None,
                }
            },
            _ => None,
        }
    }
}

} // verus!
