use vstd::prelude::*;

use crate::literal::{check_float_literal, int_literal, is_float_literal, parse_i64, text_is};
use crate::magic::MagicType;

verus! {

/// The fixed words of the definition language.
#[derive(Clone, Copy, Debug, PartialEq, Eq, Structural)]
pub enum Keyword {
    Register,
    Rank,
    Type,
    AlwaysDef,
    TableAddon,
    RaceMult,
    BlockStart,
    BlockEnd,
}

/// A literal value. A floating-point literal keeps its text.
#[derive(Debug, PartialEq)]
pub enum Literal {
    Bool(bool),
    Int(i64),
    Float(String),
    Custom(MagicType),
}

/// One classified word of a definition file.
#[derive(Debug, PartialEq)]
pub enum Token {
    Keyword(Keyword),
    Value(Literal),
    Name(String),
}

/// A literal with its text as a character sequence.
pub enum LiteralView {
    Bool(bool),
    Int(int),
    Float(Seq<char>),
    Custom(MagicType),
}

/// A token with its text as a character sequence.
pub enum TokenView {
    Keyword(Keyword),
    Value(LiteralView),
    Name(Seq<char>),
}

impl View for Literal {
    type V = LiteralView;

    open spec fn view(&self) -> LiteralView {
        match self {
            Literal::Bool(b) => LiteralView::Bool(*b),
            Literal::Int(i) => LiteralView::Int(*i as int),
            Literal::Float(s) => LiteralView::Float(s@),
            Literal::Custom(c) => LiteralView::Custom(*c),
        }
    }
}

impl View for Token {
    type V = TokenView;

    open spec fn view(&self) -> TokenView {
        match self {
            Token::Keyword(k) => TokenView::Keyword(*k),
            Token::Value(l) => TokenView::Value(l@),
            Token::Name(n) => TokenView::Name(n@),
        }
    }
}

/// The views of a sequence of tokens.
pub open spec fn tokens_view(ts: Seq<Token>) -> Seq<TokenView> {
    ts.map_values(|t: Token| t@)
}

/// The pieces of a text between its runs of whitespace, in order.
pub uninterp spec fn whitespace_split(s: Seq<char>) -> Seq<Seq<char>>;

/// Relies on `regex::Regex::split` with the pattern `\s+`: the pieces of the
/// text between runs of whitespace, in order. What it returns depends on the
/// text alone.
#[verifier::external_body]
fn split_words(text: &str) -> (r: Vec<String>)
    ensures
        r@.map_values(|w: String| w@) == whitespace_split(text@),
{
    let re = regex::Regex::new(r"\s+").unwrap();
    let mut words = Vec::new();
    for w in re.split(text) {
        words.push(w.to_string());
    }
    words
}

/// The token that a word stands for. Keywords come first, then `ORDER` and
/// `CHAOS`, then `true` and `false`, then integers, then floating-point
/// literals; any other word is a name.
pub open spec fn classify(w: Seq<char>) -> TokenView {
    if w == "register"@ {
        TokenView::Keyword(Keyword::Register)
    } else if w == "rank"@ {
        TokenView::Keyword(Keyword::Rank)
    } else if w == "type"@ {
        TokenView::Keyword(Keyword::Type)
    } else if w == "always_def"@ {
        TokenView::Keyword(Keyword::AlwaysDef)
    } else if w == "table_addon"@ {
        TokenView::Keyword(Keyword::TableAddon)
    } else if w == "race_mult"@ {
        TokenView::Keyword(Keyword::RaceMult)
    } else if w == "{"@ {
        TokenView::Keyword(Keyword::BlockStart)
    } else if w == "}"@ {
        TokenView::Keyword(Keyword::BlockEnd)
    } else if w == "ORDER"@ {
        TokenView::Value(LiteralView::Custom(MagicType::ORDER))
    } else if w == "CHAOS"@ {
        TokenView::Value(LiteralView::Custom(MagicType::CHAOS))
    } else if w == "false"@ {
        TokenView::Value(LiteralView::Bool(false))
    } else if w == "true"@ {
        TokenView::Value(LiteralView::Bool(true))
    } else {
        match int_literal(w) {
            Some(v) => TokenView::Value(LiteralView::Int(v)),
            None => if is_float_literal(w) {
                TokenView::Value(LiteralView::Float(w))
            } else {
                TokenView::Name(w)
            },
        }
    }
}

/// The tokens of a sequence of words.
pub open spec fn classify_all(words: Seq<Seq<char>>) -> Seq<TokenView> {
    words.map_values(|w: Seq<char>| classify(w))
}

/// The tokens of a definition text.
pub open spec fn lex(text: Seq<char>) -> Seq<TokenView> {
    classify_all(whitespace_split(text))
}

/// Classifies one word.
pub fn classify_word(w: &String) -> (r: Token)
    ensures
        r@ == classify(w@),
{
    let s = w.as_str();
    if text_is(s, "register") {
        Token::Keyword(Keyword::Register)
    } else if text_is(s, "rank") {
        Token::Keyword(Keyword::Rank)
    } else if text_is(s, "type") {
        Token::Keyword(Keyword::Type)
    } else if text_is(s, "always_def") {
        Token::Keyword(Keyword::AlwaysDef)
    } else if text_is(s, "table_addon") {
        Token::Keyword(Keyword::TableAddon)
    } else if text_is(s, "race_mult") {
        Token::Keyword(Keyword::RaceMult)
    } else if text_is(s, "{") {
        Token::Keyword(Keyword::BlockStart)
    } else if text_is(s, "}") {
        Token::Keyword(Keyword::BlockEnd)
    } else if text_is(s, "ORDER") {
        Token::Value(Literal::Custom(MagicType::ORDER))
    } else if text_is(s, "CHAOS") {
        Token::Value(Literal::Custom(MagicType::CHAOS))
    } else if text_is(s, "false") {
        Token::Value(Literal::Bool(false))
    } else if text_is(s, "true") {
        Token::Value(Literal::Bool(true))
    } else {
        match parse_i64(s) {
            Some(v) => Token::Value(Literal::Int(v)),
            None => if check_float_literal(s) {
                Token::Value(Literal::Float(w.clone()))
            } else {
                Token::Name(w.clone())
            },
        }
    }
}

/// Classifies each word, in order.
pub fn parse_tokens(words: &Vec<String>) -> (r: Vec<Token>)
    ensures
        tokens_view(r@) == classify_all(words@.map_values(|w: String| w@)),
{
    let ghost ws = words@.map_values(|w: String| w@);
    let mut tokens: Vec<Token> = Vec::new();
    let mut i: usize = 0;
    while i < words.len()
        invariant
            i <= words.len(),
            ws == words@.map_values(|w: String| w@),
            tokens_view(tokens@) =~= classify_all(ws.take(i as int)),
        decreases words.len() - i,
    {
        let t = classify_word(&words[i]);
        tokens.push(t);
        assert(classify_all(ws.take(i + 1)) =~= classify_all(ws.take(i as int)).push(classify(ws[i as int])));
        assert(tokens_view(tokens@) =~= classify_all(ws.take(i + 1)));
        i = i + 1;
    }
    assert(ws.take(i as int) =~= ws);
    tokens
}

/// Splits a definition text on whitespace and classifies each word.
pub fn tokenize(text: &str) -> (r: Vec<Token>)
    ensures
        tokens_view(r@) == lex(text@),
{
    let words = split_words(text);
    parse_tokens(&words)
}

} // verus!
