use vstd::prelude::*;

use crate::lexer::{lex, tokenize, Keyword, Literal, LiteralView, Token, TokenView, tokens_view};
use crate::magic::{default_magic, i_to_magic_rank, rank_of_int, Magic, MagicView};

verus! {

/// Why a definition file could not be loaded.
#[derive(Clone, Copy, Debug, PartialEq, Eq, Structural)]
pub enum ParseError {
    /// The definition file could not be read.
    IoError,
    /// A keyword stands last, without the token it needs after it.
    OutOfBounds,
    /// `register` is not followed by a name.
    ExpectedName,
    /// `rank` or `table_addon` is not followed by an integer.
    ExpectedInt,
    /// `always_def` is not followed by `true` or `false`.
    ExpectedBool,
    /// `type` is not followed by `ORDER` or `CHAOS`.
    ExpectedCustomIdentifier,
    /// `race_mult` is not followed by a decimal number.
    ExpectedFloat,
    /// An attribute keyword comes before any `register`.
    NoRegisteredMagic,
}

impl ParseError {
    /// A human-readable description of the error.
    pub fn message(&self) -> &'static str {
        match self {
            ParseError::IoError => "The definition file could not be read!",
            ParseError::OutOfBounds => "Out of bounds!",
            ParseError::ExpectedName => "Expected Name but found something else!",
            ParseError::ExpectedInt => "Expected Int but found something else!",
            ParseError::ExpectedBool => "Expected Bool but found something else!",
            ParseError::ExpectedCustomIdentifier => "Expected ORDER/CHAOS but found something else!",
            ParseError::ExpectedFloat => "Expected Float but found something else!",
            ParseError::NoRegisteredMagic => "No registered magics!",
        }
    }
}

/// The keywords that set an attribute of the latest registered spell.
pub open spec fn is_attribute(k: Keyword) -> bool {
    match k {
        Keyword::Rank | Keyword::Type | Keyword::AlwaysDef | Keyword::TableAddon
        | Keyword::RaceMult => true,
        _ => false,
    }
}

/// The error for an attribute keyword followed by a value of the wrong kind.
pub open spec fn expected_error(k: Keyword) -> ParseError {
    match k {
        Keyword::Type => ParseError::ExpectedCustomIdentifier,
        Keyword::AlwaysDef => ParseError::ExpectedBool,
        Keyword::RaceMult => ParseError::ExpectedFloat,
        _ => ParseError::ExpectedInt,
    }
}

/// `m` with attribute `k` set to `v`, or `None` where `v` is of the wrong kind.
pub open spec fn apply_attribute(m: MagicView, k: Keyword, v: LiteralView) -> Option<MagicView> {
    match (k, v) {
        (Keyword::Rank, LiteralView::Int(i)) => Some(MagicView { rank: rank_of_int(i), ..m }),
        (Keyword::Type, LiteralView::Custom(c)) => Some(MagicView { typ: c, ..m }),
        (Keyword::AlwaysDef, LiteralView::Bool(b)) => Some(MagicView { always_def: b, ..m }),
        (Keyword::TableAddon, LiteralView::Int(i)) => Some(MagicView { table_addon: i, ..m }),
        (Keyword::RaceMult, LiteralView::Float(f)) => Some(MagicView { race_mult: f, ..m }),
        _ => None,
    }
}

/// The outcome of interpreting `toks` from position `i` on, with the spells
/// registered so far in `acc`.
pub open spec fn interpret_from(toks: Seq<TokenView>, i: int, acc: Seq<MagicView>) -> Result<
    Seq<MagicView>,
    ParseError,
>
    decreases toks.len() - i,
{
    if i < 0 || i >= toks.len() {
        Ok(acc)
    } else {
        match toks[i] {
            TokenView::Keyword(k) => {
                if k == Keyword::Register {
                    if i + 1 >= toks.len() {
                        Err(ParseError::OutOfBounds)
                    } else {
                        match toks[i + 1] {
                            TokenView::Name(n) => interpret_from(toks, i + 2, acc.push(default_magic(n))),
                            _ => Err(ParseError::ExpectedName),
                        }
                    }
                } else if is_attribute(k) {
                    if acc.len() == 0 {
                        Err(ParseError::NoRegisteredMagic)
                    } else if i + 1 >= toks.len() {
                        Err(ParseError::OutOfBounds)
                    } else {
                        match toks[i + 1] {
                            TokenView::Value(v) => match apply_attribute(acc.last(), k, v) {
                                Some(m) => interpret_from(toks, i + 2, acc.update(acc.len() - 1, m)),
                                None => Err(expected_error(k)),
                            },
                            _ => Err(expected_error(k)),
                        }
                    }
                } else {
                    interpret_from(toks, i + 1, acc)
                }
            },
            _ => interpret_from(toks, i + 1, acc),
        }
    }
}

/// The spells that a token sequence defines, in order, or the first error.
pub open spec fn compile_tokens(toks: Seq<TokenView>) -> Result<Seq<MagicView>, ParseError> {
    interpret_from(toks, 0, Seq::empty())
}

/// The views of a sequence of spells.
pub open spec fn magics_view(ms: Seq<Magic>) -> Seq<MagicView> {
    ms.map_values(|m: Magic| m@)
}

/// What a result of the compiler amounts to.
pub open spec fn compiled_view(r: Result<Vec<Magic>, ParseError>) -> Result<Seq<MagicView>, ParseError> {
    match r {
        Ok(ms) => Ok(magics_view(ms@)),
        Err(e) => Err(e),
    }
}

/// The spells registered so far: those finished, then the one being edited.
pub open spec fn pending(done: Seq<Magic>, cur: Magic, has_cur: bool) -> Seq<MagicView> {
    if has_cur {
        magics_view(done).push(cur@)
    } else {
        magics_view(done)
    }
}

/// Interprets a token sequence: `register <name>` starts a spell, and each
/// attribute keyword sets an attribute of the latest spell from the token
/// after it. Other tokens are skipped.
pub fn interpret_tokens_to_magic(tokens: &Vec<Token>) -> (r: Result<Vec<Magic>, ParseError>)
    ensures
        compiled_view(r) == compile_tokens(tokens_view(tokens@)),
{
    let ghost tv = tokens_view(tokens@);
    let mut done: Vec<Magic> = Vec::new();
    let mut cur: Magic = Magic::new(String::new());
    let mut has_cur: bool = false;
    let mut i: usize = 0;
    assert(pending(done@, cur, has_cur) =~= Seq::<MagicView>::empty());
    while i < tokens.len()
        invariant
            tv == tokens_view(tokens@),
            tv.len() == tokens@.len(),
            0 <= i <= tokens.len(),
            !has_cur ==> done@.len() == 0,
            compile_tokens(tv) == interpret_from(tv, i as int, pending(done@, cur, has_cur)),
        decreases tokens.len() - i,
    {
        let ghost acc = pending(done@, cur, has_cur);
        assert(tv[i as int] == tokens@[i as int]@);
        match &tokens[i] {
            Token::Keyword(k) => {
                let k = *k;
                if k == Keyword::Register {
                    if i + 1 >= tokens.len() {
                        return Err(ParseError::OutOfBounds);
                    }
                    assert(tv[i + 1] == tokens@[i + 1]@);
                    match &tokens[i + 1] {
                        Token::Name(n) => {
                            let fresh = Magic::new(n.clone());
                            if has_cur {
                                done.push(cur);
                            }
                            cur = fresh;
                            has_cur = true;
                            assert(pending(done@, cur, has_cur) =~= acc.push(default_magic(n@)));
                            i = i + 2;
                        },
                        _ => {
                            return Err(ParseError::ExpectedName);
                        },
                    }
                } else if k == Keyword::Rank || k == Keyword::Type || k == Keyword::AlwaysDef || k
                    == Keyword::TableAddon || k == Keyword::RaceMult {
                    if !has_cur {
                        return Err(ParseError::NoRegisteredMagic);
                    }
                    if i + 1 >= tokens.len() {
                        return Err(ParseError::OutOfBounds);
                    }
                    assert(tv[i + 1] == tokens@[i + 1]@);
                    assert(acc.last() == cur@);
                    let ok = match (k, &tokens[i + 1]) {
                        (Keyword::Rank, Token::Value(Literal::Int(v))) => {
                            cur.rank = i_to_magic_rank(*v);
                            true
                        },
                        (Keyword::Type, Token::Value(Literal::Custom(c))) => {
                            cur.typ = *c;
                            true
                        },
                        (Keyword::AlwaysDef, Token::Value(Literal::Bool(b))) => {
                            cur.always_def = *b;
                            true
                        },
                        (Keyword::TableAddon, Token::Value(Literal::Int(v))) => {
                            cur.table_addon = *v;
                            true
                        },
                        (Keyword::RaceMult, Token::Value(Literal::Float(f))) => {
                            cur.race_mult = f.clone();
                            true
                        },
                        _ => false,
                    };
                    if !ok {
                        return Err(
                            match k {
                                Keyword::Type => ParseError::ExpectedCustomIdentifier,
                                Keyword::AlwaysDef => ParseError::ExpectedBool,
                                Keyword::RaceMult => ParseError::ExpectedFloat,
                                _ => ParseError::ExpectedInt,
                            },
                        );
                    }
                    assert(pending(done@, cur, has_cur) =~= acc.update(acc.len() - 1, cur@));
                    i = i + 2;
                } else {
                    i = i + 1;
                }
            },
            _ => {
                i = i + 1;
            },
        }
    }
    let ghost acc = pending(done@, cur, has_cur);
    if has_cur {
        done.push(cur);
    }
    assert(magics_view(done@) =~= acc);
    Ok(done)
}

/// An attribute keyword that comes before any `register` fails the whole
/// compilation with `NoRegisteredMagic`, whatever follows it.
pub proof fn lemma_attribute_needs_register(toks: Seq<TokenView>, i: int)
    requires
        0 <= i < toks.len(),
        toks[i] is Keyword,
        is_attribute(toks[i]->Keyword_0),
        forall|j: int| 0 <= j < i ==> #[trigger] toks[j] != TokenView::Keyword(Keyword::Register),
    ensures
        compile_tokens(toks) == Err::<Seq<MagicView>, ParseError>(ParseError::NoRegisteredMagic),
{
    lemma_skip_to_attribute(toks, 0, i);
}

/// From `j` on, with nothing registered, the tokens before an attribute
/// keyword at `i` that are not `register` are skipped one by one.
proof fn lemma_skip_to_attribute(toks: Seq<TokenView>, j: int, i: int)
    requires
        0 <= j <= i < toks.len(),
        toks[i] is Keyword,
        is_attribute(toks[i]->Keyword_0),
        forall|m: int| 0 <= m < i ==> #[trigger] toks[m] != TokenView::Keyword(Keyword::Register),
    ensures
        interpret_from(toks, j, Seq::empty()) == Err::<Seq<MagicView>, ParseError>(
            ParseError::NoRegisteredMagic,
        ),
    decreases i - j,
{
    if j < i {
        assert(toks[j] != TokenView::Keyword(Keyword::Register));
        match toks[j] {
            TokenView::Keyword(k) => {
                if is_attribute(k) {
                } else {
                    lemma_skip_to_attribute(toks, j + 1, i);
                }
            },
            _ => {
                lemma_skip_to_attribute(toks, j + 1, i);
            },
        }
    }
}

/// Compiles a definition text into its spells, in order of appearance, or
/// into the first error met.
pub fn compile_source(text: &str) -> (r: Result<Vec<Magic>, ParseError>)
    ensures
        compiled_view(r) == compile_tokens(lex(text@)),
{
    let tokens = tokenize(text);
    interpret_tokens_to_magic(&tokens)
}

} // verus!
