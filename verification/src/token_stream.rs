//! The token cursor: a sequential reader over a token sequence with one token
//! of lookahead.
//!
//! `accept` consumes the next token exactly when its kind matches; `expect`
//! does the same but turns a mismatch into an [`UnexpectedTokenError`]. On any
//! failed match the cursor does not move, so it is safe to retry with a
//! different expected kind.

use vstd::prelude::*;

use crate::lexer::LexerToken;
use crate::lexer::TokenModel;
use crate::lexer::TokenType;
use crate::lexer::token_kind;

verus! {

/// A required token was not there: the cursor saw a token of kind `actual`
/// (or the end of the input) where one of the kinds in `expected` was
/// required.
#[derive(Debug)]
pub struct UnexpectedTokenError {
    /// Every kind that would have been accepted.
    pub expected: Vec<TokenType>,
    /// The kind that was there, or `None` at the end of the input.
    pub actual: Option<TokenType>,
}

/// The value of an [`UnexpectedTokenError`]: the set of expected kinds as a
/// sequence, and the observed kind if the input had not ended.
pub struct ErrorModel {
    pub expected: Seq<TokenType>,
    pub actual: Option<TokenType>,
}

impl View for UnexpectedTokenError {
    type V = ErrorModel;

    open spec fn view(&self) -> ErrorModel {
        ErrorModel { expected: self.expected@, actual: self.actual }
    }
}

impl UnexpectedTokenError {
    /// A display form: the expected kinds against what was found.
    pub fn message(&self) -> String {
        let mut s = String::new();
        s.append("expected one of [");
        let mut i: usize = 0;
        while i < self.expected.len()
            decreases self.expected.len() - i,
        {
            if i > 0 {
                s.append(", ");
            }
            s.append(token_type_name(self.expected[i]));
            i += 1;
        }
        s.append("] but found ");
        match &self.actual {
            Some(t) => s.append(token_type_name(*t)),
            None => s.append("end of input"),
        }
        s
    }
}

/// The display name of a token kind.
pub fn token_type_name(t: TokenType) -> (r: &'static str)
    ensures
        t is Identifier ==> r@ == "an identifier"@,
        t is Number ==> r@ == "a number"@,
{
    match t {
        TokenType::Identifier => "an identifier",
        TokenType::Def => "'def'",
        TokenType::If => "'if'",
        TokenType::Then => "'then'",
        TokenType::Else => "'else'",
        TokenType::Return => "'return'",
        TokenType::Foreign => "a foreign-function declaration",
        TokenType::LParen => "'('",
        TokenType::RParen => "')'",
        TokenType::Comma => "','",
        TokenType::Assign => "'='",
        TokenType::RelOp => "a relational operator",
        TokenType::SumOp => "'+' or '-'",
        TokenType::MulOp => "'*' or '/'",
        TokenType::Number => "a number",
    }
}

/// A cursor over a token sequence, with one token of lookahead. `pos` is the
/// index of the next unconsumed token; no token before `pos` is ever
/// revisited.
pub struct TokenStream<'a> {
    /// The scanned tokens.
    pub tokens: &'a Vec<LexerToken>,
    /// The index of the next unconsumed token.
    pub pos: usize,
}

impl<'a> TokenStream<'a> {
    /// The values of the whole underlying token sequence.
    pub open spec fn toks(self) -> Seq<TokenModel> {
        self.tokens@.map_values(|t: LexerToken| t@)
    }

    /// The cursor stays inside the sequence, over well-formed tokens.
    pub open spec fn wf(self) -> bool {
        &&& self.pos <= self.tokens@.len()
        &&& forall|i: int| 0 <= i < self.tokens@.len() ==> (#[trigger] self.tokens@[i]).wf()
    }

    /// A cursor at the start of `tokens`.
    pub fn new(tokens: &'a Vec<LexerToken>) -> (s: Self)
        requires
            forall|i: int| 0 <= i < tokens@.len() ==> (#[trigger] tokens@[i]).wf(),
        ensures
            s.wf(),
            s.tokens == tokens,
            s.pos == 0,
    {
        TokenStream { tokens, pos: 0 }
    }

    /// Whether every token has been consumed.
    pub fn is_eof(&self) -> (r: bool)
        ensures
            r == (self.pos >= self.tokens@.len()),
    {
        self.pos >= self.tokens.len()
    }

    /// The kind of the next token, or `None` at the end of the input.
    fn get_actual(&self) -> (r: Option<TokenType>)
        requires
            self.wf(),
        ensures
            r == (if self.pos < self.toks().len() {
                Some(token_kind(self.toks()[self.pos as int]))
            } else {
                None::<TokenType>
            }),
    {
        if self.pos < self.tokens.len() {
            let r = Some(self.tokens[self.pos].token_type);
            proof {
                crate::lexer::lemma_wf_token_kind(self.tokens[self.pos as int]);
            }
            r
        } else {
            None
        }
    }

    /// If the next token's kind is `expected`, consumes and returns it;
    /// otherwise returns nothing and leaves the cursor exactly where it was.
    pub fn accept(&mut self, expected: TokenType) -> (r: Option<LexerToken>)
        requires
            old(self).wf(),
        ensures
            final(self).wf(),
            final(self).tokens == old(self).tokens,
            match r {
                Some(t) => {
                    &&& old(self).pos < old(self).toks().len()
                    &&& token_kind(old(self).toks()[old(self).pos as int]) == expected
                    &&& t@ == old(self).toks()[old(self).pos as int]
                    &&& t.wf()
                    &&& final(self).pos == old(self).pos + 1
                },
                None => {
                    &&& (old(self).pos >= old(self).toks().len() || token_kind(
                        old(self).toks()[old(self).pos as int],
                    ) != expected)
                    &&& final(self).pos == old(self).pos
                },
            },
    {
        if self.pos < self.tokens.len() {
            let top = &self.tokens[self.pos];
            proof {
                crate::lexer::lemma_wf_token_kind(self.tokens[self.pos as int]);
            }
            if top.token_type == expected {
                let t = top.clone();
                self.pos = self.pos + 1;
                Some(t)
            } else {
                None
            }
        } else {
            None
        }
    }

    /// As [`Self::accept`], but the next token may match any of the given
    /// kinds.
    pub fn multi(&mut self, types: &Vec<TokenType>) -> (r: Option<LexerToken>)
        requires
            old(self).wf(),
        ensures
            final(self).wf(),
            final(self).tokens == old(self).tokens,
            match r {
                Some(t) => {
                    &&& old(self).pos < old(self).toks().len()
                    &&& types@.contains(token_kind(old(self).toks()[old(self).pos as int]))
                    &&& t@ == old(self).toks()[old(self).pos as int]
                    &&& t.wf()
                    &&& final(self).pos == old(self).pos + 1
                },
                None => {
                    &&& (old(self).pos >= old(self).toks().len() || !types@.contains(
                        token_kind(old(self).toks()[old(self).pos as int]),
                    ))
                    &&& final(self).pos == old(self).pos
                },
            },
    {
        if self.pos >= self.tokens.len() {
            return None;
        }
        let top = &self.tokens[self.pos];
        proof {
            crate::lexer::lemma_wf_token_kind(self.tokens[self.pos as int]);
        }
        let mut i: usize = 0;
        let mut found = false;
        while i < types.len()
            invariant
                self.pos < self.tokens@.len(),
                self.pos < usize::MAX,
                i <= types@.len(),
                found == exists|j: int| 0 <= j < i && types@[j] == top.token_type,
            decreases types@.len() - i,
        {
            if types[i] == top.token_type {
                found = true;
            }
            i += 1;
        }
        if found {
            let t = top.clone();
            self.pos = self.pos + 1;
            Some(t)
        } else {
            None
        }
    }

    /// As [`Self::accept`], but a mismatch is an error reporting the expected
    /// kind against what was found — `None` standing for the end of the
    /// input. The cursor does not move on failure.
    pub fn expect(&mut self, expected: TokenType) -> (r: Result<LexerToken, UnexpectedTokenError>)
        requires
            old(self).wf(),
        ensures
            final(self).wf(),
            final(self).tokens == old(self).tokens,
            match r {
                Ok(t) => {
                    &&& old(self).pos < old(self).toks().len()
                    &&& token_kind(old(self).toks()[old(self).pos as int]) == expected
                    &&& t@ == old(self).toks()[old(self).pos as int]
                    &&& t.wf()
                    &&& final(self).pos == old(self).pos + 1
                },
                Err(e) => {
                    &&& (old(self).pos >= old(self).toks().len() || token_kind(
                        old(self).toks()[old(self).pos as int],
                    ) != expected)
                    &&& final(self).pos == old(self).pos
                    &&& e@.expected == seq![expected]
                    &&& e@.actual == (if old(self).pos < old(self).toks().len() {
                        Some(token_kind(old(self).toks()[old(self).pos as int]))
                    } else {
                        None::<TokenType>
                    })
                },
            },
    {
        match self.accept(expected) {
            Some(result) => Ok(result),
            None => {
                let mut expected_kinds: Vec<TokenType> = Vec::new();
                expected_kinds.push(expected);
                proof {
                    assert(expected_kinds@ =~= seq![expected]);
                }
                Err(UnexpectedTokenError { expected: expected_kinds, actual: self.get_actual() })
            },
        }
    }

    /// As [`Self::multi`], but a mismatch is an error reporting the whole
    /// expected set against what was found.
    pub fn expect_multi(&mut self, types: &Vec<TokenType>) -> (r: Result<
        LexerToken,
        UnexpectedTokenError,
    >)
        requires
            old(self).wf(),
        ensures
            final(self).wf(),
            final(self).tokens == old(self).tokens,
            match r {
                Ok(t) => {
                    &&& old(self).pos < old(self).toks().len()
                    &&& types@.contains(token_kind(old(self).toks()[old(self).pos as int]))
                    &&& t@ == old(self).toks()[old(self).pos as int]
                    &&& t.wf()
                    &&& final(self).pos == old(self).pos + 1
                },
                Err(e) => {
                    &&& (old(self).pos >= old(self).toks().len() || !types@.contains(
                        token_kind(old(self).toks()[old(self).pos as int]),
                    ))
                    &&& final(self).pos == old(self).pos
                    &&& e@.expected == types@
                    &&& e@.actual == (if old(self).pos < old(self).toks().len() {
                        Some(token_kind(old(self).toks()[old(self).pos as int]))
                    } else {
                        None::<TokenType>
                    })
                },
            },
    {
        match self.multi(types) {
            Some(result) => Ok(result),
            None => {
                let mut expected_kinds: Vec<TokenType> = Vec::new();
                let mut i: usize = 0;
                while i < types.len()
                    invariant
                        i <= types@.len(),
                        expected_kinds@ == types@.subrange(0, i as int),
                    decreases types@.len() - i,
                {
                    expected_kinds.push(types[i]);
                    i += 1;
                    proof {
                        assert(expected_kinds@ =~= types@.subrange(0, i as int));
                    }
                }
                proof {
                    assert(expected_kinds@ =~= types@);
                }
                Err(UnexpectedTokenError { expected: expected_kinds, actual: self.get_actual() })
            },
        }
    }
}

} // verus!
