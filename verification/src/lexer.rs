//! The lexical scanner: a character-driven finite-state tokenizer with a
//! one-character pushback.
//!
//! [`lex_string`] makes one forward pass over the Unicode scalar values of the
//! input. Its whole behaviour is captured by the specification functions
//! [`spec_step`] (one transition of the state machine), [`spec_eof`] (what is
//! emitted when the input ends) and [`spec_tokenize`] (the token sequence of a
//! whole input).

use vstd::prelude::*;
use vstd::string::StrSliceExecFns;

verus! {

// ---------------------------------------------------------------------------
// Character classification.
//
// The scanner classifies Unicode scalar values with the character tables of
// the standard library. Those tables are opaque here: each class is a named,
// otherwise unspecified predicate, and a trusted wrapper ties the standard
// library call to the name.
// ---------------------------------------------------------------------------
/// What `char::is_alphabetic` returns: whether the character has the Unicode
/// `Alphabetic` property. A function of the character alone.
pub uninterp spec fn is_letter_char(c: char) -> bool;

/// What `char::is_numeric` returns: whether the character has one of the
/// Unicode numeric general categories. A function of the character alone.
pub uninterp spec fn is_digit_char(c: char) -> bool;

/// What `char::is_whitespace` returns: whether the character has the Unicode
/// `White_Space` property. A function of the character alone.
pub uninterp spec fn is_space_char(c: char) -> bool;

/// Relies on `char::is_alphabetic`: a lookup in the Unicode `Alphabetic`
/// table, a function of the character alone.
#[verifier::external_body]
fn char_is_alphabetic(c: char) -> (r: bool)
    ensures
        r == is_letter_char(c),
{
    c.is_alphabetic()
}

/// Relies on `char::is_numeric`: a lookup in the Unicode numeric-category
/// table, a function of the character alone.
#[verifier::external_body]
fn char_is_numeric(c: char) -> (r: bool)
    ensures
        r == is_digit_char(c),
{
    c.is_numeric()
}

/// Relies on `char::is_whitespace`: a lookup in the Unicode `White_Space`
/// table, a function of the character alone.
#[verifier::external_body]
fn char_is_whitespace(c: char) -> (r: bool)
    ensures
        r == is_space_char(c),
{
    c.is_whitespace()
}

/// Relies on `char::is_alphanumeric`, documented as returning exactly
/// `c.is_alphabetic() || c.is_numeric()`.
#[verifier::external_body]
fn char_is_alphanumeric(c: char) -> (r: bool)
    ensures
        r == (is_letter_char(c) || is_digit_char(c)),
{
    c.is_alphanumeric()
}

/// Relies on `String::push`, documented as appending the given character to
/// the end of the string.
pub assume_specification[ String::push ](s: &mut String, ch: char)
    ensures
        final(s)@ == old(s)@.push(ch),
;

// ---------------------------------------------------------------------------
// Tokens.
// ---------------------------------------------------------------------------
/// The discriminant kind of a token.
#[derive(Clone, Copy, Debug, PartialEq, Eq, Structural)]
pub enum TokenType {
    Identifier,
    Def,
    If,
    Then,
    Else,
    Return,
    Foreign,
    LParen,
    RParen,
    Comma,
    Assign,
    RelOp,
    SumOp,
    MulOp,
    Number,
}

/// The additive operators, `+` and `-`.
#[derive(Clone, Copy, Debug, PartialEq, Eq, Structural)]
pub enum SumOp {
    Add,
    Subtract,
}

/// The multiplicative operators, `*` and `/`.
#[derive(Clone, Copy, Debug, PartialEq, Eq, Structural)]
pub enum MulOp {
    Multiply,
    Divide,
}

/// The relational operators.
#[derive(Clone, Copy, Debug, PartialEq, Eq, Structural)]
pub enum RelOp {
    LessThan,
    LessThanEq,
    Equal,
    GreaterThan,
    GreaterThanEq,
}

/// The mathematical value of a token: its kind together with its payload.
/// Identifier and number payloads are character sequences; a numeric literal
/// keeps the exact spelling it had in the source text.
pub enum TokenModel {
    Identifier(Seq<char>),
    Def,
    If,
    Then,
    Else,
    Return,
    Foreign,
    LParen,
    RParen,
    Comma,
    Assign,
    Rel(RelOp),
    Sum(SumOp),
    Mul(MulOp),
    Number(Seq<char>),
}

/// The kind of a token value.
pub open spec fn token_kind(t: TokenModel) -> TokenType {
    match t {
        TokenModel::Identifier(_) => TokenType::Identifier,
        TokenModel::Def => TokenType::Def,
        TokenModel::If => TokenType::If,
        TokenModel::Then => TokenType::Then,
        TokenModel::Else => TokenType::Else,
        TokenModel::Return => TokenType::Return,
        TokenModel::Foreign => TokenType::Foreign,
        TokenModel::LParen => TokenType::LParen,
        TokenModel::RParen => TokenType::RParen,
        TokenModel::Comma => TokenType::Comma,
        TokenModel::Assign => TokenType::Assign,
        TokenModel::Rel(_) => TokenType::RelOp,
        TokenModel::Sum(_) => TokenType::SumOp,
        TokenModel::Mul(_) => TokenType::MulOp,
        TokenModel::Number(_) => TokenType::Number,
    }
}

/// A token: a kind and at most one payload, present exactly for the kind that
/// carries it. Tokens are immutable once produced.
#[derive(Debug)]
pub struct LexerToken {
    pub token_type: TokenType,
    pub label: Option<String>,
    pub number: Option<String>,
    pub rel_op: Option<RelOp>,
    pub sum_op: Option<SumOp>,
    pub mul_op: Option<MulOp>,
}

impl LexerToken {
    /// Each payload is present exactly when the kind calls for it.
    pub open spec fn wf(self) -> bool {
        &&& self.label is Some <==> self.token_type is Identifier
        &&& self.number is Some <==> self.token_type is Number
        &&& self.rel_op is Some <==> self.token_type is RelOp
        &&& self.sum_op is Some <==> self.token_type is SumOp
        &&& self.mul_op is Some <==> self.token_type is MulOp
    }
}

impl View for LexerToken {
    type V = TokenModel;

    /// The token's value. A missing payload (a token that is not well formed)
    /// is read as an empty or default payload.
    open spec fn view(&self) -> TokenModel {
        match self.token_type {
            TokenType::Identifier => TokenModel::Identifier(
                match self.label {
                    Some(s) => s@,
                    None => Seq::empty(),
                },
            ),
            TokenType::Def => TokenModel::Def,
            TokenType::If => TokenModel::If,
            TokenType::Then => TokenModel::Then,
            TokenType::Else => TokenModel::Else,
            TokenType::Return => TokenModel::Return,
            TokenType::Foreign => TokenModel::Foreign,
            TokenType::LParen => TokenModel::LParen,
            TokenType::RParen => TokenModel::RParen,
            TokenType::Comma => TokenModel::Comma,
            TokenType::Assign => TokenModel::Assign,
            TokenType::RelOp => TokenModel::Rel(
                match self.rel_op {
                    Some(op) => op,
                    None => RelOp::Equal,
                },
            ),
            TokenType::SumOp => TokenModel::Sum(
                match self.sum_op {
                    Some(op) => op,
                    None => SumOp::Add,
                },
            ),
            TokenType::MulOp => TokenModel::Mul(
                match self.mul_op {
                    Some(op) => op,
                    None => MulOp::Multiply,
                },
            ),
            TokenType::Number => TokenModel::Number(
                match self.number {
                    Some(s) => s@,
                    None => Seq::empty(),
                },
            ),
        }
    }
}

impl Clone for LexerToken {
    /// A clone has the same value and the same well-formedness.
    fn clone(&self) -> (r: Self)
        ensures
            r@ == self@,
            r.wf() <==> self.wf(),
            r.token_type == self.token_type,
    {
        LexerToken {
            token_type: self.token_type,
            label: match &self.label {
                Some(s) => Some(s.clone()),
                None => None,
            },
            number: match &self.number {
                Some(s) => Some(s.clone()),
                None => None,
            },
            rel_op: self.rel_op,
            sum_op: self.sum_op,
            mul_op: self.mul_op,
        }
    }
}

impl LexerToken {
    /// A token whose kind carries no payload.
    pub fn from_single(token_type: TokenType) -> (t: LexerToken)
        requires
            !(token_type is Identifier),
            !(token_type is Number),
            !(token_type is RelOp),
            !(token_type is SumOp),
            !(token_type is MulOp),
        ensures
            t.wf(),
            t.token_type == token_type,
    {
        LexerToken {
            token_type,
            label: None,
            number: None,
            rel_op: None,
            sum_op: None,
            mul_op: None,
        }
    }

    /// A relational-operator token.
    pub fn from_rel_op(rel_op: RelOp) -> (t: LexerToken)
        ensures
            t.wf(),
            t@ == TokenModel::Rel(rel_op),
    {
        LexerToken {
            token_type: TokenType::RelOp,
            label: None,
            number: None,
            rel_op: Some(rel_op),
            sum_op: None,
            mul_op: None,
        }
    }

    /// An additive-operator token.
    pub fn from_sum_op(sum_op: SumOp) -> (t: LexerToken)
        ensures
            t.wf(),
            t@ == TokenModel::Sum(sum_op),
    {
        LexerToken {
            token_type: TokenType::SumOp,
            label: None,
            number: None,
            rel_op: None,
            sum_op: Some(sum_op),
            mul_op: None,
        }
    }

    /// A multiplicative-operator token.
    pub fn from_mul_op(mul_op: MulOp) -> (t: LexerToken)
        ensures
            t.wf(),
            t@ == TokenModel::Mul(mul_op),
    {
        LexerToken {
            token_type: TokenType::MulOp,
            label: None,
            number: None,
            rel_op: None,
            sum_op: None,
            mul_op: Some(mul_op),
        }
    }

    /// An identifier token carrying its text.
    pub fn from_label(label: String) -> (t: LexerToken)
        ensures
            t.wf(),
            t@ == TokenModel::Identifier(label@),
    {
        LexerToken {
            token_type: TokenType::Identifier,
            label: Some(label),
            number: None,
            rel_op: None,
            sum_op: None,
            mul_op: None,
        }
    }

    /// A numeric token carrying the exact spelling of the literal.
    pub fn from_number(number: String) -> (t: LexerToken)
        ensures
            t.wf(),
            t@ == TokenModel::Number(number@),
    {
        LexerToken {
            token_type: TokenType::Number,
            label: None,
            number: Some(number),
            rel_op: None,
            sum_op: None,
            mul_op: None,
        }
    }
}

/// A well-formed token's kind agrees with the kind of its value.
pub proof fn lemma_wf_token_kind(t: LexerToken)
    requires
        t.wf(),
    ensures
        token_kind(t@) == t.token_type,
{
}

// ---------------------------------------------------------------------------
// The scanner's state machine.
// ---------------------------------------------------------------------------
/// A scanning failure. The scan stops at the first one; no partial token is
/// emitted.
#[derive(Clone, Copy, Debug, PartialEq, Eq, Structural)]
pub enum LexError {
    /// A character that no transition out of the start state recognizes.
    UnrecognizedCharacter,
    /// A `.` in a numeric literal that is not followed by a digit.
    MalformedFloat,
    /// The input ended where a digit was still required.
    UnexpectedEndOfInput,
}

impl LexError {
    /// A short description of the failure.
    pub fn reason(&self) -> (r: &'static str)
        ensures
            *self is UnrecognizedCharacter ==> r@ == "unrecognized character"@,
            *self is MalformedFloat ==> r@ == "expected digits after '.' in a numeric literal"@,
            *self is UnexpectedEndOfInput ==> r@ == "unexpected end of input"@,
    {
        match self {
            LexError::UnrecognizedCharacter => "unrecognized character",
            LexError::MalformedFloat => "expected digits after '.' in a numeric literal",
            LexError::UnexpectedEndOfInput => "unexpected end of input",
        }
    }
}

/// The scanner's live state. Every state other than `Start` either consumes
/// another character or produces exactly one token and returns to `Start`,
/// possibly pushing the character it saw back for the next step.
#[derive(Clone, Copy, Debug, PartialEq, Eq, Structural)]
pub enum LexerStateDescriptor {
    Start,
    InIdentifier,
    InNumber,
    InNumberAfterDot,
    InFloat,
    AfterGreaterThan,
    AfterLessThan,
    AfterEquals,
}

/// Whether a transition consumed the character it saw, or pushed it back to be
/// read again.
#[derive(Clone, Copy, Debug, PartialEq, Eq, Structural)]
pub enum StateResponse {
    Continue,
    Backtrace,
}

/// The token an accumulated identifier finishes as: one of the keywords
/// `def`, `return`, `if`, `then`, `else`, or an identifier carrying its text.
pub open spec fn keyword_or_identifier(acc: Seq<char>) -> TokenModel {
    if acc == seq!['d', 'e', 'f'] {
        TokenModel::Def
    } else if acc == seq!['r', 'e', 't', 'u', 'r', 'n'] {
        TokenModel::Return
    } else if acc == seq!['i', 'f'] {
        TokenModel::If
    } else if acc == seq!['t', 'h', 'e', 'n'] {
        TokenModel::Then
    } else if acc == seq!['e', 'l', 's', 'e'] {
        TokenModel::Else
    } else {
        TokenModel::Identifier(acc)
    }
}

/// One transition of the state machine, discriminated by current state and
/// current character. Given the accumulated text `acc` of the token being
/// built, it yields whether the character is pushed back, the next state, the
/// token emitted (if any), and the new accumulated text — or the scan fails.
pub open spec fn spec_step(st: LexerStateDescriptor, c: char, acc: Seq<char>) -> Result<
    (bool, LexerStateDescriptor, Option<TokenModel>, Seq<char>),
    LexError,
> {
    match st {
        LexerStateDescriptor::Start => {
            if is_space_char(c) {
                Ok((false, LexerStateDescriptor::Start, None, acc))
            } else if is_letter_char(c) {
                Ok((false, LexerStateDescriptor::InIdentifier, None, acc.push(c)))
            } else if is_digit_char(c) {
                Ok((false, LexerStateDescriptor::InNumber, None, acc.push(c)))
            } else if c == '(' {
                Ok((false, LexerStateDescriptor::Start, Some(TokenModel::LParen), acc))
            } else if c == ')' {
                Ok((false, LexerStateDescriptor::Start, Some(TokenModel::RParen), acc))
            } else if c == ',' {
                Ok((false, LexerStateDescriptor::Start, Some(TokenModel::Comma), acc))
            } else if c == '+' {
                Ok((false, LexerStateDescriptor::Start, Some(TokenModel::Sum(SumOp::Add)), acc))
            } else if c == '-' {
                Ok(
                    (
                        false,
                        LexerStateDescriptor::Start,
                        Some(TokenModel::Sum(SumOp::Subtract)),
                        acc,
                    ),
                )
            } else if c == '*' {
                Ok(
                    (
                        false,
                        LexerStateDescriptor::Start,
                        Some(TokenModel::Mul(MulOp::Multiply)),
                        acc,
                    ),
                )
            } else if c == '/' {
                Ok((false, LexerStateDescriptor::Start, Some(TokenModel::Mul(MulOp::Divide)), acc))
            } else if c == '>' {
                Ok((false, LexerStateDescriptor::AfterGreaterThan, None, acc))
            } else if c == '<' {
                Ok((false, LexerStateDescriptor::AfterLessThan, None, acc))
            } else if c == '=' {
                Ok((false, LexerStateDescriptor::AfterEquals, None, acc))
            } else {
                Err(LexError::UnrecognizedCharacter)
            }
        },
        LexerStateDescriptor::InIdentifier => {
            if is_letter_char(c) || is_digit_char(c) {
                Ok((false, LexerStateDescriptor::InIdentifier, None, acc.push(c)))
            } else {
                Ok(
                    (
                        true,
                        LexerStateDescriptor::Start,
                        Some(keyword_or_identifier(acc)),
                        Seq::empty(),
                    ),
                )
            }
        },
        LexerStateDescriptor::InNumber => {
            if is_digit_char(c) {
                Ok((false, LexerStateDescriptor::InNumber, None, acc.push(c)))
            } else if c == '.' {
                Ok((false, LexerStateDescriptor::InNumberAfterDot, None, acc.push(c)))
            } else {
                Ok(
                    (
                        true,
                        LexerStateDescriptor::Start,
                        Some(TokenModel::Number(acc)),
                        Seq::empty(),
                    ),
                )
            }
        },
        LexerStateDescriptor::InNumberAfterDot => {
            if is_digit_char(c) {
                Ok((false, LexerStateDescriptor::InFloat, None, acc.push(c)))
            } else {
                Err(LexError::MalformedFloat)
            }
        },
        LexerStateDescriptor::InFloat => {
            if is_digit_char(c) {
                Ok((false, LexerStateDescriptor::InFloat, None, acc.push(c)))
            } else {
                Ok(
                    (
                        true,
                        LexerStateDescriptor::Start,
                        Some(TokenModel::Number(acc)),
                        Seq::empty(),
                    ),
                )
            }
        },
        LexerStateDescriptor::AfterGreaterThan => {
            if c == '=' {
                Ok(
                    (
                        false,
                        LexerStateDescriptor::Start,
                        Some(TokenModel::Rel(RelOp::GreaterThanEq)),
                        acc,
                    ),
                )
            } else {
                Ok(
                    (
                        true,
                        LexerStateDescriptor::Start,
                        Some(TokenModel::Rel(RelOp::GreaterThan)),
                        acc,
                    ),
                )
            }
        },
        LexerStateDescriptor::AfterLessThan => {
            if c == '=' {
                Ok(
                    (
                        false,
                        LexerStateDescriptor::Start,
                        Some(TokenModel::Rel(RelOp::LessThanEq)),
                        acc,
                    ),
                )
            } else {
                Ok(
                    (
                        true,
                        LexerStateDescriptor::Start,
                        Some(TokenModel::Rel(RelOp::LessThan)),
                        acc,
                    ),
                )
            }
        },
        LexerStateDescriptor::AfterEquals => {
            if c == '=' {
                Ok((false, LexerStateDescriptor::Start, Some(TokenModel::Rel(RelOp::Equal)), acc))
            } else if c == '<' {
                Ok(
                    (
                        false,
                        LexerStateDescriptor::Start,
                        Some(TokenModel::Rel(RelOp::LessThanEq)),
                        acc,
                    ),
                )
            } else if c == '>' {
                Ok(
                    (
                        false,
                        LexerStateDescriptor::Start,
                        Some(TokenModel::Rel(RelOp::GreaterThanEq)),
                        acc,
                    ),
                )
            } else {
                Ok((true, LexerStateDescriptor::Start, Some(TokenModel::Assign), acc))
            }
        },
    }
}

/// What the scanner emits when the input ends in state `st` with accumulated
/// text `acc`: nothing from `Start`; the finished token from a state that has
/// a complete token in hand; a failure where a digit was still required.
pub open spec fn spec_eof(st: LexerStateDescriptor, acc: Seq<char>) -> Result<
    Option<TokenModel>,
    LexError,
> {
    match st {
        LexerStateDescriptor::Start => Ok(None),
        LexerStateDescriptor::InIdentifier => Ok(Some(keyword_or_identifier(acc))),
        LexerStateDescriptor::InNumber => Ok(Some(TokenModel::Number(acc))),
        LexerStateDescriptor::InNumberAfterDot => Err(LexError::UnexpectedEndOfInput),
        LexerStateDescriptor::InFloat => Ok(Some(TokenModel::Number(acc))),
        LexerStateDescriptor::AfterGreaterThan => Ok(Some(TokenModel::Rel(RelOp::GreaterThan))),
        LexerStateDescriptor::AfterLessThan => Ok(Some(TokenModel::Rel(RelOp::LessThan))),
        LexerStateDescriptor::AfterEquals => Ok(Some(TokenModel::Assign)),
    }
}

/// The tokens of the remaining input `rest`, scanned from state `st` with
/// accumulated text `acc`. A pushback step keeps `rest` and returns to
/// `Start`; `Start` never pushes back, so requesting pushback twice in a row
/// is structurally impossible — the guard below makes that evident and never
/// fires.
pub open spec fn spec_lex(st: LexerStateDescriptor, acc: Seq<char>, rest: Seq<char>) -> Result<
    Seq<TokenModel>,
    LexError,
>
    decreases rest.len(), (if st is Start { 0int } else { 1int }),
{
    if rest.len() == 0 {
        match spec_eof(st, acc) {
            Ok(Some(t)) => Ok(seq![t]),
            Ok(None) => Ok(Seq::empty()),
            Err(e) => Err(e),
        }
    } else {
        match spec_step(st, rest[0], acc) {
            Err(e) => Err(e),
            Ok((pushback, st2, emitted, acc2)) => {
                if pushback && !(st2 is Start && !(st is Start)) {
                    Err(LexError::UnexpectedEndOfInput)
                } else {
                    let rest2 = if pushback {
                        rest
                    } else {
                        rest.drop_first()
                    };
                    match spec_lex(st2, acc2, rest2) {
                        Err(e) => Err(e),
                        Ok(ts) => Ok(
                            match emitted {
                                Some(t) => seq![t] + ts,
                                None => ts,
                            },
                        ),
                    }
                }
            },
        }
    }
}

/// The token sequence of a whole input, or the first scanning failure.
pub open spec fn spec_tokenize(s: Seq<char>) -> Result<Seq<TokenModel>, LexError> {
    spec_lex(LexerStateDescriptor::Start, Seq::empty(), s)
}

// ---------------------------------------------------------------------------
// Executable scanning.
// ---------------------------------------------------------------------------
/// The characters of `v`, as a string.
fn chars_to_string(v: &Vec<char>) -> (s: String)
    ensures
        s@ == v@,
{
    let mut s = String::new();
    let mut i: usize = 0;
    while i < v.len()
        invariant
            i <= v.len(),
            s@ == v@.subrange(0, i as int),
        decreases v.len() - i,
    {
        s.push(v[i]);
        i += 1;
        proof {
            assert(s@ =~= v@.subrange(0, i as int));
        }
    }
    proof {
        assert(s@ =~= v@);
    }
    s
}

/// Finishes the identifier accumulated in `id`: a keyword token where the text
/// matches one of the keywords, otherwise an identifier token carrying the
/// text. Clears the accumulator.
fn finish_id(id: &mut Vec<char>) -> (t: LexerToken)
    ensures
        t.wf(),
        t@ == keyword_or_identifier(old(id)@),
        final(id)@ == Seq::<char>::empty(),
{
    proof {
        assert(id@ == seq!['d', 'e', 'f'] <==> (id@.len() == 3 && id@[0] == 'd' && id@[1] == 'e'
            && id@[2] == 'f')) by {
            if id@.len() == 3 && id@[0] == 'd' && id@[1] == 'e' && id@[2] == 'f' {
                assert(id@ =~= seq!['d', 'e', 'f']);
            }
        }
        assert(id@ == seq!['r', 'e', 't', 'u', 'r', 'n'] <==> (id@.len() == 6 && id@[0] == 'r'
            && id@[1] == 'e' && id@[2] == 't' && id@[3] == 'u' && id@[4] == 'r' && id@[5]
            == 'n')) by {
            if id@.len() == 6 && id@[0] == 'r' && id@[1] == 'e' && id@[2] == 't' && id@[3] == 'u'
                && id@[4] == 'r' && id@[5] == 'n' {
                assert(id@ =~= seq!['r', 'e', 't', 'u', 'r', 'n']);
            }
        }
        assert(id@ == seq!['i', 'f'] <==> (id@.len() == 2 && id@[0] == 'i' && id@[1] == 'f')) by {
            if id@.len() == 2 && id@[0] == 'i' && id@[1] == 'f' {
                assert(id@ =~= seq!['i', 'f']);
            }
        }
        assert(id@ == seq!['t', 'h', 'e', 'n'] <==> (id@.len() == 4 && id@[0] == 't' && id@[1]
            == 'h' && id@[2] == 'e' && id@[3] == 'n')) by {
            if id@.len() == 4 && id@[0] == 't' && id@[1] == 'h' && id@[2] == 'e' && id@[3] == 'n' {
                assert(id@ =~= seq!['t', 'h', 'e', 'n']);
            }
        }
        assert(id@ == seq!['e', 'l', 's', 'e'] <==> (id@.len() == 4 && id@[0] == 'e' && id@[1]
            == 'l' && id@[2] == 's' && id@[3] == 'e')) by {
            if id@.len() == 4 && id@[0] == 'e' && id@[1] == 'l' && id@[2] == 's' && id@[3] == 'e' {
                assert(id@ =~= seq!['e', 'l', 's', 'e']);
            }
        }
    }
    let t = if id.len() == 3 && id[0] == 'd' && id[1] == 'e' && id[2] == 'f' {
        LexerToken::from_single(TokenType::Def)
    } else if id.len() == 6 && id[0] == 'r' && id[1] == 'e' && id[2] == 't' && id[3] == 'u' && id[4]
        == 'r' && id[5] == 'n' {
        LexerToken::from_single(TokenType::Return)
    } else if id.len() == 2 && id[0] == 'i' && id[1] == 'f' {
        LexerToken::from_single(TokenType::If)
    } else if id.len() == 4 && id[0] == 't' && id[1] == 'h' && id[2] == 'e' && id[3] == 'n' {
        LexerToken::from_single(TokenType::Then)
    } else if id.len() == 4 && id[0] == 'e' && id[1] == 'l' && id[2] == 's' && id[3] == 'e' {
        LexerToken::from_single(TokenType::Else)
    } else {
        LexerToken::from_label(chars_to_string(id))
    };
    id.clear();
    t
}

/// Finishes the numeric literal accumulated in `id`: a numeric token carrying
/// the exact text. Clears the accumulator.
fn finish_number(id: &mut Vec<char>) -> (t: LexerToken)
    ensures
        t.wf(),
        t@ == TokenModel::Number(old(id)@),
        final(id)@ == Seq::<char>::empty(),
{
    let t = LexerToken::from_number(chars_to_string(id));
    id.clear();
    t
}

/// One transition of the scanner: reads `cur_char` in state `state` with the
/// partial token `id`, and returns whether the character was pushed back, the
/// next state and the emitted token, exactly as [`spec_step`] says.
fn process_state(state: LexerStateDescriptor, cur_char: char, id: &mut Vec<char>) -> (r: Result<
    (StateResponse, LexerStateDescriptor, Option<LexerToken>),
    LexError,
>)
    ensures
        match r {
            Ok((resp, st2, emitted)) => {
                &&& spec_step(state, cur_char, old(id)@) matches Ok(m) && m == (
                (resp is Backtrace),
                st2,
                match emitted {
                    Some(t) => Some(t@),
                    None => None::<TokenModel>,
                },
                final(id)@,
                )
                &&& (emitted matches Some(t) ==> t.wf())
                &&& (resp is Backtrace ==> st2 is Start && !(state is Start))
            },
            Err(e) => spec_step(state, cur_char, old(id)@) == Err::<
                (bool, LexerStateDescriptor, Option<TokenModel>, Seq<char>),
                LexError,
            >(e),
        },
{
    match state {
        LexerStateDescriptor::Start => {
            // The start state; single-character tokens are emitted from here.
            if char_is_whitespace(cur_char) {
                Ok((StateResponse::Continue, LexerStateDescriptor::Start, None))
            } else if char_is_alphabetic(cur_char) {
                id.push(cur_char);
                Ok((StateResponse::Continue, LexerStateDescriptor::InIdentifier, None))
            } else if char_is_numeric(cur_char) {
                id.push(cur_char);
                Ok((StateResponse::Continue, LexerStateDescriptor::InNumber, None))
            } else {
                match cur_char {
                    '(' => Ok(
                        (
                            StateResponse::Continue,
                            LexerStateDescriptor::Start,
                            Some(LexerToken::from_single(TokenType::LParen)),
                        ),
                    ),
                    ')' => Ok(
                        (
                            StateResponse::Continue,
                            LexerStateDescriptor::Start,
                            Some(LexerToken::from_single(TokenType::RParen)),
                        ),
                    ),
                    ',' => Ok(
                        (
                            StateResponse::Continue,
                            LexerStateDescriptor::Start,
                            Some(LexerToken::from_single(TokenType::Comma)),
                        ),
                    ),
                    '+' => Ok(
                        (
                            StateResponse::Continue,
                            LexerStateDescriptor::Start,
                            Some(LexerToken::from_sum_op(SumOp::Add)),
                        ),
                    ),
                    '-' => Ok(
                        (
                            StateResponse::Continue,
                            LexerStateDescriptor::Start,
                            Some(LexerToken::from_sum_op(SumOp::Subtract)),
                        ),
                    ),
                    '*' => Ok(
                        (
                            StateResponse::Continue,
                            LexerStateDescriptor::Start,
                            Some(LexerToken::from_mul_op(MulOp::Multiply)),
                        ),
                    ),
                    '/' => Ok(
                        (
                            StateResponse::Continue,
                            LexerStateDescriptor::Start,
                            Some(LexerToken::from_mul_op(MulOp::Divide)),
                        ),
                    ),
                    '>' => Ok(
                        (StateResponse::Continue, LexerStateDescriptor::AfterGreaterThan, None),
                    ),
                    '<' => Ok((StateResponse::Continue, LexerStateDescriptor::AfterLessThan, None)),
                    '=' => Ok((StateResponse::Continue, LexerStateDescriptor::AfterEquals, None)),
                    _ => Err(LexError::UnrecognizedCharacter),
                }
            }
        },
        LexerStateDescriptor::InIdentifier => {
            // An alphanumeric identifier; keywords are matched when it ends.
            if char_is_alphanumeric(cur_char) {
                id.push(cur_char);
                Ok((StateResponse::Continue, LexerStateDescriptor::InIdentifier, None))
            } else {
                Ok((StateResponse::Backtrace, LexerStateDescriptor::Start, Some(finish_id(id))))
            }
        },
        LexerStateDescriptor::InNumber => {
            // A numeric literal so far made of digits only.
            if char_is_numeric(cur_char) {
                id.push(cur_char);
                Ok((StateResponse::Continue, LexerStateDescriptor::InNumber, None))
            } else if cur_char == '.' {
                id.push(cur_char);
                Ok((StateResponse::Continue, LexerStateDescriptor::InNumberAfterDot, None))
            } else {
                Ok((StateResponse::Backtrace, LexerStateDescriptor::Start, Some(finish_number(id))))
            }
        },
        LexerStateDescriptor::InNumberAfterDot => {
            // A numeric literal just after its `.`: a digit must follow.
            if char_is_numeric(cur_char) {
                id.push(cur_char);
                Ok((StateResponse::Continue, LexerStateDescriptor::InFloat, None))
            } else {
                Err(LexError::MalformedFloat)
            }
        },
        LexerStateDescriptor::InFloat => {
            // A numeric literal with digits on both sides of its `.`.
            if char_is_numeric(cur_char) {
                id.push(cur_char);
                Ok((StateResponse::Continue, LexerStateDescriptor::InFloat, None))
            } else {
                Ok((StateResponse::Backtrace, LexerStateDescriptor::Start, Some(finish_number(id))))
            }
        },
        LexerStateDescriptor::AfterGreaterThan => {
            // A `>`, which `=` may extend to `>=`.
            if cur_char == '=' {
                Ok(
                    (
                        StateResponse::Continue,
                        LexerStateDescriptor::Start,
                        Some(LexerToken::from_rel_op(RelOp::GreaterThanEq)),
                    ),
                )
            } else {
                Ok(
                    (
                        StateResponse::Backtrace,
                        LexerStateDescriptor::Start,
                        Some(LexerToken::from_rel_op(RelOp::GreaterThan)),
                    ),
                )
            }
        },
        LexerStateDescriptor::AfterLessThan => {
            // A `<`, which `=` may extend to `<=`.
            if cur_char == '=' {
                Ok(
                    (
                        StateResponse::Continue,
                        LexerStateDescriptor::Start,
                        Some(LexerToken::from_rel_op(RelOp::LessThanEq)),
                    ),
                )
            } else {
                Ok(
                    (
                        StateResponse::Backtrace,
                        LexerStateDescriptor::Start,
                        Some(LexerToken::from_rel_op(RelOp::LessThan)),
                    ),
                )
            }
        },
        LexerStateDescriptor::AfterEquals => {
            // An `=`: an equality lead-in, or a bare assignment token.
            match cur_char {
                '=' => Ok(
                    (
                        StateResponse::Continue,
                        LexerStateDescriptor::Start,
                        Some(LexerToken::from_rel_op(RelOp::Equal)),
                    ),
                ),
                '<' => Ok(
                    (
                        StateResponse::Continue,
                        LexerStateDescriptor::Start,
                        Some(LexerToken::from_rel_op(RelOp::LessThanEq)),
                    ),
                ),
                '>' => Ok(
                    (
                        StateResponse::Continue,
                        LexerStateDescriptor::Start,
                        Some(LexerToken::from_rel_op(RelOp::GreaterThanEq)),
                    ),
                ),
                _ => Ok(
                    (
                        StateResponse::Backtrace,
                        LexerStateDescriptor::Start,
                        Some(LexerToken::from_single(TokenType::Assign)),
                    ),
                ),
            }
        },
    }
}

/// What the scanner does at the end of the input, exactly as [`spec_eof`]
/// says.
fn process_eof(state: LexerStateDescriptor, id: &mut Vec<char>) -> (r: Result<
    Option<LexerToken>,
    LexError,
>)
    ensures
        match r {
            Ok(Some(t)) => spec_eof(state, old(id)@) == Ok::<_, LexError>(Some(t@)) && t.wf(),
            Ok(None) => spec_eof(state, old(id)@) == Ok::<Option<TokenModel>, LexError>(None),
            Err(e) => spec_eof(state, old(id)@) == Err::<Option<TokenModel>, LexError>(e),
        },
{
    match state {
        LexerStateDescriptor::Start => Ok(None),
        LexerStateDescriptor::InIdentifier => Ok(Some(finish_id(id))),
        LexerStateDescriptor::InNumber => Ok(Some(finish_number(id))),
        LexerStateDescriptor::InNumberAfterDot => Err(LexError::UnexpectedEndOfInput),
        LexerStateDescriptor::InFloat => Ok(Some(finish_number(id))),
        LexerStateDescriptor::AfterGreaterThan => Ok(
            Some(LexerToken::from_rel_op(RelOp::GreaterThan)),
        ),
        LexerStateDescriptor::AfterLessThan => Ok(Some(LexerToken::from_rel_op(RelOp::LessThan))),
        LexerStateDescriptor::AfterEquals => Ok(Some(LexerToken::from_single(TokenType::Assign))),
    }
}

/// The scanner never emits a token while staying in an intermediate state:
/// every transition that emits one returns control to `Start`, and only an
/// intermediate state ever pushes its character back — so pushback twice in a
/// row is impossible.
pub proof fn lemma_emitting_steps_return_to_start(st: LexerStateDescriptor, c: char, acc: Seq<char>)
    ensures
        spec_step(st, c, acc) matches Ok((pushback, st2, emitted, _)) ==> {
            &&& (emitted is Some ==> st2 is Start)
            &&& (pushback ==> st2 is Start && !(st is Start))
        },
{
}

/// An input consisting solely of whitespace scans to the empty token
/// sequence.
pub proof fn lemma_whitespace_only_tokenizes_empty(s: Seq<char>)
    requires
        forall|i: int| 0 <= i < s.len() ==> is_space_char(#[trigger] s[i]),
    ensures
        spec_tokenize(s) == Ok::<Seq<TokenModel>, LexError>(Seq::empty()),
    decreases s.len(),
{
    if s.len() > 0 {
        lemma_whitespace_only_tokenizes_empty(s.drop_first());
    }
}

// ---------------------------------------------------------------------------
// The character source with one-character pushback.
// ---------------------------------------------------------------------------
/// The scanner's character source: a cursor over the input text with a
/// one-slot pushback buffer. `latest` holds the character most recently
/// handed out; while `backtrace` is set, the next pull re-delivers it instead
/// of advancing.
pub struct LexerState<'a> {
    /// The scanner's live state.
    pub state: LexerStateDescriptor,
    /// The input text.
    pub text: &'a str,
    /// The number of characters of `text`.
    pub length: usize,
    /// How many characters have been pulled so far.
    pub idx: usize,
    /// The character most recently handed out, if any.
    pub latest: Option<char>,
    /// Whether the next pull re-delivers `latest`.
    pub backtrace: bool,
}

impl<'a> LexerState<'a> {
    /// The cursor stays inside the text, and a pending pushback always has the
    /// character it will re-deliver.
    pub open spec fn wf(self) -> bool {
        &&& self.length == self.text@.len()
        &&& self.idx <= self.length
        &&& (self.backtrace ==> 1 <= self.idx && self.latest == Some(self.text@[self.idx - 1]))
    }

    /// A fresh source at the start of `text`, in the scanner's start state.
    pub fn new(text: &'a str) -> (s: Self)
        ensures
            s.wf(),
            s.state is Start,
            s.text@ == text@,
            s.idx == 0,
            !s.backtrace,
    {
        LexerState {
            state: LexerStateDescriptor::Start,
            text,
            length: text.unicode_len(),
            idx: 0,
            latest: None,
            backtrace: false,
        }
    }

    /// The next character of the text, or `None` at the end. While a pushback
    /// is pending, re-delivers the pushed-back character without advancing.
    pub fn next(&mut self) -> (r: Option<char>)
        requires
            old(self).wf(),
        ensures
            final(self).wf(),
            final(self).state == old(self).state,
            final(self).text == old(self).text,
            final(self).length == old(self).length,
            !final(self).backtrace,
            final(self).latest == r,
            if old(self).backtrace {
                r == old(self).latest && final(self).idx == old(self).idx
            } else if old(self).idx < old(self).length {
                r == Some(old(self).text@[old(self).idx as int]) && final(self).idx == old(
                    self,
                ).idx + 1
            } else {
                r == None::<char> && final(self).idx == old(self).idx
            },
    {
        if self.backtrace {
            self.backtrace = false;
            return self.latest;
        }
        let next_char: Option<char> = if self.idx < self.length {
            let c = self.text.get_char(self.idx);
            self.idx = self.idx + 1;
            Some(c)
        } else {
            None
        };
        self.latest = next_char;
        next_char
    }

    /// Pushes the character most recently handed out back, to be re-delivered
    /// by the next pull. At most one character can be pending at a time, so a
    /// second pushback before the next pull is ruled out.
    pub fn backtrace(&mut self)
        requires
            old(self).wf(),
            !old(self).backtrace,
            1 <= old(self).idx,
            old(self).latest == Some(old(self).text@[old(self).idx - 1]),
        ensures
            final(self).wf(),
            *final(self) == (LexerState { backtrace: true, ..*old(self) }),
    {
        self.backtrace = true;
    }
}

// ---------------------------------------------------------------------------
// The scanner.
// ---------------------------------------------------------------------------
/// The characters the source `s` has not yet delivered, a pending pushback
/// included.
pub open spec fn remaining_chars(s: LexerState<'_>) -> Seq<char> {
    s.text@.subrange(
        s.idx - (if s.backtrace {
            1int
        } else {
            0int
        }),
        s.text@.len() as int,
    )
}

/// Scans the whole input into its token sequence, or fails with the first
/// scanning error, exactly as [`spec_tokenize`] says.
pub fn lex_string(text: String) -> (r: Result<Vec<LexerToken>, LexError>)
    ensures
        match r {
            Ok(tokens) => spec_tokenize(text@) == Ok::<_, LexError>(
                tokens@.map_values(|t: LexerToken| t@),
            ) && (forall|i: int| 0 <= i < tokens.len() ==> (#[trigger] tokens[i]).wf()),
            Err(e) => spec_tokenize(text@) == Err::<Seq<TokenModel>, LexError>(e),
        },
{
    let mut state = LexerState::new(text.as_str());
    let mut cur_str: Vec<char> = Vec::new();
    let mut tokens: Vec<LexerToken> = Vec::new();

    proof {
        assert(remaining_chars(state) =~= text@);
        assert(tokens@.map_values(|t: LexerToken| t@) =~= Seq::<TokenModel>::empty());
        match spec_lex(state.state, cur_str@, remaining_chars(state)) {
            Ok(ts) => {
                assert(Seq::<TokenModel>::empty() + ts =~= ts);
            },
            Err(_) => {},
        }
    }
    loop
        invariant
            state.wf(),
            state.text@ == text@,
            state.backtrace ==> state.state is Start,
            forall|i: int| 0 <= i < tokens.len() ==> (#[trigger] tokens[i]).wf(),
            match spec_lex(state.state, cur_str@, remaining_chars(state)) {
                Ok(ts) => spec_tokenize(text@) == Ok::<_, LexError>(
                    tokens@.map_values(|t: LexerToken| t@) + ts,
                ),
                Err(e) => spec_tokenize(text@) == Err::<Seq<TokenModel>, LexError>(e),
            },
        ensures
            forall|i: int| 0 <= i < tokens.len() ==> (#[trigger] tokens[i]).wf(),
            remaining_chars(state) == Seq::<char>::empty(),
            match spec_lex(state.state, cur_str@, remaining_chars(state)) {
                Ok(ts) => spec_tokenize(text@) == Ok::<_, LexError>(
                    tokens@.map_values(|t: LexerToken| t@) + ts,
                ),
                Err(e) => spec_tokenize(text@) == Err::<Seq<TokenModel>, LexError>(e),
            },
        decreases remaining_chars(state).len(), (if state.backtrace { 0int } else { 1int }),
    {
        let ghost prev = state;
        let ghost rem0 = remaining_chars(state);
        let cur_char = match state.next() {
            None => {
                proof {
                    assert(remaining_chars(state) =~= rem0);
                    assert(rem0 =~= Seq::<char>::empty());
                }
                break ;
            },
            Some(c) => c,
        };
        proof {
            assert(rem0.len() > 0);
            assert(rem0[0] == cur_char);
        }
        match process_state(state.state, cur_char, &mut cur_str) {
            Err(e) => {
                return Err(e);
            },
            Ok((response, descriptor, cur_token)) => {
                let ghost acc0 = cur_str@;
                let ghost done0 = tokens@.map_values(|t: LexerToken| t@);
                let ghost emitted = match &cur_token {
                    Some(t) => Some(t@),
                    None => None::<TokenModel>,
                };
                if let Some(token) = cur_token {
                    tokens.push(token);
                }
                state.state = descriptor;
                if response == StateResponse::Backtrace {
                    state.backtrace();
                }
                proof {
                    let rem1 = remaining_chars(state);
                    if response is Backtrace {
                        assert(rem1 =~= rem0);
                    } else {
                        assert(rem1 =~= rem0.drop_first());
                    }
                    assert(tokens@.map_values(|t: LexerToken| t@) == match emitted {
                        Some(t) => done0 + seq![t],
                        None => done0,
                    }) by {
                        match emitted {
                            Some(t) => {
                                assert(tokens@.map_values(|t: LexerToken| t@) =~= done0 + seq![t]);
                            },
                            None => {},
                        }
                    }
                    if let Some(t) = emitted {
                        assert(done0 + (seq![t] + spec_lex(state.state, cur_str@, rem1).unwrap())
                            =~= (done0 + seq![t]) + spec_lex(state.state, cur_str@, rem1).unwrap());
                    }
                }
            },
        }
    }
    // The source is exhausted; finish whatever token is mid-accumulation.
    proof {
        assert(remaining_chars(state) =~= Seq::<char>::empty());
    }
    match process_eof(state.state, &mut cur_str) {
        Err(e) => Err(e),
        Ok(final_token) => {
            let ghost done0 = tokens@.map_values(|t: LexerToken| t@);
            if let Some(token) = final_token {
                tokens.push(token);
                proof {
                    assert(tokens@.map_values(|t: LexerToken| t@) =~= done0 + seq![token@]);
                    assert(done0 + seq![token@] =~= done0.push(token@));
                }
            }
            proof {
                if final_token is None {
                    assert(tokens@.map_values(|t: LexerToken| t@) + Seq::<TokenModel>::empty()
                        =~= tokens@.map_values(|t: LexerToken| t@));
                }
            }
            Ok(tokens)
        },
    }
}

} // verus!
