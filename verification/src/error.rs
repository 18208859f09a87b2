//! Typed evaluation errors.
//!
//! Lexical and syntax errors abort one formula call and are surfaced to the
//! caller, who is expected to fall back to a default formula; arithmetic
//! degeneracies other than an explicit division by zero are resolved inside
//! the evaluator by value substitution and never appear here.
//!
//! [`SpecError`] is the ghost image of [`EvaluationError`] (byte payloads as
//! sequences), used by the engine's specification functions.

use vstd::prelude::*;
use vstd::string::StringSliceAdditionalSpecFns;

verus! {

/// Why a formula failed to evaluate.
#[derive(Debug, Clone, PartialEq, Eq)]
pub enum EvaluationError {
    /// A character the tokenizer does not recognize.
    UnexpectedChar(u8),
    /// A numeric literal with no digits.
    InvalidNumber(Vec<u8>),
    /// The input ended in the middle of an expression.
    UnexpectedEnd,
    /// A parenthesized expression was not closed.
    ExpectedClosingParen,
    /// A function call's argument list was not closed; names the function.
    ExpectedClosingParenFor(Vec<u8>),
    /// A function name was not followed by `(`; names the function.
    ExpectedOpeningParenFor(Vec<u8>),
    /// An identifier that is neither a variable nor a known function.
    UnknownIdentifier(Vec<u8>),
    /// A token that cannot start a primary expression.
    UnexpectedToken,
    /// A division whose divisor is exactly zero.
    DivisionByZero,
    /// A special-function name outside the supported table.
    UnknownSpecialFunction(Vec<u8>),
    /// Text that matches no complex-number format.
    UnparsableComplex(Vec<u8>),
    /// Text that is not a six-digit hex color.
    InvalidHexColor(Vec<u8>),
}

/// Ghost image of [`EvaluationError`].
pub enum SpecError {
    /// A character the tokenizer does not recognize.
    UnexpectedChar(u8),
    /// A numeric literal with no digits.
    InvalidNumber(Seq<u8>),
    /// The input ended in the middle of an expression.
    UnexpectedEnd,
    /// A parenthesized expression was not closed.
    ExpectedClosingParen,
    /// A function call's argument list was not closed; names the function.
    ExpectedClosingParenFor(Seq<u8>),
    /// A function name was not followed by `(`; names the function.
    ExpectedOpeningParenFor(Seq<u8>),
    /// An identifier that is neither a variable nor a known function.
    UnknownIdentifier(Seq<u8>),
    /// A token that cannot start a primary expression.
    UnexpectedToken,
    /// A division whose divisor is exactly zero.
    DivisionByZero,
    /// A special-function name outside the supported table.
    UnknownSpecialFunction(Seq<u8>),
    /// Text that matches no complex-number format.
    UnparsableComplex(Seq<u8>),
    /// Text that is not a six-digit hex color.
    InvalidHexColor(Seq<u8>),
}

impl DeepView for EvaluationError {
    type V = SpecError;

    open spec fn deep_view(&self) -> SpecError {
        match self {
            EvaluationError::UnexpectedChar(b) => SpecError::UnexpectedChar(*b),
            EvaluationError::InvalidNumber(v) => SpecError::InvalidNumber(v@),
            EvaluationError::UnexpectedEnd => SpecError::UnexpectedEnd,
            EvaluationError::ExpectedClosingParen => SpecError::ExpectedClosingParen,
            EvaluationError::ExpectedClosingParenFor(v) => SpecError::ExpectedClosingParenFor(v@),
            EvaluationError::ExpectedOpeningParenFor(v) => SpecError::ExpectedOpeningParenFor(v@),
            EvaluationError::UnknownIdentifier(v) => SpecError::UnknownIdentifier(v@),
            EvaluationError::UnexpectedToken => SpecError::UnexpectedToken,
            EvaluationError::DivisionByZero => SpecError::DivisionByZero,
            EvaluationError::UnknownSpecialFunction(v) => SpecError::UnknownSpecialFunction(v@),
            EvaluationError::UnparsableComplex(v) => SpecError::UnparsableComplex(v@),
            EvaluationError::InvalidHexColor(v) => SpecError::InvalidHexColor(v@),
        }
    }
}

/// The message bytes for each error, mirroring the engine's wording.
pub open spec fn message_bytes(e: SpecError) -> Seq<u8> {
    match e {
        SpecError::UnexpectedChar(b) => "Unexpected character: ".spec_bytes() + seq![b],
        SpecError::InvalidNumber(v) => "Invalid number: ".spec_bytes() + v,
        SpecError::UnexpectedEnd => "Unexpected end of expression".spec_bytes(),
        SpecError::ExpectedClosingParen => "Expected closing parenthesis".spec_bytes(),
        SpecError::ExpectedClosingParenFor(v) => "Expected closing parenthesis for ".spec_bytes()
            + v,
        SpecError::ExpectedOpeningParenFor(v) => "Expected opening parenthesis for ".spec_bytes()
            + v,
        SpecError::UnknownIdentifier(v) => "Unknown identifier: ".spec_bytes() + v,
        SpecError::UnexpectedToken => "Unexpected token".spec_bytes(),
        SpecError::DivisionByZero => "Division by zero".spec_bytes(),
        SpecError::UnknownSpecialFunction(v) => "Unknown special function: ".spec_bytes() + v,
        SpecError::UnparsableComplex(v) => "Unable to parse complex number: ".spec_bytes() + v,
        SpecError::InvalidHexColor(v) => "Invalid hex color: ".spec_bytes() + v,
    }
}

/// What `String::from_utf8_lossy` decodes the given bytes to.
pub uninterp spec fn utf8_lossy_of(bytes: Seq<u8>) -> Seq<char>;

/// The bytes are all ASCII (below 128).
pub open spec fn all_ascii(v: Seq<u8>) -> bool {
    forall|k: int| 0 <= k < v.len() ==> (#[trigger] v[k]) < 128
}

/// Relies on `String::from_utf8_lossy`: the decoding depends on the bytes
/// alone, and is documented to leave ASCII bytes as the characters with
/// the same codes.
#[verifier::external_body]
fn bytes_to_string(v: &Vec<u8>) -> (r: String)
    ensures
        r@ == utf8_lossy_of(v@),
        all_ascii(v@) ==> r@ == Seq::new(v@.len(), |k: int| v@[k] as char),
{
    String::from_utf8_lossy(v).into_owned()
}

/// Append a byte slice to a vector.
fn push_bytes(dst: &mut Vec<u8>, src: &[u8])
    ensures
        final(dst)@ == old(dst)@ + src@,
{
    let n = src.len();
    let mut i: usize = 0;
    while i < n
        invariant
            i <= n,
            n == src@.len(),
            dst@ == old(dst)@ + src@.subrange(0, i as int),
        decreases n - i,
    {
        dst.push(src[i]);
        proof {
            assert(dst@ =~= old(dst)@ + src@.subrange(0, i + 1));
        }
        i = i + 1;
    }
    proof {
        assert(src@.subrange(0, n as int) =~= src@);
    }
}

impl EvaluationError {
    /// The error's message text: the decoding of [`message_bytes`], which
    /// for an all-ASCII payload is that byte sequence read as characters.
    pub fn message(&self) -> (r: String)
        ensures
            r@ == utf8_lossy_of(message_bytes(self.deep_view())),
            all_ascii(message_bytes(self.deep_view())) ==> r@ == Seq::new(
                message_bytes(self.deep_view()).len(),
                |k: int| message_bytes(self.deep_view())[k] as char,
            ),
    {
        let mut buf: Vec<u8> = Vec::new();
        match self {
            EvaluationError::UnexpectedChar(b) => {
                push_bytes(&mut buf, "Unexpected character: ".as_bytes());
                buf.push(*b);
                proof {
                    assert(buf@ =~= message_bytes(self.deep_view()));
                }
            },
            EvaluationError::InvalidNumber(v) => {
                push_bytes(&mut buf, "Invalid number: ".as_bytes());
                push_bytes(&mut buf, v.as_slice());
                proof {
                    assert(buf@ =~= message_bytes(self.deep_view()));
                }
            },
            EvaluationError::UnexpectedEnd => {
                push_bytes(&mut buf, "Unexpected end of expression".as_bytes());
                proof {
                    assert(buf@ =~= message_bytes(self.deep_view()));
                }
            },
            EvaluationError::ExpectedClosingParen => {
                push_bytes(&mut buf, "Expected closing parenthesis".as_bytes());
                proof {
                    assert(buf@ =~= message_bytes(self.deep_view()));
                }
            },
            EvaluationError::ExpectedClosingParenFor(v) => {
                push_bytes(&mut buf, "Expected closing parenthesis for ".as_bytes());
                push_bytes(&mut buf, v.as_slice());
                proof {
                    assert(buf@ =~= message_bytes(self.deep_view()));
                }
            },
            EvaluationError::ExpectedOpeningParenFor(v) => {
                push_bytes(&mut buf, "Expected opening parenthesis for ".as_bytes());
                push_bytes(&mut buf, v.as_slice());
                proof {
                    assert(buf@ =~= message_bytes(self.deep_view()));
                }
            },
            EvaluationError::UnknownIdentifier(v) => {
                push_bytes(&mut buf, "Unknown identifier: ".as_bytes());
                push_bytes(&mut buf, v.as_slice());
                proof {
                    assert(buf@ =~= message_bytes(self.deep_view()));
                }
            },
            EvaluationError::UnexpectedToken => {
                push_bytes(&mut buf, "Unexpected token".as_bytes());
                proof {
                    assert(buf@ =~= message_bytes(self.deep_view()));
                }
            },
            EvaluationError::DivisionByZero => {
                push_bytes(&mut buf, "Division by zero".as_bytes());
                proof {
                    assert(buf@ =~= message_bytes(self.deep_view()));
                }
            },
            EvaluationError::UnknownSpecialFunction(v) => {
                push_bytes(&mut buf, "Unknown special function: ".as_bytes());
                push_bytes(&mut buf, v.as_slice());
                proof {
                    assert(buf@ =~= message_bytes(self.deep_view()));
                }
            },
            EvaluationError::UnparsableComplex(v) => {
                push_bytes(&mut buf, "Unable to parse complex number: ".as_bytes());
                push_bytes(&mut buf, v.as_slice());
                proof {
                    assert(buf@ =~= message_bytes(self.deep_view()));
                }
            },
            EvaluationError::InvalidHexColor(v) => {
                push_bytes(&mut buf, "Invalid hex color: ".as_bytes());
                push_bytes(&mut buf, v.as_slice());
                proof {
                    assert(buf@ =~= message_bytes(self.deep_view()));
                }
            },
        }
        bytes_to_string(&buf)
    }
}

} // verus!
