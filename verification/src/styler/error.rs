//! Parse errors: what went wrong and where.

use vstd::prelude::*;

use crate::text::{decimal, decimal_chars, owned, push_chars, push_str};

verus! {

/// What went wrong.
#[derive(Clone, Debug, PartialEq, Eq)]
#[non_exhaustive]
pub enum ErrorKind {
    /// A property this crate does not know about.
    UnknownProperty(String),
    /// A known property with a value it does not accept.
    InvalidValue { property: String, reason: String },
    InvalidSelector(String),
    /// At-rules (`@media`, `@import`, ...) are not supported.
    UnsupportedAtRule(String),
    /// Anything else, such as an unexpected token.
    Syntax(String),
}

/// How an error kind reads in a message.
pub open spec fn kind_text(kind: ErrorKind) -> Seq<char> {
    match kind {
        ErrorKind::UnknownProperty(name) => "unknown property '"@ + name@ + "'"@,
        ErrorKind::InvalidValue { property, reason } => "invalid value for '"@ + property@
            + "': "@ + reason@,
        ErrorKind::InvalidSelector(reason) => "invalid selector: "@ + reason@,
        ErrorKind::UnsupportedAtRule(name) => "unsupported at-rule '@"@ + name@ + "'"@,
        ErrorKind::Syntax(reason) => reason@,
    }
}

impl ErrorKind {
    /// The message, as `Display` gives it.
    pub fn to_string(&self) -> (s: String)
        ensures
            s@ == kind_text(*self),
    {
        let mut s = String::new();
        match self {
            ErrorKind::UnknownProperty(name) => {
                push_str(&mut s, "unknown property '");
                push_str(&mut s, name.as_str());
                push_str(&mut s, "'");
            },
            ErrorKind::InvalidValue { property, reason } => {
                push_str(&mut s, "invalid value for '");
                push_str(&mut s, property.as_str());
                push_str(&mut s, "': ");
                push_str(&mut s, reason.as_str());
            },
            ErrorKind::InvalidSelector(reason) => {
                push_str(&mut s, "invalid selector: ");
                push_str(&mut s, reason.as_str());
            },
            ErrorKind::UnsupportedAtRule(name) => {
                push_str(&mut s, "unsupported at-rule '@");
                push_str(&mut s, name.as_str());
                push_str(&mut s, "'");
            },
            ErrorKind::Syntax(reason) => {
                push_str(&mut s, reason.as_str());
            },
        }
        s
    }
}

/// Something in a stylesheet, declaration block or selector could not be
/// parsed.
#[derive(Debug, Clone, PartialEq, Eq)]
pub struct Error {
    kind: ErrorKind,
    line: u32,
    column: u32,
}

/// How an error reads in a message: its place, then what went wrong.
pub open spec fn error_text(kind: ErrorKind, line: u32, column: u32) -> Seq<char> {
    "line "@ + decimal(line as nat) + ", column "@ + decimal(column as nat) + ": "@ + kind_text(
        kind,
    )
}

impl Error {
    pub closed spec fn spec_kind(&self) -> ErrorKind {
        self.kind
    }

    pub closed spec fn spec_line(&self) -> u32 {
        self.line
    }

    pub closed spec fn spec_column(&self) -> u32 {
        self.column
    }

    /// An error found at a zero-based line, as the tokenizer counts lines,
    /// and a one-based column counted in UTF-16 code units.
    pub fn at(kind: ErrorKind, zero_based_line: u32, column: u32) -> (e: Error)
        requires
            zero_based_line < u32::MAX,
        ensures
            e.spec_kind() == kind,
            e.spec_line() == zero_based_line + 1,
            e.spec_column() == column,
    {
        Error { kind, line: zero_based_line + 1, column }
    }

    pub fn kind(&self) -> (k: &ErrorKind)
        ensures
            *k == self.spec_kind(),
    {
        &self.kind
    }

    /// The line the error was found on, starting at 1.
    pub fn line(&self) -> (l: u32)
        ensures
            l == self.spec_line(),
    {
        self.line
    }

    /// The column the error was found at, starting at 1 and counted in
    /// UTF-16 code units, the way editors count.
    pub fn column(&self) -> (c: u32)
        ensures
            c == self.spec_column(),
    {
        self.column
    }

    /// The message, as `Display` gives it: `line L, column C: what`.
    pub fn to_string(&self) -> (s: String)
        ensures
            s@ == error_text(self.spec_kind(), self.spec_line(), self.spec_column()),
    {
        let mut s = String::new();
        push_str(&mut s, "line ");
        let line = decimal_chars(self.line);
        push_chars(&mut s, line.as_slice());
        push_str(&mut s, ", column ");
        let column = decimal_chars(self.column);
        push_chars(&mut s, column.as_slice());
        push_str(&mut s, ": ");
        let kind = self.kind.to_string();
        push_str(&mut s, kind.as_str());
        proof {
            assert(s@ =~= error_text(self.kind, self.line, self.column));
        }
        s
    }
}

/// A token, as far as an error message describes it.
#[derive(Clone, Debug, PartialEq, Eq)]
pub enum TokenText {
    WhiteSpace,
    BadString,
    BadUrl,
    /// Any other token, written back as CSS.
    Other(String),
}

/// How a token reads in a message.
pub open spec fn token_text(token: TokenText) -> Seq<char> {
    match token {
        TokenText::WhiteSpace => "whitespace"@,
        TokenText::BadString => "unterminated string"@,
        TokenText::BadUrl => "bad url"@,
        TokenText::Other(css) => "'"@ + css@ + "'"@,
    }
}

/// What the selector parser reported, one variant for each it has.
#[derive(Clone, Debug, PartialEq, Eq)]
pub enum SelectorProblem {
    NoQualifiedNameInAttributeSelector(TokenText),
    EmptySelector,
    DanglingCombinator,
    NonCompoundSelector,
    NonPseudoElementAfterSlotted,
    InvalidPseudoElementAfterSlotted,
    InvalidPseudoElementInsideWhere,
    InvalidState,
    UnexpectedTokenInAttributeSelector(TokenText),
    PseudoElementExpectedColon(TokenText),
    PseudoElementExpectedIdent(TokenText),
    NoIdentForPseudo(TokenText),
    UnsupportedPseudoClassOrElement(String),
    UnexpectedIdent(String),
    ExpectedNamespace(String),
    ExpectedBarInAttr(TokenText),
    BadValueInAttr(TokenText),
    InvalidQualNameInAttr(TokenText),
    ExplicitNamespaceUnexpectedToken(TokenText),
    ClassNeedsIdent(TokenText),
}

/// How a selector problem reads after `invalid selector: `.
pub open spec fn selector_text(problem: SelectorProblem) -> Seq<char> {
    match problem {
        SelectorProblem::EmptySelector => "empty selector"@,
        SelectorProblem::DanglingCombinator => "dangling combinator"@,
        SelectorProblem::NonCompoundSelector => "expected a compound selector"@,
        SelectorProblem::UnsupportedPseudoClassOrElement(name) =>
            "unsupported pseudo-class or pseudo-element ':"@ + name@ + "'"@,
        SelectorProblem::UnexpectedIdent(name) => "unexpected identifier '"@ + name@ + "'"@,
        SelectorProblem::ExpectedNamespace(name) => "unknown namespace '"@ + name@ + "'"@,
        SelectorProblem::ClassNeedsIdent(token) => "expected a class name, found "@ + token_text(
            token,
        ),
        SelectorProblem::NoQualifiedNameInAttributeSelector(token) =>
            "expected an attribute name, found "@ + token_text(token),
        SelectorProblem::PseudoElementExpectedColon(token)
        | SelectorProblem::PseudoElementExpectedIdent(token)
        | SelectorProblem::NoIdentForPseudo(token) => "expected a pseudo-class name, found "@
            + token_text(token),
        SelectorProblem::UnexpectedTokenInAttributeSelector(token)
        | SelectorProblem::ExpectedBarInAttr(token)
        | SelectorProblem::BadValueInAttr(token)
        | SelectorProblem::InvalidQualNameInAttr(token)
        | SelectorProblem::ExplicitNamespaceUnexpectedToken(token) => "unexpected "@ + token_text(
            token,
        ) + " in selector"@,
        SelectorProblem::NonPseudoElementAfterSlotted
        | SelectorProblem::InvalidPseudoElementAfterSlotted
        | SelectorProblem::InvalidPseudoElementInsideWhere
        | SelectorProblem::InvalidState => "invalid selector"@,
    }
}

/// What a parse reported: the tokenizer's own kinds of failure, then the
/// styler's.
#[derive(Clone, Debug, PartialEq, Eq)]
pub enum ParseProblem {
    UnexpectedToken(TokenText),
    EndOfInput,
    /// An at-rule, with its name.
    AtRuleInvalid(String),
    AtRuleBodyInvalid,
    /// A rule whose selector did not parse.
    QualifiedRuleInvalid,
    UnknownProperty(String),
    InvalidValue { property: String, reason: String },
    /// A `color()` space the styler does not convert.
    UnsupportedColorSpace(String),
    NegativeValue,
    OutOfRange,
    Selector(SelectorProblem),
}

/// Whether `kind` is the error kind `problem` is reported as.
pub open spec fn reported_as(problem: ParseProblem, kind: ErrorKind) -> bool {
    match problem {
        ParseProblem::UnexpectedToken(token) => kind matches ErrorKind::Syntax(reason) && reason@
            == "unexpected "@ + token_text(token),
        ParseProblem::EndOfInput => kind matches ErrorKind::Syntax(reason) && reason@
            == "unexpected end of input"@,
        ParseProblem::AtRuleInvalid(name) => kind matches ErrorKind::UnsupportedAtRule(n) && n@
            == name@,
        ParseProblem::AtRuleBodyInvalid => kind matches ErrorKind::Syntax(reason) && reason@
            == "invalid at-rule body"@,
        ParseProblem::QualifiedRuleInvalid => kind matches ErrorKind::InvalidSelector(reason)
            && reason@ == "invalid rule"@,
        ParseProblem::UnknownProperty(name) => kind matches ErrorKind::UnknownProperty(n) && n@
            == name@,
        ParseProblem::InvalidValue { property, reason } => kind matches ErrorKind::InvalidValue {
            property: p,
            reason: r,
        } && p@ == property@ && r@ == reason@,
        ParseProblem::UnsupportedColorSpace(space) => kind matches ErrorKind::Syntax(reason)
            && reason@ == "unsupported colour space '"@ + space@ + "'"@,
        ParseProblem::NegativeValue => kind matches ErrorKind::Syntax(reason) && reason@
            == "negative values are not allowed here"@,
        ParseProblem::OutOfRange => kind matches ErrorKind::Syntax(reason) && reason@
            == "value out of range"@,
        ParseProblem::Selector(selector) => kind matches ErrorKind::InvalidSelector(reason)
            && reason@ == selector_text(selector),
    }
}

/// Appends how `token` reads in a message.
fn push_token(s: &mut String, token: &TokenText)
    ensures
        final(s)@ == old(s)@ + token_text(*token),
{
    match token {
        TokenText::WhiteSpace => push_str(s, "whitespace"),
        TokenText::BadString => push_str(s, "unterminated string"),
        TokenText::BadUrl => push_str(s, "bad url"),
        TokenText::Other(css) => {
            push_str(s, "'");
            push_str(s, css.as_str());
            push_str(s, "'");
        },
    }
}

/// The text after `invalid selector: ` for a selector problem.
fn describe_selector(problem: &SelectorProblem) -> (s: String)
    ensures
        s@ == selector_text(*problem),
{
    let mut s = String::new();
    match problem {
        SelectorProblem::EmptySelector => push_str(&mut s, "empty selector"),
        SelectorProblem::DanglingCombinator => push_str(&mut s, "dangling combinator"),
        SelectorProblem::NonCompoundSelector => push_str(&mut s, "expected a compound selector"),
        SelectorProblem::UnsupportedPseudoClassOrElement(name) => {
            push_str(&mut s, "unsupported pseudo-class or pseudo-element ':");
            push_str(&mut s, name.as_str());
            push_str(&mut s, "'");
        },
        SelectorProblem::UnexpectedIdent(name) => {
            push_str(&mut s, "unexpected identifier '");
            push_str(&mut s, name.as_str());
            push_str(&mut s, "'");
        },
        SelectorProblem::ExpectedNamespace(name) => {
            push_str(&mut s, "unknown namespace '");
            push_str(&mut s, name.as_str());
            push_str(&mut s, "'");
        },
        SelectorProblem::ClassNeedsIdent(token) => {
            push_str(&mut s, "expected a class name, found ");
            push_token(&mut s, token);
        },
        SelectorProblem::NoQualifiedNameInAttributeSelector(token) => {
            push_str(&mut s, "expected an attribute name, found ");
            push_token(&mut s, token);
        },
        SelectorProblem::PseudoElementExpectedColon(token)
        | SelectorProblem::PseudoElementExpectedIdent(token)
        | SelectorProblem::NoIdentForPseudo(token) => {
            push_str(&mut s, "expected a pseudo-class name, found ");
            push_token(&mut s, token);
        },
        SelectorProblem::UnexpectedTokenInAttributeSelector(token)
        | SelectorProblem::ExpectedBarInAttr(token)
        | SelectorProblem::BadValueInAttr(token)
        | SelectorProblem::InvalidQualNameInAttr(token)
        | SelectorProblem::ExplicitNamespaceUnexpectedToken(token) => {
            push_str(&mut s, "unexpected ");
            push_token(&mut s, token);
            push_str(&mut s, " in selector");
        },
        SelectorProblem::NonPseudoElementAfterSlotted
        | SelectorProblem::InvalidPseudoElementAfterSlotted
        | SelectorProblem::InvalidPseudoElementInsideWhere
        | SelectorProblem::InvalidState => push_str(&mut s, "invalid selector"),
    }
    proof {
        assert(s@ =~= selector_text(*problem));
    }
    s
}

/// A string holding `prefix` followed by `rest`.
fn joined(prefix: &str, rest: &str) -> (s: String)
    ensures
        s@ == prefix@ + rest@,
{
    let mut s = String::new();
    push_str(&mut s, prefix);
    push_str(&mut s, rest);
    assert(s@ =~= prefix@ + rest@);
    s
}

impl ErrorKind {
    /// The error kind a parse problem is reported as.
    pub fn from_problem(problem: ParseProblem) -> (kind: ErrorKind)
        ensures
            reported_as(problem, kind),
    {
        match problem {
            ParseProblem::UnexpectedToken(token) => {
                let mut s = owned("unexpected ");
                push_token(&mut s, &token);
                ErrorKind::Syntax(s)
            },
            ParseProblem::EndOfInput => ErrorKind::Syntax(owned("unexpected end of input")),
            ParseProblem::AtRuleInvalid(name) => ErrorKind::UnsupportedAtRule(name),
            ParseProblem::AtRuleBodyInvalid => ErrorKind::Syntax(owned("invalid at-rule body")),
            ParseProblem::QualifiedRuleInvalid => ErrorKind::InvalidSelector(owned("invalid rule")),
            ParseProblem::UnknownProperty(name) => ErrorKind::UnknownProperty(name),
            ParseProblem::InvalidValue { property, reason } => ErrorKind::InvalidValue {
                property,
                reason,
            },
            ParseProblem::UnsupportedColorSpace(space) => {
                let mut s = joined("unsupported colour space '", space.as_str());
                push_str(&mut s, "'");
                ErrorKind::Syntax(s)
            },
            ParseProblem::NegativeValue => ErrorKind::Syntax(
                owned("negative values are not allowed here"),
            ),
            ParseProblem::OutOfRange => ErrorKind::Syntax(owned("value out of range")),
            ParseProblem::Selector(selector) => ErrorKind::InvalidSelector(
                describe_selector(&selector),
            ),
        }
    }
}

} // verus!
