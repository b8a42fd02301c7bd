use vstd::prelude::*;

verus! {

/// A grouping parenthesis.
#[derive(Debug, Clone, Copy, PartialEq, Eq, Structural)]
pub enum Parenthesis {
    LeftParenthesis,
    RightParenthesis,
}

/// A repetition brace, as in `{m,n}`.
#[derive(Debug, Clone, Copy, PartialEq, Eq, Structural)]
pub enum CurlyBrace {
    RightCurlyBrace,
    LeftCurlyBrace,
}

/// A character-class bracket.
#[derive(Debug, Clone, Copy, PartialEq, Eq, Structural)]
pub enum Bracket {
    RightBracket,
    LeftBracket,
}

/// A repetition operator.
#[derive(Debug, Clone, Copy, PartialEq, Eq, Structural)]
pub enum Quantifier {
    ZeroOrMore(ZeroOrMore),
    OneOrMore,
}

/// The two spellings of an operator that admits zero repetitions.
#[derive(Debug, Clone, Copy, PartialEq, Eq, Structural)]
pub enum ZeroOrMore {
    Asterisk,
    QuestionMark,
}

/// One lexical unit of a pattern.
#[derive(Debug, Clone, Copy, PartialEq, Eq, Structural)]
pub enum Token {
    /// A character to be matched as it is.
    ElementToken(char),
    /// `.`: any character.
    WildCardToken,
    /// `^` at the very start of the pattern.
    StartToken,
    /// `$`.
    EndToken,
    /// `,` inside a repetition brace.
    CommaToken,
    Parenthesis(Parenthesis),
    CurlyBrace(CurlyBrace),
    Bracket(Bracket),
    Quantifier(Quantifier),
    /// `|`.
    OrToken,
    /// `^` anywhere but at the start.
    NotToken,
    /// `-`.
    DashToken,
}

/// Where the scanner stands between two characters.
#[derive(Debug, Clone, Copy, PartialEq, Eq, Structural)]
pub enum ScanState {
    /// Characters carry their usual meaning.
    Normal,
    /// A backslash was read: the next character is taken literally.
    EscapePending,
    /// Inside `{ ... }`: only digits, commas and `}` are allowed.
    InBraceBody,
}

/// The one lexical error: a character other than a digit, `,` or `}`
/// inside a repetition brace.
#[derive(Debug, Clone, Copy, PartialEq, Eq, Structural)]
pub struct LexerError {
    /// Zero-based character position of the offending character.
    pub position: usize,
    /// The offending character.
    pub found: char,
}

} // verus!
