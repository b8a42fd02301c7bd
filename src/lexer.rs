use vstd::prelude::*;
use vstd::string::StrSliceExecFns;

use crate::token::{
    Bracket, CurlyBrace, LexerError, Parenthesis, Quantifier, ScanState, Token, ZeroOrMore,
};

verus! {

/// The ASCII decimal digits, the only characters besides `,` and `}`
/// allowed inside a repetition brace.
pub open spec fn is_digit(c: char) -> bool {
    '0' <= c && c <= '9'
}

/// The character an escaped `c` stands for: `\t` is a tab, every other
/// character stands for itself.
pub open spec fn escaped(c: char) -> char {
    if c == 't' {
        '\t'
    } else {
        c
    }
}

/// The token of a character read in the normal state, other than `\` and `{`.
/// `at_start` tells whether it is the first character of the pattern.
pub open spec fn plain_token(c: char, at_start: bool) -> Token {
    if c == '^' {
        if at_start {
            Token::StartToken
        } else {
            Token::NotToken
        }
    } else if c == '$' {
        Token::EndToken
    } else if c == '.' {
        Token::WildCardToken
    } else if c == '*' {
        Token::Quantifier(Quantifier::ZeroOrMore(ZeroOrMore::Asterisk))
    } else if c == '?' {
        Token::Quantifier(Quantifier::ZeroOrMore(ZeroOrMore::QuestionMark))
    } else if c == '+' {
        Token::Quantifier(Quantifier::OneOrMore)
    } else if c == '|' {
        Token::OrToken
    } else if c == '(' {
        Token::Parenthesis(Parenthesis::LeftParenthesis)
    } else if c == ')' {
        Token::Parenthesis(Parenthesis::RightParenthesis)
    } else if c == '-' {
        Token::DashToken
    } else if c == '[' {
        Token::Bracket(Bracket::LeftBracket)
    } else if c == ']' {
        Token::Bracket(Bracket::RightBracket)
    } else if c == '}' {
        Token::CurlyBrace(CurlyBrace::RightCurlyBrace)
    } else {
        Token::ElementToken(c)
    }
}

/// One move of the scanner: from state `st`, reading `c`, the next state and
/// the token emitted, if any; `None` where `c` is not allowed in `st`.
pub open spec fn step(st: ScanState, at_start: bool, c: char) -> Option<(ScanState, Option<Token>)> {
    match st {
        ScanState::EscapePending => Some((ScanState::Normal, Some(Token::ElementToken(escaped(c))))),
        ScanState::InBraceBody => {
            if c == ',' {
                Some((ScanState::InBraceBody, Some(Token::CommaToken)))
            } else if is_digit(c) {
                Some((ScanState::InBraceBody, Some(Token::ElementToken(c))))
            } else if c == '}' {
                Some((ScanState::Normal, Some(Token::CurlyBrace(CurlyBrace::RightCurlyBrace))))
            } else {
                None
            }
        },
        ScanState::Normal => {
            if c == '\\' {
                Some((ScanState::EscapePending, None))
            } else if c == '{' {
                Some((ScanState::InBraceBody, Some(Token::CurlyBrace(CurlyBrace::LeftCurlyBrace))))
            } else {
                Some((ScanState::Normal, Some(plain_token(c, at_start))))
            }
        },
    }
}

/// The tokens of an optional token: none or one.
pub open spec fn emitted(o: Option<Token>) -> Seq<Token> {
    match o {
        Some(t) => seq![t],
        None => Seq::empty(),
    }
}

/// The scan of the first `n` characters of `s`: the state reached and the
/// tokens emitted so far, or the position of the first character refused.
pub open spec fn scan_prefix(s: Seq<char>, n: nat) -> Result<(ScanState, Seq<Token>), nat>
    decreases n,
{
    if n == 0 {
        Ok((ScanState::Normal, Seq::empty()))
    } else {
        match scan_prefix(s, (n - 1) as nat) {
            Err(p) => Err(p),
            Ok((st, toks)) => match step(st, n - 1 == 0, s[n - 1]) {
                None => Err((n - 1) as nat),
                Some((next, o)) => Ok((next, toks + emitted(o))),
            },
        }
    }
}

/// The tokens of a whole pattern, or the position of the character that
/// makes it fail. A scan that ends inside a brace or after a lone `\`
/// ends without error.
pub open spec fn lex(s: Seq<char>) -> Result<Seq<Token>, nat> {
    match scan_prefix(s, s.len()) {
        Ok((_, toks)) => Ok(toks),
        Err(p) => Err(p),
    }
}

/// What `lexer` returns on the pattern `s`.
pub open spec fn lexer_result(s: Seq<char>, r: Result<Vec<Token>, LexerError>) -> bool {
    match r {
        Ok(toks) => lex(s) == Ok::<Seq<Token>, nat>(toks@),
        Err(e) => lex(s) == Err::<Seq<Token>, nat>(e.position as nat)
            && e.position < s.len()
            && e.found == s[e.position as int],
    }
}

/// Reads the character `c` at position `pos` in state `st`: appends the
/// token it gives, if any, and returns the next state, or the error where
/// `c` is not allowed in `st`.
pub fn scan_char(st: ScanState, pos: usize, c: char, tokens: &mut Vec<Token>) -> (r: Result<ScanState, LexerError>)
    ensures
        match step(st, pos == 0, c) {
            Some((next, o)) => r == Ok::<ScanState, LexerError>(next)
                && final(tokens)@ == old(tokens)@ + emitted(o),
            None => r == Err::<ScanState, LexerError>((LexerError { position: pos, found: c }))
                && final(tokens)@ == old(tokens)@,
        },
{
    match st {
        ScanState::EscapePending => {
            if c == 't' {
                tokens.push(Token::ElementToken('\t'));
            } else {
                tokens.push(Token::ElementToken(c));
            }
            Ok(ScanState::Normal)
        },
        ScanState::InBraceBody => {
            if c == ',' {
                tokens.push(Token::CommaToken);
                Ok(ScanState::InBraceBody)
            } else if '0' <= c && c <= '9' {
                tokens.push(Token::ElementToken(c));
                Ok(ScanState::InBraceBody)
            } else if c == '}' {
                tokens.push(Token::CurlyBrace(CurlyBrace::RightCurlyBrace));
                Ok(ScanState::Normal)
            } else {
                Err(LexerError { position: pos, found: c })
            }
        },
        ScanState::Normal => {
            if c == '\\' {
                return Ok(ScanState::EscapePending);
            }
            let t = match c {
                '{' => {
                    tokens.push(Token::CurlyBrace(CurlyBrace::LeftCurlyBrace));
                    return Ok(ScanState::InBraceBody);
                },
                '^' => if pos == 0 {
                    Token::StartToken
                } else {
                    Token::NotToken
                },
                '$' => Token::EndToken,
                '.' => Token::WildCardToken,
                '*' => Token::Quantifier(Quantifier::ZeroOrMore(ZeroOrMore::Asterisk)),
                '?' => Token::Quantifier(Quantifier::ZeroOrMore(ZeroOrMore::QuestionMark)),
                '+' => Token::Quantifier(Quantifier::OneOrMore),
                '|' => Token::OrToken,
                '(' => Token::Parenthesis(Parenthesis::LeftParenthesis),
                ')' => Token::Parenthesis(Parenthesis::RightParenthesis),
                '-' => Token::DashToken,
                '[' => Token::Bracket(Bracket::LeftBracket),
                ']' => Token::Bracket(Bracket::RightBracket),
                '}' => Token::CurlyBrace(CurlyBrace::RightCurlyBrace),
                _ => Token::ElementToken(c),
            };
            tokens.push(t);
            Ok(ScanState::Normal)
        },
    }
}

/// Scans the pattern `s` from left to right into its tokens.
pub fn lexer(s: &str) -> (r: Result<Vec<Token>, LexerError>)
    ensures
        lexer_result(s@, r),
{
    let n = s.unicode_len();
    let mut tokens: Vec<Token> = Vec::new();
    let mut st = ScanState::Normal;
    let mut i: usize = 0;
    while i < n
        invariant
            n == s@.len(),
            i <= n,
            scan_prefix(s@, i as nat) == Ok::<(ScanState, Seq<Token>), nat>((st, tokens@)),
        decreases n - i,
    {
        let c = s.get_char(i);
        match scan_char(st, i, c, &mut tokens) {
            Ok(next) => st = next,
            Err(e) => {
                assert(scan_prefix(s@, (i + 1) as nat) == Err::<(ScanState, Seq<Token>), nat>(i as nat));
                proof {
                    lemma_error_persists(s@, (i + 1) as nat, s@.len());
                }
                return Err(e);
            },
        }
        i += 1;
    }
    Ok(tokens)
}

/// Once a prefix fails, every longer prefix fails at the same position.
proof fn lemma_error_persists(s: Seq<char>, m: nat, n: nat)
    requires
        m <= n,
        scan_prefix(s, m) is Err,
    ensures
        scan_prefix(s, n) == scan_prefix(s, m),
    decreases n - m,
{
    if m < n {
        lemma_error_persists(s, m, (n - 1) as nat);
    }
}

} // verus!
