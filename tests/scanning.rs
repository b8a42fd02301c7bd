use regex_lexer::{
    lexer, scan_char, Bracket, CurlyBrace, LexerError, Parenthesis, Quantifier, ScanState, Token,
    ZeroOrMore,
};

#[test]
fn empty_pattern_gives_no_tokens() {
    assert_eq!(lexer(""), Ok(vec![]));
}

#[test]
fn ordinary_characters_are_literals() {
    for c in ['a', 'Z', '0', '9', ',', ' ', '~', '!', 'é', '字'] {
        let s = c.to_string();
        assert_eq!(lexer(&s), Ok(vec![Token::ElementToken(c)]));
    }
}

#[test]
fn escaped_t_is_a_tab() {
    assert_eq!(lexer("\\t"), Ok(vec![Token::ElementToken('\t')]));
    assert_ne!(lexer("\\t"), Ok(vec![Token::ElementToken('t')]));
    assert_eq!(lexer("t"), Ok(vec![Token::ElementToken('t')]));
}

#[test]
fn escape_neutralises_special_characters() {
    assert_eq!(lexer("\\."), Ok(vec![Token::ElementToken('.')]));
    assert_eq!(lexer("\\{"), Ok(vec![Token::ElementToken('{')]));
    assert_eq!(lexer("\\\\"), Ok(vec![Token::ElementToken('\\')]));
    assert_eq!(lexer("a\\^"), Ok(vec![Token::ElementToken('a'), Token::ElementToken('^')]));
    assert_eq!(lexer("a\\a"), Ok(vec![Token::ElementToken('a'), Token::ElementToken('a')]));
}

#[test]
fn trailing_backslash_is_dropped() {
    assert_eq!(lexer("a\\"), Ok(vec![Token::ElementToken('a')]));
}

#[test]
fn brace_body_is_scanned() {
    assert_eq!(
        lexer("a{3,5}"),
        Ok(vec![
            Token::ElementToken('a'),
            Token::CurlyBrace(CurlyBrace::LeftCurlyBrace),
            Token::ElementToken('3'),
            Token::CommaToken,
            Token::ElementToken('5'),
            Token::CurlyBrace(CurlyBrace::RightCurlyBrace),
        ])
    );
}

#[test]
fn comma_outside_braces_is_literal() {
    assert_eq!(lexer("a,"), Ok(vec![Token::ElementToken('a'), Token::ElementToken(',')]));
}

#[test]
fn unterminated_brace_is_not_an_error() {
    assert_eq!(
        lexer("{3,"),
        Ok(vec![
            Token::CurlyBrace(CurlyBrace::LeftCurlyBrace),
            Token::ElementToken('3'),
            Token::CommaToken,
        ])
    );
}

#[test]
fn stray_closing_brace_is_accepted() {
    assert_eq!(lexer("}"), Ok(vec![Token::CurlyBrace(CurlyBrace::RightCurlyBrace)]));
}

#[test]
fn bad_brace_body_fails_with_position() {
    assert_eq!(lexer("{a}"), Err(LexerError { position: 1, found: 'a' }));
    assert_eq!(lexer("x{1,^}"), Err(LexerError { position: 4, found: '^' }));
    assert_eq!(lexer("{\\1}"), Err(LexerError { position: 1, found: '\\' }));
}

#[test]
fn caret_is_anchor_only_at_start() {
    assert_eq!(lexer("^a"), Ok(vec![Token::StartToken, Token::ElementToken('a')]));
    assert_eq!(
        lexer("[^a]"),
        Ok(vec![
            Token::Bracket(Bracket::LeftBracket),
            Token::NotToken,
            Token::ElementToken('a'),
            Token::Bracket(Bracket::RightBracket),
        ])
    );
    assert_eq!(lexer("\\a^"), Ok(vec![Token::ElementToken('a'), Token::NotToken]));
}

#[test]
fn dollar_is_end_anchor() {
    assert_eq!(lexer("a$"), Ok(vec![Token::ElementToken('a'), Token::EndToken]));
}

#[test]
fn every_operator_has_its_token() {
    assert_eq!(
        lexer(".*?+|()-[]"),
        Ok(vec![
            Token::WildCardToken,
            Token::Quantifier(Quantifier::ZeroOrMore(ZeroOrMore::Asterisk)),
            Token::Quantifier(Quantifier::ZeroOrMore(ZeroOrMore::QuestionMark)),
            Token::Quantifier(Quantifier::OneOrMore),
            Token::OrToken,
            Token::Parenthesis(Parenthesis::LeftParenthesis),
            Token::Parenthesis(Parenthesis::RightParenthesis),
            Token::DashToken,
            Token::Bracket(Bracket::LeftBracket),
            Token::Bracket(Bracket::RightBracket),
        ])
    );
}

#[test]
fn scanning_twice_gives_the_same_tokens() {
    for p in ["", "a{3,5}|b*", "^[^a-z]+\\.$", "{a}", "(x?)\\t"] {
        assert_eq!(lexer(p), lexer(p));
    }
}

#[test]
fn scan_char_steps_the_state() {
    let mut tokens = Vec::new();
    assert_eq!(scan_char(ScanState::Normal, 0, '{', &mut tokens), Ok(ScanState::InBraceBody));
    assert_eq!(scan_char(ScanState::InBraceBody, 1, '7', &mut tokens), Ok(ScanState::InBraceBody));
    assert_eq!(
        scan_char(ScanState::InBraceBody, 2, 'x', &mut tokens),
        Err(LexerError { position: 2, found: 'x' })
    );
    assert_eq!(scan_char(ScanState::Normal, 3, '\\', &mut tokens), Ok(ScanState::EscapePending));
    assert_eq!(scan_char(ScanState::EscapePending, 4, 't', &mut tokens), Ok(ScanState::Normal));
    assert_eq!(
        tokens,
        vec![
            Token::CurlyBrace(CurlyBrace::LeftCurlyBrace),
            Token::ElementToken('7'),
            Token::ElementToken('\t'),
        ]
    );
}
