use vstd::prelude::*;

use crate::lexer::{escaped, lex, lexer_result, plain_token, scan_prefix};
use crate::token::{LexerError, ScanState, Token};

verus! {

/// The characters that mean something other than themselves outside a brace.
pub open spec fn is_special(c: char) -> bool {
    c == '\\' || c == '^' || c == '$' || c == '.' || c == '*' || c == '?' || c == '+'
        || c == '|' || c == '(' || c == ')' || c == '-' || c == '[' || c == ']'
        || c == '{' || c == '}'
}

/// The scan of a prefix does not depend on what follows it.
pub proof fn lemma_prefix_independent(s: Seq<char>, rest: Seq<char>, n: nat)
    requires
        n <= s.len(),
    ensures
        scan_prefix(s + rest, n) == scan_prefix(s, n),
    decreases n,
{
    if n > 0 {
        lemma_prefix_independent(s, rest, (n - 1) as nat);
        assert((s + rest)[n - 1] == s[n - 1]);
    }
}

/// Scanning more characters only appends tokens to those already emitted.
pub proof fn lemma_tokens_grow(s: Seq<char>, m: nat, n: nat)
    requires
        m <= n <= s.len(),
        scan_prefix(s, n) is Ok,
    ensures
        scan_prefix(s, m) is Ok,
        scan_prefix(s, m)->Ok_0.1.len() <= scan_prefix(s, n)->Ok_0.1.len(),
        scan_prefix(s, m)->Ok_0.1 =~= scan_prefix(s, n)->Ok_0.1.subrange(
            0,
            scan_prefix(s, m)->Ok_0.1.len() as int,
        ),
    decreases n - m,
{
    if m < n {
        lemma_tokens_grow(s, m, (n - 1) as nat);
    }
}

/// The empty pattern scans without error to no tokens.
pub proof fn lemma_empty_pattern()
    ensures
        lex(Seq::empty()) == Ok::<Seq<Token>, nat>(Seq::empty()),
{
}

/// A pattern of one character that has no special meaning scans to one
/// literal token holding that character.
pub proof fn lemma_single_ordinary_char(c: char)
    requires
        !is_special(c),
    ensures
        lex(seq![c]) == Ok::<Seq<Token>, nat>(seq![Token::ElementToken(c)]),
{
    assert(scan_prefix(seq![c], 0) == Ok::<(ScanState, Seq<Token>), nat>(
        (ScanState::Normal, Seq::empty()),
    ));
    assert(Seq::<Token>::empty() + seq![Token::ElementToken(c)] =~= seq![Token::ElementToken(c)]);
}

/// After a pattern that leaves the scanner in its normal state, a backslash
/// followed by `c` adds exactly one literal token: a tab for `t`, and `c`
/// itself for every other character, special ones included.
pub proof fn lemma_escape(s: Seq<char>, c: char, toks: Seq<Token>)
    requires
        scan_prefix(s, s.len()) == Ok::<(ScanState, Seq<Token>), nat>((ScanState::Normal, toks)),
    ensures
        lex(s + seq!['\\', c]) == Ok::<Seq<Token>, nat>(toks.push(Token::ElementToken(escaped(c)))),
{
    let t = s + seq!['\\', c];
    lemma_prefix_independent(s, seq!['\\', c], s.len());
    assert(t[s.len() as int] == '\\');
    assert(t[s.len() + 1int] == c);
    assert(scan_prefix(t, s.len() + 1) == Ok::<(ScanState, Seq<Token>), nat>(
        (ScanState::EscapePending, toks + Seq::empty()),
    ));
    assert(toks + Seq::<Token>::empty() =~= toks);
    assert(toks + seq![Token::ElementToken(escaped(c))] =~= toks.push(Token::ElementToken(escaped(c))));
}

/// After a pattern that leaves the scanner in its normal state, a character
/// other than `\` and `{` adds exactly its own token: a `,` or a digit is
/// a literal there, `$` is the end anchor, and `^` is the start anchor only
/// as the first character of the pattern.
pub proof fn lemma_append_plain(s: Seq<char>, c: char, toks: Seq<Token>)
    requires
        c != '\\',
        c != '{',
        scan_prefix(s, s.len()) == Ok::<(ScanState, Seq<Token>), nat>((ScanState::Normal, toks)),
    ensures
        lex(s.push(c)) == Ok::<Seq<Token>, nat>(toks.push(plain_token(c, s.len() == 0))),
{
    lemma_prefix_independent(s, seq![c], s.len());
    assert(s.push(c) =~= s + seq![c]);
    assert(s.push(c)[s.len() as int] == c);
    assert(toks + seq![plain_token(c, s.len() == 0)] =~= toks.push(plain_token(c, s.len() == 0)));
}

/// A pattern that starts with `^` and scans without error has the start
/// anchor as its first token.
pub proof fn lemma_leading_caret(s: Seq<char>)
    requires
        s.len() > 0,
        s[0] == '^',
        lex(s) is Ok,
    ensures
        lex(s)->Ok_0.len() > 0,
        lex(s)->Ok_0[0] == Token::StartToken,
{
    lemma_tokens_grow(s, 1, s.len());
    assert(scan_prefix(s, 0) == Ok::<(ScanState, Seq<Token>), nat>(
        (ScanState::Normal, Seq::empty()),
    ));
    assert(scan_prefix(s, 1)->Ok_0.1 =~= seq![Token::StartToken]);
    let all = scan_prefix(s, s.len())->Ok_0.1;
    assert(lex(s)->Ok_0 == all);
    assert(all.subrange(0, 1)[0] == all[0]);
}

/// The scan is a function of the pattern: two results that both meet the
/// contract of `lexer` on the same pattern are the same.
pub proof fn lemma_lexer_deterministic(
    s: Seq<char>,
    r1: Result<Vec<Token>, LexerError>,
    r2: Result<Vec<Token>, LexerError>,
)
    requires
        lexer_result(s, r1),
        lexer_result(s, r2),
    ensures
        r1 is Ok <==> r2 is Ok,
        r1 is Ok ==> r1->Ok_0@ == r2->Ok_0@,
        r1 is Err ==> r1->Err_0 == r2->Err_0,
{
    if r1 is Err && r2 is Err {
        let e1 = r1->Err_0;
        let e2 = r2->Err_0;
        assert(e1.position as nat == e2.position as nat);
    }
}

} // verus!
