//! The lexer: turns source text into a finite token sequence ending in one
//! end-of-file sentinel, pushing a diagnostic for every invalid token and
//! never aborting.
//!
//! Numbers are 64-bit signed integers; a digit run above `i64::MAX` becomes
//! an invalid token. Every token carries the position of its first
//! character; an unterminated string is positioned at end of input.

use vstd::prelude::*;

use crate::character_provider::{
    lemma_advance_subranges, lemma_filtered_next_range, spec_advance_seq, spec_filtered_next,
    CharacterProvider,
};
use crate::error::ErrorV;
use crate::error_handler::ErrorHandler;
use crate::position::Position;
use crate::text::{
    is_digit, is_letter, is_word, parse_digits, spec_digits_value, spec_is_digit, spec_is_letter,
    spec_is_word, string_from_chars,
};
use crate::token::{
    spec_opt_token_view, spec_reserved_word, Literal, LiteralToken, LiteralTokenV, LiteralV,
    Symbol, SymbolToken, Token, TokenV,
};

verus! {

/// The end of the identifier run starting at `i`: the first index holding a
/// character that is not a letter, digit or underscore.
pub open spec fn spec_word_end(s: Seq<char>, i: int) -> int
    recommends
        0 <= i <= s.len(),
    decreases s.len() - i,
{
    if i < s.len() && spec_is_word(s[i]) {
        spec_word_end(s, i + 1)
    } else {
        i
    }
}

/// The end of the digit run starting at `i`.
pub open spec fn spec_digit_end(s: Seq<char>, i: int) -> int
    recommends
        0 <= i <= s.len(),
    decreases s.len() - i,
{
    if i < s.len() && spec_is_digit(s[i]) {
        spec_digit_end(s, i + 1)
    } else {
        i
    }
}

/// The first index at or after `i` holding a double quote, or the length
/// when none is left.
pub open spec fn spec_quote_end(s: Seq<char>, i: int) -> int
    recommends
        0 <= i <= s.len(),
    decreases s.len() - i,
{
    if i < s.len() {
        if s[i] == '"' {
            i
        } else {
            spec_quote_end(s, i + 1)
        }
    } else {
        i
    }
}

pub proof fn lemma_word_end_range(s: Seq<char>, i: int)
    requires
        0 <= i <= s.len(),
    ensures
        i <= spec_word_end(s, i) <= s.len(),
    decreases s.len() - i,
{
    if i < s.len() && spec_is_word(s[i]) {
        lemma_word_end_range(s, i + 1);
    }
}

pub proof fn lemma_digit_end_range(s: Seq<char>, i: int)
    requires
        0 <= i <= s.len(),
    ensures
        i <= spec_digit_end(s, i) <= s.len(),
    decreases s.len() - i,
{
    if i < s.len() && spec_is_digit(s[i]) {
        lemma_digit_end_range(s, i + 1);
    }
}

pub proof fn lemma_quote_end_range(s: Seq<char>, i: int)
    requires
        0 <= i <= s.len(),
    ensures
        i <= spec_quote_end(s, i) <= s.len(),
        spec_quote_end(s, i) < s.len() ==> s[spec_quote_end(s, i)] == '"',
    decreases s.len() - i,
{
    if i < s.len() && s[i] != '"' {
        lemma_quote_end_range(s, i + 1);
    }
}

/// Every character strictly before the end of a digit run is a digit.
pub proof fn lemma_digit_end_chars(s: Seq<char>, i: int)
    requires
        0 <= i <= s.len(),
    ensures
        forall|k: int| i <= k < spec_digit_end(s, i) ==> spec_is_digit(#[trigger] s[k]),
    decreases s.len() - i,
{
    if i < s.len() && spec_is_digit(s[i]) {
        lemma_digit_end_chars(s, i + 1);
    }
}

/// The outcome of classifying one token: the token (`None` once the input
/// is exhausted), the new cursor, and the position of the last consumed
/// character.
pub struct LexStep {
    pub token: Option<TokenV>,
    pub cursor: int,
    pub line: int,
    pub column: int,
}

/// A one-character symbol token; nothing further is consumed.
pub open spec fn spec_lex_sym1(j: int, l1: int, c1: int, symbol: Symbol) -> LexStep {
    LexStep {
        token: Some(
            TokenV::Symbol(
                SymbolToken {
                    position: Position { line: l1 as u32, column: c1 as u32 },
                    symbol,
                },
            ),
        ),
        cursor: j,
        line: l1,
        column: c1,
    }
}

/// Maximal munch for a two-character operator: when the lookahead matches
/// `second`, it is consumed and the two-character symbol is produced.
pub open spec fn spec_lex_sym2(
    s: Seq<char>,
    j: int,
    l1: int,
    c1: int,
    second: char,
    two: Symbol,
    one: Symbol,
) -> LexStep {
    if j < s.len() && s[j] == second {
        LexStep {
            token: Some(
                TokenV::Symbol(
                    SymbolToken {
                        position: Position { line: l1 as u32, column: c1 as u32 },
                        symbol: two,
                    },
                ),
            ),
            cursor: j + 1,
            line: l1,
            column: c1 + 1,
        }
    } else {
        spec_lex_sym1(j, l1, c1, one)
    }
}

/// Classification of the next token of `s` from cursor `i`, where the last
/// consumed character sat at `(line, column)`. Mirrors the per-token rules:
/// identifier and keyword runs, digit runs, maximal-munch symbols, the
/// `()` unit literal, quoted strings, and unknown characters.
pub open spec fn spec_build_token(s: Seq<char>, i: int, line: int, column: int) -> LexStep {
    let fnx = spec_filtered_next(s, i);
    let j = fnx.1;
    let p1 = spec_advance_seq(line, column, s.subrange(i, j));
    let l1 = p1.0;
    let c1 = p1.1;
    match fnx.0 {
        None => LexStep { token: None, cursor: j, line: l1, column: c1 },
        Some(c) => {
            let pos = Position { line: l1 as u32, column: c1 as u32 };
            if spec_is_letter(c) || c == '_' {
                let e = spec_word_end(s, j);
                let lexeme = s.subrange(j - 1, e);
                let p2 = spec_advance_seq(l1, c1, s.subrange(j, e));
                let token = match spec_reserved_word(lexeme, pos.line, pos.column) {
                    Some(t) => t,
                    None => TokenV::Literal(
                        LiteralTokenV { position: pos, literal: LiteralV::Identifier { lexeme } },
                    ),
                };
                LexStep { token: Some(token), cursor: e, line: p2.0, column: p2.1 }
            } else if spec_is_digit(c) {
                let e = spec_digit_end(s, j);
                let lexeme = s.subrange(j - 1, e);
                let p2 = spec_advance_seq(l1, c1, s.subrange(j, e));
                let token = if spec_digits_value(lexeme) <= i64::MAX as nat {
                    TokenV::Literal(
                        LiteralTokenV {
                            position: pos,
                            literal: LiteralV::Number {
                                lexeme: spec_digits_value(lexeme) as i64,
                            },
                        },
                    )
                } else {
                    TokenV::Invalid {
                        error: ErrorV::SyntaxError {
                            position: pos,
                            message: "Failed to parse number"@,
                        },
                    }
                };
                LexStep { token: Some(token), cursor: e, line: p2.0, column: p2.1 }
            } else if c == ';' {
                spec_lex_sym1(j, l1, c1, Symbol::Semicolon)
            } else if c == ',' {
                spec_lex_sym1(j, l1, c1, Symbol::Comma)
            } else if c == '.' {
                spec_lex_sym1(j, l1, c1, Symbol::Period)
            } else if c == ':' {
                spec_lex_sym1(j, l1, c1, Symbol::Colon)
            } else if c == '!' {
                spec_lex_sym2(
                    s,
                    j,
                    l1,
                    c1,
                    '=',
                    Symbol::ExclamationPointEquals,
                    Symbol::ExclamationPoint,
                )
            } else if c == '=' {
                spec_lex_sym2(s, j, l1, c1, '=', Symbol::DoubleEquals, Symbol::Equals)
            } else if c == '+' {
                spec_lex_sym2(s, j, l1, c1, '=', Symbol::PlusEquals, Symbol::Plus)
            } else if c == '-' {
                if j < s.len() && s[j] == '>' {
                    spec_lex_sym2(s, j, l1, c1, '>', Symbol::RightArrow, Symbol::Minus)
                } else {
                    spec_lex_sym2(s, j, l1, c1, '=', Symbol::MinusEquals, Symbol::Minus)
                }
            } else if c == '/' {
                spec_lex_sym2(s, j, l1, c1, '=', Symbol::ForwardSlashEquals, Symbol::ForwardSlash)
            } else if c == '*' {
                spec_lex_sym2(s, j, l1, c1, '=', Symbol::AsteriskEquals, Symbol::Asterisk)
            } else if c == '^' {
                spec_lex_sym2(s, j, l1, c1, '=', Symbol::CaretEquals, Symbol::Caret)
            } else if c == '&' {
                spec_lex_sym2(s, j, l1, c1, '=', Symbol::AmpersandEquals, Symbol::Ampersand)
            } else if c == '(' {
                if j < s.len() && s[j] == ')' {
                    LexStep {
                        token: Some(
                            TokenV::Literal(
                                LiteralTokenV { position: pos, literal: LiteralV::Void },
                            ),
                        ),
                        cursor: j + 1,
                        line: l1,
                        column: c1 + 1,
                    }
                } else {
                    spec_lex_sym1(j, l1, c1, Symbol::LeftParenthesis)
                }
            } else if c == ')' {
                spec_lex_sym1(j, l1, c1, Symbol::RightParenthesis)
            } else if c == '{' {
                spec_lex_sym1(j, l1, c1, Symbol::LeftCurlyBracket)
            } else if c == '}' {
                spec_lex_sym1(j, l1, c1, Symbol::RightCurlyBracket)
            } else if c == '<' {
                spec_lex_sym2(
                    s,
                    j,
                    l1,
                    c1,
                    '=',
                    Symbol::LeftAngledBracketEquals,
                    Symbol::LeftAngledBracket,
                )
            } else if c == '>' {
                spec_lex_sym2(
                    s,
                    j,
                    l1,
                    c1,
                    '=',
                    Symbol::RightAngledBracketEquals,
                    Symbol::RightAngledBracket,
                )
            } else if c == '[' {
                spec_lex_sym1(j, l1, c1, Symbol::LeftSquareBracket)
            } else if c == ']' {
                spec_lex_sym1(j, l1, c1, Symbol::RightSquareBracket)
            } else if c == '\'' {
                spec_lex_sym1(j, l1, c1, Symbol::Apostrophe)
            } else if c == '"' {
                let e = spec_quote_end(s, j);
                if e < s.len() {
                    let p2 = spec_advance_seq(l1, c1, s.subrange(j, e + 1));
                    LexStep {
                        token: Some(
                            TokenV::Literal(
                                LiteralTokenV {
                                    position: pos,
                                    literal: LiteralV::String { lexeme: s.subrange(j, e) },
                                },
                            ),
                        ),
                        cursor: e + 1,
                        line: p2.0,
                        column: p2.1,
                    }
                } else {
                    let p2 = spec_advance_seq(l1, c1, s.subrange(j, e));
                    LexStep {
                        token: Some(
                            TokenV::Invalid {
                                error: ErrorV::UnterminatedString {
                                    position: Position {
                                        line: p2.0 as u32,
                                        column: (p2.1 + 1) as u32,
                                    },
                                },
                            },
                        ),
                        cursor: e,
                        line: p2.0,
                        column: p2.1,
                    }
                }
            } else {
                LexStep {
                    token: Some(
                        TokenV::Invalid {
                            error: ErrorV::UnknownToken { position: pos, token: seq![c] },
                        },
                    ),
                    cursor: j,
                    line: l1,
                    column: c1,
                }
            }
        },
    }
}

/// Classifying a token stays within the source and, when it yields a token,
/// consumes at least one character.
pub proof fn lemma_build_token_range(s: Seq<char>, i: int, line: int, column: int)
    requires
        0 <= i <= s.len(),
    ensures
        spec_build_token(s, i, line, column).cursor <= s.len(),
        spec_build_token(s, i, line, column).cursor >= i,
        spec_build_token(s, i, line, column).token is Some ==> spec_build_token(
            s,
            i,
            line,
            column,
        ).cursor > i,
        spec_build_token(s, i, line, column).token is None ==> spec_build_token(
            s,
            i,
            line,
            column,
        ).cursor == s.len(),
{
    lemma_filtered_next_range(s, i);
    let fnx = spec_filtered_next(s, i);
    let j = fnx.1;
    if fnx.0 is Some {
        lemma_word_end_range(s, j);
        lemma_digit_end_range(s, j);
        lemma_quote_end_range(s, j);
    }
}

/// The token sequence of the whole remaining input: classified tokens up to
/// end of input, then exactly one end-of-file sentinel positioned one
/// column past the last consumed character.
pub open spec fn spec_scan(s: Seq<char>, i: int, line: int, column: int) -> Seq<TokenV>
    decreases s.len() - i,
        when 0 <= i <= s.len()
    via spec_scan_decreases
{
    let st = spec_build_token(s, i, line, column);
    match st.token {
        None => seq![
            TokenV::EndOfFile {
                position: Position { line: st.line as u32, column: (st.column + 1) as u32 },
            },
        ],
        Some(t) => seq![t] + spec_scan(s, st.cursor, st.line, st.column),
    }
}

#[via_fn]
proof fn spec_scan_decreases(s: Seq<char>, i: int, line: int, column: int) {
    lemma_build_token_range(s, i, line, column);
}

/// Consuming one character that is not a newline moves one column right.
proof fn lemma_advance_one(line: int, column: int, s: Seq<char>, j: int)
    requires
        0 <= j < s.len(),
        s[j] != '\n',
    ensures
        spec_advance_seq(line, column, s.subrange(j, j + 1)) == (line, column + 1),
{
    let one = s.subrange(j, j + 1);
    assert(one.len() == 1);
    assert(one.drop_last() =~= Seq::<char>::empty());
    assert(one.last() == s[j]);
    assert(spec_advance_seq(line, column, Seq::<char>::empty()) == (line, column));
}

/// After classifying one token, the recorded position is the one reached by
/// consuming everything up to the new cursor.
pub proof fn lemma_build_token_position(s: Seq<char>, i: int, line: int, column: int)
    requires
        0 <= i <= s.len(),
    ensures
        ({
            let st = spec_build_token(s, i, line, column);
            (st.line, st.column) == spec_advance_seq(line, column, s.subrange(i, st.cursor))
        }),
{
    lemma_filtered_next_range(s, i);
    let fnx = spec_filtered_next(s, i);
    let j = fnx.1;
    let p1 = spec_advance_seq(line, column, s.subrange(i, j));
    if fnx.0 is Some {
        lemma_word_end_range(s, j);
        lemma_digit_end_range(s, j);
        lemma_quote_end_range(s, j);
        let we = spec_word_end(s, j);
        let de = spec_digit_end(s, j);
        let qe = spec_quote_end(s, j);
        lemma_advance_subranges(line, column, s, i, j, we, p1.0, p1.1);
        lemma_advance_subranges(line, column, s, i, j, de, p1.0, p1.1);
        lemma_advance_subranges(line, column, s, i, j, qe, p1.0, p1.1);
        if qe < s.len() {
            lemma_advance_subranges(line, column, s, i, j, qe + 1, p1.0, p1.1);
        }
        if j < s.len() && s[j] != '\n' {
            lemma_advance_one(p1.0, p1.1, s, j);
            lemma_advance_subranges(line, column, s, i, j, j + 1, p1.0, p1.1);
        }
    }
}

/// Scanning always terminates in exactly one end-of-file token: it stands
/// last, nothing before it is an end-of-file token, and it is positioned
/// one column past the last consumed character of the input.
pub proof fn lemma_scan_end_of_file(s: Seq<char>, i: int, line: int, column: int)
    requires
        0 <= i <= s.len(),
    ensures
        spec_scan(s, i, line, column).len() >= 1,
        spec_scan(s, i, line, column).last() == (TokenV::EndOfFile {
            position: Position {
                line: spec_advance_seq(line, column, s.subrange(i, s.len() as int)).0 as u32,
                column: (spec_advance_seq(line, column, s.subrange(i, s.len() as int)).1
                    + 1) as u32,
            },
        }),
        forall|k: int|
            0 <= k < spec_scan(s, i, line, column).len() - 1 ==> !(spec_scan(
                s,
                i,
                line,
                column,
            )[k] is EndOfFile),
    decreases s.len() - i,
{
    lemma_build_token_range(s, i, line, column);
    lemma_build_token_position(s, i, line, column);
    let st = spec_build_token(s, i, line, column);
    let ts = spec_scan(s, i, line, column);
    match st.token {
        None => {
            assert(st.cursor == s.len());
            assert(ts =~= seq![
                TokenV::EndOfFile {
                    position: Position {
                        line: st.line as u32,
                        column: (st.column + 1) as u32,
                    },
                },
            ]);
        },
        Some(t) => {
            assert(!(t is EndOfFile));
            lemma_scan_end_of_file(s, st.cursor, st.line, st.column);
            lemma_advance_subranges(line, column, s, i, st.cursor, s.len() as int, st.line, st.column);
            let rest = spec_scan(s, st.cursor, st.line, st.column);
            assert(ts == seq![t] + rest);
            assert(ts.last() == rest.last());
            assert forall|k: int| 0 <= k < ts.len() - 1 implies !(ts[k] is EndOfFile) by {
                if k == 0 {
                    assert(ts[0] == t);
                } else {
                    assert(ts[k] == rest[k - 1]);
                }
            }
        },
    }
}

/// The diagnostics of the invalid tokens of a sequence, in token order.
pub open spec fn spec_invalid_errors(ts: Seq<TokenV>) -> Seq<ErrorV>
    decreases ts.len(),
{
    if ts.len() == 0 {
        Seq::<ErrorV>::empty()
    } else {
        let rest = spec_invalid_errors(ts.drop_first());
        match ts.first() {
            TokenV::Invalid { error } => seq![error] + rest,
            _ => rest,
        }
    }
}

/// The views of a vector of tokens.
pub open spec fn spec_tokens_view(ts: Seq<Token>) -> Seq<TokenV> {
    Seq::new(ts.len(), |k: int| ts[k]@)
}

pub proof fn lemma_invalid_errors_push(ts: Seq<TokenV>, t: TokenV)
    ensures
        spec_invalid_errors(ts.push(t)) == spec_invalid_errors(ts) + (match t {
            TokenV::Invalid { error } => seq![error],
            _ => Seq::<ErrorV>::empty(),
        }),
    decreases ts.len(),
{
    let whole = ts.push(t);
    if ts.len() == 0 {
        assert(whole.drop_first() =~= Seq::<TokenV>::empty());
        assert(whole.first() == t);
        assert(spec_invalid_errors(Seq::<TokenV>::empty()) == Seq::<ErrorV>::empty());
        match t {
            TokenV::Invalid { error } => {
                assert(spec_invalid_errors(whole) =~= seq![error]);
                assert(spec_invalid_errors(ts) + seq![error] =~= seq![error]);
            },
            _ => {
                assert(spec_invalid_errors(whole) =~= Seq::<ErrorV>::empty());
                assert(spec_invalid_errors(ts) + Seq::<ErrorV>::empty() =~= Seq::<
                    ErrorV,
                >::empty());
            },
        }
    } else {
        assert(whole.drop_first() =~= ts.drop_first().push(t));
        assert(whole.first() == ts.first());
        lemma_invalid_errors_push(ts.drop_first(), t);
        match ts.first() {
            TokenV::Invalid { error } => {
                assert(spec_invalid_errors(ts.push(t)) =~= spec_invalid_errors(ts) + (match t {
                    TokenV::Invalid { error } => seq![error],
                    _ => Seq::<ErrorV>::empty(),
                }));
            },
            _ => {
                assert(spec_invalid_errors(ts.push(t)) =~= spec_invalid_errors(ts) + (match t {
                    TokenV::Invalid { error } => seq![error],
                    _ => Seq::<ErrorV>::empty(),
                }));
            },
        }
    }
}

/// The lexer. It owns no state of its own: each `lex` call scans one source
/// text and pushes the diagnostics of invalid tokens into the handler it is
/// given.
pub struct Lexer {}

impl Lexer {
    pub fn new() -> (r: Lexer) {
        Lexer {  }
    }

    /// Consumes the lookahead when it equals `expected` (never a newline).
    fn next_char_is(characters: &mut CharacterProvider, expected: char) -> (r: bool)
        requires
            old(characters).wf(),
            expected != '\n',
        ensures
            final(characters).wf(),
            final(characters).src() == old(characters).src(),
            r == (old(characters).spec_cursor() < old(characters).src().len() && old(
                characters,
            ).src()[old(characters).spec_cursor()] == expected),
            r ==> {
                &&& final(characters).spec_cursor() == old(characters).spec_cursor() + 1
                &&& final(characters).spec_line() == old(characters).spec_line()
                &&& final(characters).spec_column() == old(characters).spec_column() + 1
            },
            !r ==> *final(characters) == *old(characters),
    {
        match characters.peek() {
            Some(c) => {
                if c == expected {
                    let _taken = characters.next_with_spaces();
                    true
                } else {
                    false
                }
            },
            None => false,
        }
    }

    /// Consumes the maximal identifier run, appending it to `lexeme`.
    fn read_word_run(characters: &mut CharacterProvider, lexeme: &mut Vec<char>)
        requires
            old(characters).wf(),
        ensures
            final(characters).wf(),
            final(characters).src() == old(characters).src(),
            final(characters).spec_cursor() == spec_word_end(
                old(characters).src(),
                old(characters).spec_cursor(),
            ),
            final(lexeme)@ == old(lexeme)@ + old(characters).src().subrange(
                old(characters).spec_cursor(),
                final(characters).spec_cursor(),
            ),
            (final(characters).spec_line(), final(characters).spec_column()) == spec_advance_seq(
                old(characters).spec_line(),
                old(characters).spec_column(),
                old(characters).src().subrange(
                    old(characters).spec_cursor(),
                    final(characters).spec_cursor(),
                ),
            ),
    {
        proof {
            assert(old(characters).src().subrange(
                old(characters).spec_cursor(),
                old(characters).spec_cursor(),
            ) =~= Seq::<char>::empty());
            assert(old(lexeme)@ + Seq::<char>::empty() =~= old(lexeme)@);
        }
        loop
            invariant
                old(characters).wf(),
                characters.wf(),
                characters.src() == old(characters).src(),
                old(characters).spec_cursor() <= characters.spec_cursor(),
                spec_word_end(characters.src(), characters.spec_cursor()) == spec_word_end(
                    old(characters).src(),
                    old(characters).spec_cursor(),
                ),
                lexeme@ == old(lexeme)@ + old(characters).src().subrange(
                    old(characters).spec_cursor(),
                    characters.spec_cursor(),
                ),
                (characters.spec_line(), characters.spec_column()) == spec_advance_seq(
                    old(characters).spec_line(),
                    old(characters).spec_column(),
                    old(characters).src().subrange(
                        old(characters).spec_cursor(),
                        characters.spec_cursor(),
                    ),
                ),
            ensures
                spec_word_end(characters.src(), characters.spec_cursor())
                    == characters.spec_cursor(),
            decreases characters.src().len() - characters.spec_cursor(),
        {
            let more = match characters.peek() {
                Some(c) => is_word(c),
                None => false,
            };
            if !more {
                proof {
                    assert(spec_word_end(characters.src(), characters.spec_cursor())
                        == characters.spec_cursor());
                }
                break ;
            }
            let ghost pre = *characters;
            let taken = characters.next_with_spaces();
            match taken {
                Some(c) => lexeme.push(c),
                None => (),
            }
            proof {
                let s = old(characters).src();
                let a = old(characters).spec_cursor();
                assert(s.subrange(a, characters.spec_cursor()).drop_last() =~= s.subrange(
                    a,
                    pre.spec_cursor(),
                ));
                assert(s.subrange(a, characters.spec_cursor()).last() == s[pre.spec_cursor()]);
                assert(lexeme@ =~= old(lexeme)@ + s.subrange(a, characters.spec_cursor()));
            }
        }
    }

    /// Consumes the maximal digit run, appending it to `lexeme`.
    fn read_digit_run(characters: &mut CharacterProvider, lexeme: &mut Vec<char>)
        requires
            old(characters).wf(),
        ensures
            final(characters).wf(),
            final(characters).src() == old(characters).src(),
            final(characters).spec_cursor() == spec_digit_end(
                old(characters).src(),
                old(characters).spec_cursor(),
            ),
            final(lexeme)@ == old(lexeme)@ + old(characters).src().subrange(
                old(characters).spec_cursor(),
                final(characters).spec_cursor(),
            ),
            (final(characters).spec_line(), final(characters).spec_column()) == spec_advance_seq(
                old(characters).spec_line(),
                old(characters).spec_column(),
                old(characters).src().subrange(
                    old(characters).spec_cursor(),
                    final(characters).spec_cursor(),
                ),
            ),
    {
        proof {
            assert(old(characters).src().subrange(
                old(characters).spec_cursor(),
                old(characters).spec_cursor(),
            ) =~= Seq::<char>::empty());
            assert(old(lexeme)@ + Seq::<char>::empty() =~= old(lexeme)@);
        }
        loop
            invariant
                old(characters).wf(),
                characters.wf(),
                characters.src() == old(characters).src(),
                old(characters).spec_cursor() <= characters.spec_cursor(),
                spec_digit_end(characters.src(), characters.spec_cursor()) == spec_digit_end(
                    old(characters).src(),
                    old(characters).spec_cursor(),
                ),
                lexeme@ == old(lexeme)@ + old(characters).src().subrange(
                    old(characters).spec_cursor(),
                    characters.spec_cursor(),
                ),
                (characters.spec_line(), characters.spec_column()) == spec_advance_seq(
                    old(characters).spec_line(),
                    old(characters).spec_column(),
                    old(characters).src().subrange(
                        old(characters).spec_cursor(),
                        characters.spec_cursor(),
                    ),
                ),
            ensures
                spec_digit_end(characters.src(), characters.spec_cursor())
                    == characters.spec_cursor(),
            decreases characters.src().len() - characters.spec_cursor(),
        {
            let more = match characters.peek() {
                Some(c) => is_digit(c),
                None => false,
            };
            if !more {
                proof {
                    assert(spec_digit_end(characters.src(), characters.spec_cursor())
                        == characters.spec_cursor());
                }
                break ;
            }
            let ghost pre = *characters;
            let taken = characters.next_with_spaces();
            match taken {
                Some(c) => lexeme.push(c),
                None => (),
            }
            proof {
                let s = old(characters).src();
                let a = old(characters).spec_cursor();
                assert(s.subrange(a, characters.spec_cursor()).drop_last() =~= s.subrange(
                    a,
                    pre.spec_cursor(),
                ));
                assert(s.subrange(a, characters.spec_cursor()).last() == s[pre.spec_cursor()]);
                assert(lexeme@ =~= old(lexeme)@ + s.subrange(a, characters.spec_cursor()));
            }
        }
    }

    /// Consumes raw characters up to (not including) the next double quote,
    /// appending them to `lexeme`; spaces and newlines are kept.
    fn read_string_run(characters: &mut CharacterProvider, lexeme: &mut Vec<char>)
        requires
            old(characters).wf(),
        ensures
            final(characters).wf(),
            final(characters).src() == old(characters).src(),
            final(characters).spec_cursor() == spec_quote_end(
                old(characters).src(),
                old(characters).spec_cursor(),
            ),
            final(lexeme)@ == old(lexeme)@ + old(characters).src().subrange(
                old(characters).spec_cursor(),
                final(characters).spec_cursor(),
            ),
            (final(characters).spec_line(), final(characters).spec_column()) == spec_advance_seq(
                old(characters).spec_line(),
                old(characters).spec_column(),
                old(characters).src().subrange(
                    old(characters).spec_cursor(),
                    final(characters).spec_cursor(),
                ),
            ),
    {
        proof {
            assert(old(characters).src().subrange(
                old(characters).spec_cursor(),
                old(characters).spec_cursor(),
            ) =~= Seq::<char>::empty());
            assert(old(lexeme)@ + Seq::<char>::empty() =~= old(lexeme)@);
        }
        loop
            invariant
                old(characters).wf(),
                characters.wf(),
                characters.src() == old(characters).src(),
                old(characters).spec_cursor() <= characters.spec_cursor(),
                spec_quote_end(characters.src(), characters.spec_cursor()) == spec_quote_end(
                    old(characters).src(),
                    old(characters).spec_cursor(),
                ),
                lexeme@ == old(lexeme)@ + old(characters).src().subrange(
                    old(characters).spec_cursor(),
                    characters.spec_cursor(),
                ),
                (characters.spec_line(), characters.spec_column()) == spec_advance_seq(
                    old(characters).spec_line(),
                    old(characters).spec_column(),
                    old(characters).src().subrange(
                        old(characters).spec_cursor(),
                        characters.spec_cursor(),
                    ),
                ),
            ensures
                spec_quote_end(characters.src(), characters.spec_cursor())
                    == characters.spec_cursor(),
            decreases characters.src().len() - characters.spec_cursor(),
        {
            let more = match characters.peek() {
                Some(c) => c != '"',
                None => false,
            };
            if !more {
                proof {
                    assert(spec_quote_end(characters.src(), characters.spec_cursor())
                        == characters.spec_cursor());
                }
                break ;
            }
            let ghost pre = *characters;
            let taken = characters.next_with_spaces();
            match taken {
                Some(c) => lexeme.push(c),
                None => (),
            }
            proof {
                let s = old(characters).src();
                let a = old(characters).spec_cursor();
                assert(s.subrange(a, characters.spec_cursor()).drop_last() =~= s.subrange(
                    a,
                    pre.spec_cursor(),
                ));
                assert(s.subrange(a, characters.spec_cursor()).last() == s[pre.spec_cursor()]);
                assert(lexeme@ =~= old(lexeme)@ + s.subrange(a, characters.spec_cursor()));
            }
        }
    }

    /// Classifies one token, or reports that the input is exhausted.
    fn build_token(characters: &mut CharacterProvider) -> (r: Option<Token>)
        requires
            old(characters).wf(),
        ensures
            final(characters).wf(),
            final(characters).src() == old(characters).src(),
            ({
                let st = spec_build_token(
                    old(characters).src(),
                    old(characters).spec_cursor(),
                    old(characters).spec_line(),
                    old(characters).spec_column(),
                );
                &&& spec_opt_token_view(r) == st.token
                &&& final(characters).spec_cursor() == st.cursor
                &&& final(characters).spec_line() == st.line
                &&& final(characters).spec_column() == st.column
            }),
    {
        let first = characters.next();
        let c = match first {
            None => {
                return None;
            },
            Some(c) => c,
        };
        let ghost s = old(characters).src();
        let ghost j = characters.spec_cursor();
        proof {
            lemma_filtered_next_range(s, old(characters).spec_cursor());
        }
        let line = characters.current_line();
        let column = characters.current_column();
        let pos = Position { line, column };
        if is_letter(c) || c == '_' {
            let mut lexeme: Vec<char> = Vec::new();
            lexeme.push(c);
            Self::read_word_run(characters, &mut lexeme);
            proof {
                lemma_word_end_range(s, j);
                assert(c == s[j - 1]);
                assert(seq![c] + s.subrange(j, characters.spec_cursor()) =~= s.subrange(
                    j - 1,
                    characters.spec_cursor(),
                ));
                assert(lexeme@ == s.subrange(j - 1, characters.spec_cursor()));
            }
            let word = string_from_chars(&lexeme);
            match Token::reserved_word(word.as_str(), line, column) {
                Some(token) => Some(token),
                None => Some(
                    Token::Literal(
                        LiteralToken {
                            position: pos,
                            literal: Literal::Identifier { lexeme: word },
                        },
                    ),
                ),
            }
        } else if is_digit(c) {
            let mut lexeme: Vec<char> = Vec::new();
            lexeme.push(c);
            Self::read_digit_run(characters, &mut lexeme);
            proof {
                lemma_digit_end_range(s, j);
                assert(c == s[j - 1]);
                assert(seq![c] + s.subrange(j, characters.spec_cursor()) =~= s.subrange(
                    j - 1,
                    characters.spec_cursor(),
                ));
                assert(lexeme@ == s.subrange(j - 1, characters.spec_cursor()));
                lemma_digit_end_chars(s, j);
                assert forall|k: int| 0 <= k < lexeme@.len() implies spec_is_digit(
                    #[trigger] lexeme@[k],
                ) by {
                    if k == 0 {
                        assert(lexeme@[0] == c);
                    } else {
                        assert(lexeme@[k] == s[j - 1 + k]);
                    }
                }
            }
            match parse_digits(&lexeme) {
                Some(value) => Some(
                    Token::Literal(
                        LiteralToken {
                            position: pos,
                            literal: Literal::Number { lexeme: value },
                        },
                    ),
                ),
                None => Some(
                    Token::Invalid {
                        error: crate::error::InterpreterError::SyntaxError {
                            position: pos,
                            message: "Failed to parse number".to_owned(),
                        },
                    },
                ),
            }
        } else if c == ';' {
            Some(Token::Symbol(SymbolToken { position: pos, symbol: Symbol::Semicolon }))
        } else if c == ',' {
            Some(Token::Symbol(SymbolToken { position: pos, symbol: Symbol::Comma }))
        } else if c == '.' {
            Some(Token::Symbol(SymbolToken { position: pos, symbol: Symbol::Period }))
        } else if c == ':' {
            Some(Token::Symbol(SymbolToken { position: pos, symbol: Symbol::Colon }))
        } else if c == '!' {
            if Self::next_char_is(characters, '=') {
                Some(
                    Token::Symbol(
                        SymbolToken { position: pos, symbol: Symbol::ExclamationPointEquals },
                    ),
                )
            } else {
                Some(Token::Symbol(SymbolToken { position: pos, symbol: Symbol::ExclamationPoint }))
            }
        } else if c == '=' {
            if Self::next_char_is(characters, '=') {
                Some(Token::Symbol(SymbolToken { position: pos, symbol: Symbol::DoubleEquals }))
            } else {
                Some(Token::Symbol(SymbolToken { position: pos, symbol: Symbol::Equals }))
            }
        } else if c == '+' {
            if Self::next_char_is(characters, '=') {
                Some(Token::Symbol(SymbolToken { position: pos, symbol: Symbol::PlusEquals }))
            } else {
                Some(Token::Symbol(SymbolToken { position: pos, symbol: Symbol::Plus }))
            }
        } else if c == '-' {
            if Self::next_char_is(characters, '>') {
                Some(Token::Symbol(SymbolToken { position: pos, symbol: Symbol::RightArrow }))
            } else if Self::next_char_is(characters, '=') {
                Some(Token::Symbol(SymbolToken { position: pos, symbol: Symbol::MinusEquals }))
            } else {
                Some(Token::Symbol(SymbolToken { position: pos, symbol: Symbol::Minus }))
            }
        } else if c == '/' {
            if Self::next_char_is(characters, '=') {
                Some(
                    Token::Symbol(SymbolToken { position: pos, symbol: Symbol::ForwardSlashEquals }),
                )
            } else {
                Some(Token::Symbol(SymbolToken { position: pos, symbol: Symbol::ForwardSlash }))
            }
        } else if c == '*' {
            if Self::next_char_is(characters, '=') {
                Some(Token::Symbol(SymbolToken { position: pos, symbol: Symbol::AsteriskEquals }))
            } else {
                Some(Token::Symbol(SymbolToken { position: pos, symbol: Symbol::Asterisk }))
            }
        } else if c == '^' {
            if Self::next_char_is(characters, '=') {
                Some(Token::Symbol(SymbolToken { position: pos, symbol: Symbol::CaretEquals }))
            } else {
                Some(Token::Symbol(SymbolToken { position: pos, symbol: Symbol::Caret }))
            }
        } else if c == '&' {
            if Self::next_char_is(characters, '=') {
                Some(Token::Symbol(SymbolToken { position: pos, symbol: Symbol::AmpersandEquals }))
            } else {
                Some(Token::Symbol(SymbolToken { position: pos, symbol: Symbol::Ampersand }))
            }
        } else if c == '(' {
            if Self::next_char_is(characters, ')') {
                Some(Token::Literal(LiteralToken { position: pos, literal: Literal::Void }))
            } else {
                Some(Token::Symbol(SymbolToken { position: pos, symbol: Symbol::LeftParenthesis }))
            }
        } else if c == ')' {
            Some(Token::Symbol(SymbolToken { position: pos, symbol: Symbol::RightParenthesis }))
        } else if c == '{' {
            Some(Token::Symbol(SymbolToken { position: pos, symbol: Symbol::LeftCurlyBracket }))
        } else if c == '}' {
            Some(Token::Symbol(SymbolToken { position: pos, symbol: Symbol::RightCurlyBracket }))
        } else if c == '<' {
            if Self::next_char_is(characters, '=') {
                Some(
                    Token::Symbol(
                        SymbolToken { position: pos, symbol: Symbol::LeftAngledBracketEquals },
                    ),
                )
            } else {
                Some(
                    Token::Symbol(SymbolToken { position: pos, symbol: Symbol::LeftAngledBracket }),
                )
            }
        } else if c == '>' {
            if Self::next_char_is(characters, '=') {
                Some(
                    Token::Symbol(
                        SymbolToken { position: pos, symbol: Symbol::RightAngledBracketEquals },
                    ),
                )
            } else {
                Some(
                    Token::Symbol(
                        SymbolToken { position: pos, symbol: Symbol::RightAngledBracket },
                    ),
                )
            }
        } else if c == '[' {
            Some(Token::Symbol(SymbolToken { position: pos, symbol: Symbol::LeftSquareBracket }))
        } else if c == ']' {
            Some(Token::Symbol(SymbolToken { position: pos, symbol: Symbol::RightSquareBracket }))
        } else if c == '\'' {
            Some(Token::Symbol(SymbolToken { position: pos, symbol: Symbol::Apostrophe }))
        } else if c == '"' {
            let mut lexeme: Vec<char> = Vec::new();
            Self::read_string_run(characters, &mut lexeme);
            proof {
                lemma_quote_end_range(s, j);
                let e = spec_quote_end(s, j);
                if e < s.len() {
                    assert(s.subrange(j, e + 1).drop_last() =~= s.subrange(j, e));
                    assert(s.subrange(j, e + 1).last() == s[e]);
                }
            }
            if Self::next_char_is(characters, '"') {
                let text = string_from_chars(&lexeme);
                Some(
                    Token::Literal(
                        LiteralToken {
                            position: pos,
                            literal: Literal::String { lexeme: text },
                        },
                    ),
                )
            } else {
                let eline = characters.current_line();
                let ecolumn = characters.current_column();
                Some(
                    Token::Invalid {
                        error: crate::error::InterpreterError::UnterminatedString {
                            position: Position { line: eline, column: ecolumn + 1 },
                        },
                    },
                )
            }
        } else {
            let mut one: Vec<char> = Vec::new();
            one.push(c);
            let text = string_from_chars(&one);
            proof {
                assert(one@ =~= seq![c]);
            }
            Some(
                Token::Invalid {
                    error: crate::error::InterpreterError::UnknownToken {
                        position: pos,
                        token: text,
                    },
                },
            )
        }
    }

    /// Scans the whole source into a token sequence: the classified tokens
    /// in order, then exactly one end-of-file sentinel. The diagnostic of
    /// every invalid token is pushed into `errors`, in order, and nothing
    /// else is.
    pub fn lex(&mut self, source: &str, errors: &mut ErrorHandler) -> (r: Vec<Token>)
        requires
            source@.len() <= 0xFFFF_0000,
        ensures
            spec_tokens_view(r@) == spec_scan(source@, 0, 1, 0),
            final(errors)@ == old(errors)@ + spec_invalid_errors(spec_scan(source@, 0, 1, 0)),
    {
        let mut characters = CharacterProvider::new(source);
        let mut tokens: Vec<Token> = Vec::new();
        proof {
            assert(spec_tokens_view(tokens@) =~= Seq::<TokenV>::empty());
            assert(Seq::<TokenV>::empty() + spec_scan(source@, 0, 1, 0) =~= spec_scan(
                source@,
                0,
                1,
                0,
            ));
            assert(spec_invalid_errors(spec_tokens_view(tokens@)) =~= Seq::<ErrorV>::empty());
            assert(old(errors)@ + Seq::<ErrorV>::empty() =~= old(errors)@);
        }
        loop
            invariant
                characters.wf(),
                characters.src() == source@,
                0 <= characters.spec_cursor() <= source@.len(),
                spec_scan(source@, 0, 1, 0) == spec_tokens_view(tokens@) + spec_scan(
                    source@,
                    characters.spec_cursor(),
                    characters.spec_line(),
                    characters.spec_column(),
                ),
                errors@ == old(errors)@ + spec_invalid_errors(spec_tokens_view(tokens@)),
            ensures
                characters.wf(),
                spec_scan(source@, 0, 1, 0) == spec_tokens_view(tokens@) + seq![
                    TokenV::EndOfFile {
                        position: Position {
                            line: characters.spec_line() as u32,
                            column: (characters.spec_column() + 1) as u32,
                        },
                    },
                ],
                errors@ == old(errors)@ + spec_invalid_errors(spec_tokens_view(tokens@)),
            decreases source@.len() - characters.spec_cursor(),
        {
            let ghost pre = characters;
            let ghost st = spec_build_token(
                source@,
                pre.spec_cursor(),
                pre.spec_line(),
                pre.spec_column(),
            );
            proof {
                lemma_build_token_range(
                    source@,
                    pre.spec_cursor(),
                    pre.spec_line(),
                    pre.spec_column(),
                );
            }
            let next_token = Self::build_token(&mut characters);
            match next_token {
                None => {
                    break ;
                },
                Some(token) => {
                    let ghost tv = token@;
                    match &token {
                        Token::Invalid { error } => {
                            errors.push(error.clone());
                        },
                        _ => (),
                    }
                    let ghost toks_before = spec_tokens_view(tokens@);
                    tokens.push(token);
                    proof {
                        assert(st.token == Some(tv));
                        assert(spec_tokens_view(tokens@) =~= toks_before.push(tv));
                        lemma_invalid_errors_push(toks_before, tv);
                        assert(spec_scan(source@, 0, 1, 0) == spec_tokens_view(tokens@)
                            + spec_scan(
                            source@,
                            characters.spec_cursor(),
                            characters.spec_line(),
                            characters.spec_column(),
                        )) by {
                            assert(spec_scan(
                                source@,
                                pre.spec_cursor(),
                                pre.spec_line(),
                                pre.spec_column(),
                            ) == seq![tv] + spec_scan(source@, st.cursor, st.line, st.column));
                            assert((toks_before + (seq![tv] + spec_scan(
                                source@,
                                st.cursor,
                                st.line,
                                st.column,
                            ))) =~= (toks_before.push(tv) + spec_scan(
                                source@,
                                st.cursor,
                                st.line,
                                st.column,
                            )));
                        }
                        assert(errors@ =~= old(errors)@ + spec_invalid_errors(
                            spec_tokens_view(tokens@),
                        ));
                    }
                },
            }
        }
        let line = characters.current_line();
        let column = characters.current_column();
        let ghost toks_before = spec_tokens_view(tokens@);
        let ghost eof = TokenV::EndOfFile {
            position: Position {
                line: characters.spec_line() as u32,
                column: (characters.spec_column() + 1) as u32,
            },
        };
        tokens.push(Token::EndOfFile { position: Position { line, column: column + 1 } });
        proof {
            assert(spec_tokens_view(tokens@) =~= toks_before.push(eof));
            assert(toks_before + seq![eof] =~= toks_before.push(eof));
            lemma_invalid_errors_push(toks_before, eof);
            assert(spec_invalid_errors(spec_tokens_view(tokens@)) =~= spec_invalid_errors(
                toks_before,
            ));
        }
        tokens
    }
}

} // verus!
