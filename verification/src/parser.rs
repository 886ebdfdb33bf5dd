//! The parser: recursive descent with precedence climbing, an explicit
//! delimiter stack to catch mismatched brackets, and accumulated
//! diagnostics. It never aborts: a missing operand degrades to a
//! placeholder unit literal and parsing continues.

use vstd::prelude::*;

use crate::error::{ErrorV, InterpreterError};
use crate::error_handler::ErrorHandler;
use crate::expression::{ExprV, Expression, SyntaxTree};
use crate::position::Position;
use crate::text::{push_str_chars, string_from_chars};
use crate::token::{
    spec_opt_token_view, spec_symbol_lexeme, spec_token_column, spec_token_lexeme,
    spec_token_line, Symbol, SymbolToken, Token, TokenV,
};
use crate::token_provider::{spec_lookahead_at, Next, TokenProvider};

verus! {

/// Diagnostics only accumulate: everything previously collected stays, in
/// place, and new ones are appended.
pub open spec fn spec_extends(before: Seq<ErrorV>, after: Seq<ErrorV>) -> bool {
    &&& before.len() <= after.len()
    &&& forall|k: int| 0 <= k < before.len() ==> after[k] == #[trigger] before[k]
}

/// The kind of bracket a delimiter-stack entry tracks.
#[derive(Debug, Clone, Copy, PartialEq, Eq, Structural)]
pub enum DelimiterType {
    Paren,
    Curly,
    Angled,
    Square,
}

/// An open bracket on the delimiter stack, with where it was opened.
#[derive(Debug, Clone, Copy, PartialEq, Eq, Structural)]
pub struct Delimiter {
    pub delimiter: DelimiterType,
    pub line: u32,
    pub column: u32,
}

/// The opening bracket text of a stack entry.
pub open spec fn spec_delimiter_lexeme(d: DelimiterType) -> Seq<char> {
    match d {
        DelimiterType::Paren => "("@,
        DelimiterType::Curly => "{"@,
        DelimiterType::Angled => "<"@,
        DelimiterType::Square => "["@,
    }
}

impl Delimiter {
    /// The opening bracket text of this entry.
    pub fn lexeme(&self) -> (r: String)
        ensures
            r@ == spec_delimiter_lexeme(self.delimiter),
    {
        match self.delimiter {
            DelimiterType::Paren => "(".to_owned(),
            DelimiterType::Curly => "{".to_owned(),
            DelimiterType::Angled => "<".to_owned(),
            DelimiterType::Square => "[".to_owned(),
        }
    }

    fn line(&self) -> (r: u32)
        ensures
            r == self.line,
    {
        self.line
    }

    fn column(&self) -> (r: u32)
        ensures
            r == self.column,
    {
        self.column
    }

    /// The stack entry a closing bracket corresponds to, with the token's
    /// position; `None` for anything that is not a closing bracket.
    pub fn try_from(token: &Token) -> (r: Option<Delimiter>)
        ensures
            match token@ {
                TokenV::Symbol(st) => {
                    if st.symbol == Symbol::RightParenthesis {
                        r == Some(
                            Delimiter {
                                delimiter: DelimiterType::Paren,
                                line: st.position.line,
                                column: st.position.column,
                            },
                        )
                    } else if st.symbol == Symbol::RightAngledBracket {
                        r == Some(
                            Delimiter {
                                delimiter: DelimiterType::Angled,
                                line: st.position.line,
                                column: st.position.column,
                            },
                        )
                    } else if st.symbol == Symbol::RightCurlyBracket {
                        r == Some(
                            Delimiter {
                                delimiter: DelimiterType::Curly,
                                line: st.position.line,
                                column: st.position.column,
                            },
                        )
                    } else if st.symbol == Symbol::RightSquareBracket {
                        r == Some(
                            Delimiter {
                                delimiter: DelimiterType::Square,
                                line: st.position.line,
                                column: st.position.column,
                            },
                        )
                    } else {
                        r is None
                    }
                },
                _ => r is None,
            },
    {
        match token {
            Token::Symbol(st) => {
                let delimiter = match st.symbol {
                    Symbol::RightParenthesis => DelimiterType::Paren,
                    Symbol::RightAngledBracket => DelimiterType::Angled,
                    Symbol::RightCurlyBracket => DelimiterType::Curly,
                    Symbol::RightSquareBracket => DelimiterType::Square,
                    _ => {
                        return None;
                    },
                };
                Some(
                    Delimiter {
                        delimiter,
                        line: st.position.line,
                        column: st.position.column,
                    },
                )
            },
            _ => None,
        }
    }
}

/// Whether a symbol is in a set of candidate operators.
fn symbol_in(set: &Vec<Symbol>, symbol: Symbol) -> (r: bool)
    ensures
        r == set@.contains(symbol),
{
    let n: usize = set.len();
    let mut i: usize = 0;
    while i < n
        invariant
            n == set@.len(),
            i <= n,
            forall|k: int| 0 <= k < i ==> set@[k] != symbol,
        decreases n - i,
    {
        if set[i] == symbol {
            return true;
        }
        i = i + 1;
    }
    false
}

pub struct Parser {
    delimiter_stack: Vec<Delimiter>,
}

/// The spec-level reading of a provider-and-parser pair.
pub open spec fn spec_state_of(tokens: TokenProvider, parser: Parser) -> ParseState {
    ParseState {
        cursor: tokens.spec_cursor(),
        prev: tokens.spec_prev(),
        last: tokens.spec_last(),
        stack: parser.spec_stack(),
    }
}

/// Whether an executable production's outcome is the one the grammar
/// specification prescribes.
pub open spec fn spec_out_matches(
    tokens: TokenProvider,
    parser: Parser,
    r: ExprV,
    out: ParseOut,
) -> bool {
    &&& r == out.expr
    &&& tokens.spec_cursor() == out.state.cursor
    &&& tokens.spec_prev() == out.state.prev
    &&& tokens.spec_last() == out.state.last
    &&& parser.spec_stack() == out.state.stack
}

impl Parser {
    /// The open brackets not yet closed, innermost last.
    pub closed spec fn spec_stack(self) -> Seq<Delimiter> {
        self.delimiter_stack@
    }

    pub fn new() -> (r: Parser)
        ensures
            r.spec_stack() == Seq::<Delimiter>::empty(),
    {
        Parser { delimiter_stack: Vec::new() }
    }

    /// Whether the lookahead is a closing bracket that does not match the
    /// innermost open one.
    fn is_rogue_delimiter(&self, token: &Next<Token>) -> (r: bool)
        ensures
            match token {
                Next::Token(t) => match t@ {
                    TokenV::Symbol(st) => {
                        if st.symbol == Symbol::RightParenthesis || st.symbol
                            == Symbol::RightAngledBracket || st.symbol == Symbol::RightCurlyBracket
                            || st.symbol == Symbol::RightSquareBracket {
                            r == (self.spec_stack().len() == 0 || self.spec_stack().last().delimiter
                                != closing_type(st.symbol))
                        } else {
                            r == false
                        }
                    },
                    _ => r == false,
                },
                _ => r == false,
            },
    {
        let t = match token {
            Next::Token(t) => t,
            _ => {
                return false;
            },
        };
        let delim = match Delimiter::try_from(t) {
            Some(d) => d,
            None => {
                return false;
            },
        };
        if self.delimiter_stack.len() == 0 {
            true
        } else {
            let top = self.delimiter_stack[self.delimiter_stack.len() - 1];
            top.delimiter != delim.delimiter
        }
    }

    /// A rogue-delimiter-aware peek: a stray closing bracket is reported as
    /// an unmatched delimiter and consumed, then the lookahead is read
    /// again. Returns the lookahead when its kind is a symbol.
    fn match_symbol_token(
        &self,
        tokens: &mut TokenProvider,
        errors: &mut ErrorHandler,
    ) -> (r: Option<Token>)
        requires
            old(tokens).wf(),
        ensures
            final(tokens).wf(),
            final(tokens).spec_tokens() == old(tokens).spec_tokens(),
            spec_extends(old(errors)@, final(errors)@),
            ({
                let la0 = old(tokens).spec_lookahead();
                if spec_is_rogue(self.spec_stack(), la0) {
                    let la1 = spec_lookahead_at(
                        old(tokens).spec_tokens(),
                        old(tokens).spec_cursor() + 1,
                        old(tokens).spec_last(),
                    );
                    &&& (match la0 {
                        Next::Token(t) => match t {
                            TokenV::Symbol(st) => final(errors)@ == old(errors)@.push(
                                spec_stray(st),
                            ) && final(tokens).spec_prev() == t,
                            _ => false,
                        },
                        _ => false,
                    })
                    &&& final(tokens).spec_cursor() == old(tokens).spec_cursor() + 1
                    &&& final(tokens).spec_last() == spec_last_after(la1, old(tokens).spec_last())
                    &&& spec_symbol_reading(r, la1)
                } else {
                    &&& final(errors)@ == old(errors)@
                    &&& final(tokens).spec_cursor() == old(tokens).spec_cursor()
                    &&& final(tokens).spec_prev() == old(tokens).spec_prev()
                    &&& final(tokens).spec_last() == spec_last_after(la0, old(tokens).spec_last())
                    &&& spec_symbol_reading(r, la0)
                }
            }),
    {
        let mut peeked = tokens.peek();
        if self.is_rogue_delimiter(&peeked) {
            match &peeked {
                Next::Token(t) => {
                    match t {
                        Token::Symbol(st) => {
                            let lex = st.symbol.lexeme();
                            errors.push(
                                InterpreterError::UnmatchedDelimiter {
                                    position: st.position,
                                    delimiter: lex,
                                },
                            );
                        },
                        _ => (),
                    }
                },
                _ => (),
            }
            let _consumed = tokens.next();
            peeked = tokens.peek();
        }
        match peeked {
            Next::Token(t) => {
                match &t {
                    Token::Symbol(_) => Some(t),
                    _ => None,
                }
            },
            _ => None,
        }
    }

    /// Consumes and returns the lookahead when it is one of the candidate
    /// operator symbols, after rogue-delimiter handling.
    fn match_symbols(
        &self,
        tokens: &mut TokenProvider,
        errors: &mut ErrorHandler,
        set: &Vec<Symbol>,
    ) -> (r: Option<SymbolToken>)
        requires
            old(tokens).wf(),
        ensures
            final(tokens).wf(),
            final(tokens).spec_tokens() == old(tokens).spec_tokens(),
            old(tokens).spec_cursor() <= final(tokens).spec_cursor() <= final(tokens).spec_tokens().len(),
            spec_extends(old(errors)@, final(errors)@),
            ({
                let la0 = old(tokens).spec_lookahead();
                let rogue = spec_is_rogue(self.spec_stack(), la0);
                let base = old(tokens).spec_cursor() + (if rogue {
                    1int
                } else {
                    0int
                });
                let la1 = spec_lookahead_at(
                    old(tokens).spec_tokens(),
                    base,
                    old(tokens).spec_last(),
                );
                &&& (if rogue {
                    match la0 {
                        Next::Token(t) => match t {
                            TokenV::Symbol(st) => final(errors)@ == old(errors)@.push(
                                spec_stray(st),
                            ),
                            _ => false,
                        },
                        _ => false,
                    }
                } else {
                    final(errors)@ == old(errors)@
                })
                &&& final(tokens).spec_last() == spec_last_after(la1, old(tokens).spec_last())
                &&& (match la1 {
                    Next::Token(t) => match t {
                        TokenV::Symbol(st) => {
                            if set@.contains(st.symbol) {
                                &&& r == Some(st)
                                &&& final(tokens).spec_cursor() == base + 1
                                &&& final(tokens).spec_prev() == TokenV::Symbol(st)
                            } else {
                                &&& r is None
                                &&& final(tokens).spec_cursor() == base
                            }
                        },
                        _ => r is None && final(tokens).spec_cursor() == base,
                    },
                    _ => r is None && final(tokens).spec_cursor() == base,
                })
            }),
            ({
                let (r0, st1, errs) = spec_match_symbols_fn(
                    old(tokens).spec_tokens(),
                    spec_state_of(*old(tokens), *self),
                    set@,
                );
                &&& r == r0
                &&& final(tokens).spec_cursor() == st1.cursor
                &&& final(tokens).spec_prev() == st1.prev
                &&& final(tokens).spec_last() == st1.last
                &&& final(errors)@ == old(errors)@ + errs
            }),
    {
        match self.match_symbol_token(tokens, errors) {
            Some(Token::Symbol(symbol_token)) => {
                if symbol_in(set, symbol_token.symbol) {
                    let _consumed = tokens.next();
                    Some(symbol_token)
                } else {
                    None
                }
            },
            _ => None,
        }
    }
}

/// The stack entry kind a closing symbol matches.
pub open spec fn closing_type(s: Symbol) -> DelimiterType {
    if s == Symbol::RightParenthesis {
        DelimiterType::Paren
    } else if s == Symbol::RightAngledBracket {
        DelimiterType::Angled
    } else if s == Symbol::RightCurlyBracket {
        DelimiterType::Curly
    } else {
        DelimiterType::Square
    }
}

/// Whether a symbol closes a bracket.
pub open spec fn spec_is_closing(s: Symbol) -> bool {
    s == Symbol::RightParenthesis || s == Symbol::RightAngledBracket || s
        == Symbol::RightCurlyBracket || s == Symbol::RightSquareBracket
}

/// Whether a lookahead is a closing bracket that does not match the
/// innermost open one.
pub open spec fn spec_is_rogue(stack: Seq<Delimiter>, lookahead: Next<TokenV>) -> bool {
    match lookahead {
        Next::Token(t) => match t {
            TokenV::Symbol(st) => spec_is_closing(st.symbol) && (stack.len() == 0
                || stack.last().delimiter != closing_type(st.symbol)),
            _ => false,
        },
        _ => false,
    }
}

/// The unmatched-delimiter diagnostic for an opener that never closed, or
/// for a stray closer.
pub open spec fn spec_unmatched(d: Delimiter) -> ErrorV {
    ErrorV::UnmatchedDelimiter {
        position: Position { line: d.line, column: d.column },
        delimiter: spec_delimiter_lexeme(d.delimiter),
    }
}

/// The stray-closer diagnostic for a symbol token.
pub open spec fn spec_stray(st: SymbolToken) -> ErrorV {
    ErrorV::UnmatchedDelimiter {
        position: st.position,
        delimiter: spec_symbol_lexeme(st.symbol),
    }
}

/// How the position tracked alongside a lookahead changes once it has been
/// seen: the sentinel's position is remembered.
pub open spec fn spec_last_after(lookahead: Next<TokenV>, last: (u32, u32)) -> (u32, u32) {
    match lookahead {
        Next::EndOfFile { line, column } => (line, column),
        _ => last,
    }
}

/// Whether `r` is the symbol-kinded reading of a lookahead: the symbol
/// token when one is in view, nothing otherwise.
pub open spec fn spec_symbol_reading(r: Option<Token>, lookahead: Next<TokenV>) -> bool {
    match lookahead {
        Next::Token(t) => match t {
            TokenV::Symbol(st) => spec_opt_token_view(r) == Some(TokenV::Symbol(st)),
            _ => r is None,
        },
        _ => r is None,
    }
}


/// The parser-visible cursor state: how far the stream is consumed, the
/// last valid token, the remembered sentinel position, and the open
/// brackets.
pub struct ParseState {
    pub cursor: int,
    pub prev: TokenV,
    pub last: (u32, u32),
    pub stack: Seq<Delimiter>,
}

/// What one grammar production yields: the tree it built, the state it
/// left, and the diagnostics it pushed, in order.
pub struct ParseOut {
    pub expr: ExprV,
    pub state: ParseState,
    pub errors: Seq<ErrorV>,
}

/// What consuming one token yields, mirroring the provider's `next`.
pub open spec fn spec_next_fn(tokens: Seq<TokenV>, st: ParseState) -> (Next<TokenV>, ParseState) {
    match spec_lookahead_at(tokens, st.cursor, st.last) {
        Next::Token(t) => (
            Next::Token(t),
            ParseState { cursor: st.cursor + 1, prev: t, last: st.last, stack: st.stack },
        ),
        Next::EndOfFile { line, column } => (
            Next::EndOfFile { line, column },
            ParseState { cursor: st.cursor, prev: st.prev, last: (line, column), stack: st.stack },
        ),
        Next::EndOfStream { line, column } => (
            Next::EndOfStream { line, column },
            ParseState { cursor: st.cursor, prev: st.prev, last: st.last, stack: st.stack },
        ),
    }
}

/// What the operator matcher yields: the matched symbol token, the state
/// it left, and the stray-closer diagnostics it pushed.
pub open spec fn spec_match_symbols_fn(
    tokens: Seq<TokenV>,
    st: ParseState,
    set: Seq<Symbol>,
) -> (Option<SymbolToken>, ParseState, Seq<ErrorV>) {
    let la0 = spec_lookahead_at(tokens, st.cursor, st.last);
    let rogue = spec_is_rogue(st.stack, la0);
    let base = st.cursor + (if rogue {
        1int
    } else {
        0int
    });
    let prev1 = if rogue {
        match la0 {
            Next::Token(t) => t,
            _ => st.prev,
        }
    } else {
        st.prev
    };
    let errs = if rogue {
        match la0 {
            Next::Token(t) => match t {
                TokenV::Symbol(sy) => seq![spec_stray(sy)],
                _ => Seq::<ErrorV>::empty(),
            },
            _ => Seq::<ErrorV>::empty(),
        }
    } else {
        Seq::<ErrorV>::empty()
    };
    let la1 = spec_lookahead_at(tokens, base, st.last);
    let last1 = spec_last_after(la1, st.last);
    match la1 {
        Next::Token(t) => match t {
            TokenV::Symbol(sy) => {
                if set.contains(sy.symbol) {
                    (
                        Some(sy),
                        ParseState {
                            cursor: base + 1,
                            prev: TokenV::Symbol(sy),
                            last: last1,
                            stack: st.stack,
                        },
                        errs,
                    )
                } else {
                    (
                        None,
                        ParseState { cursor: base, prev: prev1, last: last1, stack: st.stack },
                        errs,
                    )
                }
            },
            _ => (
                None,
                ParseState { cursor: base, prev: prev1, last: last1, stack: st.stack },
                errs,
            ),
        },
        _ => (
            None,
            ParseState { cursor: base, prev: prev1, last: last1, stack: st.stack },
            errs,
        ),
    }
}

/// What closing the innermost bracket yields: the closing (or synthetic)
/// token, the state with the opener popped, and the unmatched-delimiter
/// diagnostic when the closer is missing. On an empty stack nothing is
/// popped and a placeholder opener is reported; the parser never reaches
/// that case.
pub open spec fn spec_pair_delimiter_fn(
    tokens: Seq<TokenV>,
    st: ParseState,
    delimiter: Symbol,
) -> (TokenV, ParseState, Seq<ErrorV>) {
    let opener = if st.stack.len() > 0 {
        st.stack.last()
    } else {
        Delimiter { delimiter: DelimiterType::Paren, line: 0, column: 0 }
    };
    let stack1 = if st.stack.len() > 0 {
        st.stack.drop_last()
    } else {
        st.stack
    };
    let la0 = spec_lookahead_at(tokens, st.cursor, st.last);
    match la0 {
        Next::Token(t) => match t {
            TokenV::Symbol(sy) => {
                let st1 = ParseState {
                    cursor: st.cursor + 1,
                    prev: TokenV::Symbol(sy),
                    last: st.last,
                    stack: stack1,
                };
                if sy.symbol == delimiter {
                    (TokenV::Symbol(sy), st1, Seq::<ErrorV>::empty())
                } else {
                    (
                        TokenV::Symbol(SymbolToken { position: sy.position, symbol: delimiter }),
                        st1,
                        seq![spec_unmatched(opener)],
                    )
                }
            },
            _ => (
                TokenV::Symbol(
                    SymbolToken {
                        position: Position {
                            line: spec_token_line(t),
                            column: spec_token_column(t),
                        },
                        symbol: delimiter,
                    },
                ),
                ParseState { cursor: st.cursor, prev: st.prev, last: st.last, stack: stack1 },
                seq![spec_unmatched(opener)],
            ),
        },
        Next::EndOfFile { line, column } => (
            TokenV::Symbol(
                SymbolToken { position: Position { line, column }, symbol: delimiter },
            ),
            ParseState { cursor: st.cursor, prev: st.prev, last: (line, column), stack: stack1 },
            seq![spec_unmatched(opener)],
        ),
        Next::EndOfStream { line, column } => (
            TokenV::Symbol(
                SymbolToken { position: Position { line, column }, symbol: delimiter },
            ),
            ParseState { cursor: st.cursor, prev: st.prev, last: st.last, stack: stack1 },
            seq![spec_unmatched(opener)],
        ),
    }
}

/// The diagnostic for a token that cannot start an operand.
pub open spec fn spec_unexpected(t: TokenV) -> ErrorV {
    ErrorV::ParseError {
        position: Position { line: spec_token_line(t), column: spec_token_column(t) },
        message: "Expected expression but got `"@ + spec_token_lexeme(t) + "`"@,
    }
}

/// The diagnostic for input ending where an operand was expected,
/// positioned one column past the last valid token (saturating).
pub open spec fn spec_missing_operand(prev: TokenV) -> ErrorV {
    let lex = spec_token_lexeme(prev);
    let capped: int = if lex.len() > 0xFFFF_FFFF {
        0xFFFF_FFFF
    } else {
        lex.len() as int
    };
    let shifted = spec_token_column(prev) + capped;
    ErrorV::ParseError {
        position: Position {
            line: spec_token_line(prev),
            column: (if shifted > 0xFFFF_FFFF {
                0xFFFF_FFFF
            } else {
                shifted
            }) as u32,
        },
        message: "Expected expression after `"@ + lex + "`"@,
    }
}

/// The matcher stays within the stream, consumes at most the stray closer
/// plus the matched operator, consumes at least one token when it matches,
/// and leaves the stack alone.
pub proof fn lemma_match_symbols_fn_range(tokens: Seq<TokenV>, st: ParseState, set: Seq<Symbol>)
    requires
        0 <= st.cursor <= tokens.len(),
    ensures
        ({
            let (r0, st1, errs) = spec_match_symbols_fn(tokens, st, set);
            &&& st.cursor <= st1.cursor <= tokens.len()
            &&& (r0 is Some ==> st1.cursor > st.cursor)
            &&& st1.stack == st.stack
        }),
{
}


/// Clamps a cursor into the still-unconsumed range. The productions below
/// only ever move forward, so on their results this changes nothing; it
/// lets each production's termination argument stand on its own.
pub open spec fn spec_clip(tokens: Seq<TokenV>, lo: int, c: int) -> int {
    if c < lo {
        lo
    } else if c > tokens.len() {
        tokens.len() as int
    } else {
        c
    }
}

/// The operator set of each binary precedence level, tightest first:
/// factors, terms, comparisons, equalities.
pub open spec fn spec_level_symbols(level: int) -> Seq<Symbol> {
    if level == 1 {
        seq![Symbol::Asterisk, Symbol::ForwardSlash]
    } else if level == 2 {
        seq![Symbol::Plus, Symbol::Minus]
    } else if level == 3 {
        seq![
            Symbol::LeftAngledBracket,
            Symbol::RightAngledBracket,
            Symbol::LeftAngledBracketEquals,
            Symbol::RightAngledBracketEquals,
        ]
    } else {
        seq![Symbol::DoubleEquals, Symbol::ExclamationPointEquals]
    }
}

/// One binary precedence level: parse one tighter operand, then fold
/// further operands left-associatively while the lookahead is one of the
/// level's operators. The four levels differ only in their operator sets.
pub open spec fn spec_binary_level(tokens: Seq<TokenV>, st: ParseState, level: int) -> ParseOut
    decreases tokens.len() - st.cursor, 2 * level + 2, 0int,
        when 0 <= st.cursor <= tokens.len() && 1 <= level <= 4
    via spec_binary_level_dec
{
    let first = if level == 1 {
        spec_unary_fn(tokens, st)
    } else {
        spec_binary_level(tokens, st, level - 1)
    };
    let st1 = ParseState {
        cursor: spec_clip(tokens, st.cursor, first.state.cursor),
        prev: first.state.prev,
        last: first.state.last,
        stack: first.state.stack,
    };
    let rest = spec_level_loop(tokens, first.expr, st1, level);
    ParseOut { expr: rest.expr, state: rest.state, errors: first.errors + rest.errors }
}

#[via_fn]
proof fn spec_binary_level_dec(tokens: Seq<TokenV>, st: ParseState, level: int) {
}

/// The operator-folding loop of one binary level.
pub open spec fn spec_level_loop(
    tokens: Seq<TokenV>,
    acc: ExprV,
    st: ParseState,
    level: int,
) -> ParseOut
    decreases tokens.len() - st.cursor, 2 * level + 1, 0int,
        when 0 <= st.cursor <= tokens.len() && 1 <= level <= 4
    via spec_level_loop_dec
{
    let (opt, st1, errs) = spec_match_symbols_fn(tokens, st, spec_level_symbols(level));
    match opt {
        None => ParseOut { expr: acc, state: st1, errors: errs },
        Some(op) => {
            let rhs = if level == 1 {
                spec_unary_fn(tokens, st1)
            } else {
                spec_binary_level(tokens, st1, level - 1)
            };
            let st2 = ParseState {
                cursor: spec_clip(tokens, st1.cursor, rhs.state.cursor),
                prev: rhs.state.prev,
                last: rhs.state.last,
                stack: rhs.state.stack,
            };
            let folded = ExprV::Binary {
                operator: op,
                left_operand: Box::new(acc),
                right_operand: Box::new(rhs.expr),
            };
            let rest = spec_level_loop(tokens, folded, st2, level);
            ParseOut {
                expr: rest.expr,
                state: rest.state,
                errors: errs + rhs.errors + rest.errors,
            }
        },
    }
}

#[via_fn]
proof fn spec_level_loop_dec(tokens: Seq<TokenV>, acc: ExprV, st: ParseState, level: int) {
    lemma_match_symbols_fn_range(tokens, st, spec_level_symbols(level));
}

/// unary := ("!" | "-") unary | primary, right-recursive.
pub open spec fn spec_unary_fn(tokens: Seq<TokenV>, st: ParseState) -> ParseOut
    decreases tokens.len() - st.cursor, 2int, 0int,
        when 0 <= st.cursor <= tokens.len()
    via spec_unary_fn_dec
{
    let (opt, st1, errs) = spec_match_symbols_fn(
        tokens,
        st,
        seq![Symbol::ExclamationPoint, Symbol::Minus],
    );
    match opt {
        Some(op) => {
            let inner = spec_unary_fn(tokens, st1);
            ParseOut {
                expr: ExprV::Unary { operator: op, operand: Box::new(inner.expr) },
                state: inner.state,
                errors: errs + inner.errors,
            }
        },
        None => {
            let p = spec_primary_fn(tokens, st1);
            ParseOut { expr: p.expr, state: p.state, errors: errs + p.errors }
        },
    }
}

#[via_fn]
proof fn spec_unary_fn_dec(tokens: Seq<TokenV>, st: ParseState) {
    lemma_match_symbols_fn_range(tokens, st, seq![Symbol::ExclamationPoint, Symbol::Minus]);
}

/// primary := literal | "(" expression ")" | "{" expression "}", with a
/// placeholder unit literal and a diagnostic for anything else.
pub open spec fn spec_primary_fn(tokens: Seq<TokenV>, st: ParseState) -> ParseOut
    decreases tokens.len() - st.cursor, 1int, 0int,
        when 0 <= st.cursor <= tokens.len()
    via spec_primary_fn_dec
{
    let (n, st1) = spec_next_fn(tokens, st);
    match n {
        Next::Token(t) => match t {
            TokenV::Literal(lt) => ParseOut {
                expr: ExprV::Literal { token: lt },
                state: st1,
                errors: Seq::<ErrorV>::empty(),
            },
            TokenV::Symbol(sy) => {
                if sy.symbol == Symbol::LeftParenthesis || sy.symbol == Symbol::LeftCurlyBracket {
                    let opened = Delimiter {
                        delimiter: if sy.symbol == Symbol::LeftParenthesis {
                            DelimiterType::Paren
                        } else {
                            DelimiterType::Curly
                        },
                        line: sy.position.line,
                        column: sy.position.column,
                    };
                    let closer = if sy.symbol == Symbol::LeftParenthesis {
                        Symbol::RightParenthesis
                    } else {
                        Symbol::RightCurlyBracket
                    };
                    let st2 = ParseState {
                        cursor: st1.cursor,
                        prev: st1.prev,
                        last: st1.last,
                        stack: st1.stack.push(opened),
                    };
                    let inner = spec_expression_fn(tokens, st2);
                    let paired = spec_pair_delimiter_fn(tokens, inner.state, closer);
                    ParseOut {
                        expr: ExprV::Grouping { operand: Box::new(inner.expr) },
                        state: paired.1,
                        errors: inner.errors + paired.2,
                    }
                } else {
                    ParseOut {
                        expr: ExprV::Literal {
                            token: crate::token::LiteralTokenV {
                                position: sy.position,
                                literal: crate::token::LiteralV::Void,
                            },
                        },
                        state: st1,
                        errors: seq![spec_unexpected(TokenV::Symbol(sy))],
                    }
                }
            },
            _ => ParseOut {
                expr: ExprV::Literal {
                    token: crate::token::LiteralTokenV {
                        position: Position {
                            line: spec_token_line(t),
                            column: spec_token_column(t),
                        },
                        literal: crate::token::LiteralV::Void,
                    },
                },
                state: st1,
                errors: seq![spec_unexpected(t)],
            },
        },
        Next::EndOfFile { line, column } => ParseOut {
            expr: ExprV::Literal {
                token: crate::token::LiteralTokenV {
                    position: Position { line, column },
                    literal: crate::token::LiteralV::Void,
                },
            },
            state: st1,
            errors: seq![spec_missing_operand(st1.prev)],
        },
        Next::EndOfStream { line, column } => ParseOut {
            expr: ExprV::Literal {
                token: crate::token::LiteralTokenV {
                    position: Position { line, column },
                    literal: crate::token::LiteralV::Void,
                },
            },
            state: st1,
            errors: seq![spec_missing_operand(st1.prev)],
        },
    }
}

#[via_fn]
proof fn spec_primary_fn_dec(tokens: Seq<TokenV>, st: ParseState) {
}

/// expression := equality, the loosest binary level.
pub open spec fn spec_expression_fn(tokens: Seq<TokenV>, st: ParseState) -> ParseOut
    decreases tokens.len() - st.cursor, 11int, 0int,
        when 0 <= st.cursor <= tokens.len()
    via spec_expression_fn_dec
{
    spec_binary_level(tokens, st, 4)
}

#[via_fn]
proof fn spec_expression_fn_dec(tokens: Seq<TokenV>, st: ParseState) {
}


/// What a whole parse yields over a scanned token sequence: the expression
/// tree, the end-of-file token the input closed with, and the diagnostics,
/// in order. Trailing tokens before the sentinel are one further
/// diagnostic.
pub open spec fn spec_parse_fn(tokens: Seq<TokenV>) -> (ExprV, TokenV, Seq<ErrorV>) {
    let init = ParseState {
        cursor: 0,
        prev: TokenV::EndOfFile { position: Position { line: 0, column: 0 } },
        last: (0u32, 0u32),
        stack: Seq::<Delimiter>::empty(),
    };
    let out = spec_expression_fn(tokens, init);
    match spec_lookahead_at(tokens, out.state.cursor, out.state.last) {
        Next::Token(t) => {
            let line = spec_token_line(t);
            let column = spec_token_column(t);
            let bumped: u32 = if column < 0xFFFF_FFFFu32 {
                (column + 1) as u32
            } else {
                column
            };
            (
                out.expr,
                TokenV::EndOfFile { position: Position { line, column: bumped } },
                out.errors + seq![
                    ErrorV::ParseError {
                        position: Position { line, column },
                        message: "Expected EOF but got `"@ + spec_token_lexeme(t) + "`"@,
                    },
                ],
            )
        },
        Next::EndOfFile { line, column } => (
            out.expr,
            TokenV::EndOfFile { position: Position { line, column } },
            out.errors,
        ),
        Next::EndOfStream { line, column } => (
            out.expr,
            TokenV::EndOfFile { position: Position { line, column } },
            out.errors,
        ),
    }
}

impl Parser {
    /// Parses one whole expression and requires the stream to be at the
    /// end-of-file sentinel afterwards; trailing tokens are a diagnostic.
    /// Failures never abort: they are collected in `errors` and the tree
    /// degrades to placeholder nodes, so the caller must ask the handler
    /// whether the parse was clean.
    pub fn parse(
        &mut self,
        tokens: &Vec<Token>,
        errors: &mut ErrorHandler,
    ) -> (r: SyntaxTree)
        requires
            old(self).spec_stack().len() == 0,
        ensures
            final(self).spec_stack().len() == 0,
            spec_extends(old(errors)@, final(errors)@),
            r@.eof is EndOfFile,
            ({
                let parsed = spec_parse_fn(crate::lexer::spec_tokens_view(tokens@));
                &&& r@.root == parsed.0
                &&& r@.eof == parsed.1
                &&& final(errors)@ == old(errors)@ + parsed.2
            }),
    {
        let ghost toks = crate::lexer::spec_tokens_view(tokens@);
        let mut provider = TokenProvider::new(tokens);
        proof {
            let init = ParseState {
                cursor: 0,
                prev: TokenV::EndOfFile { position: Position { line: 0, column: 0 } },
                last: (0u32, 0u32),
                stack: Seq::<Delimiter>::empty(),
            };
            assert(old(self).spec_stack() =~= Seq::<Delimiter>::empty());
            assert(spec_state_of(provider, *self) == init);
        }
        let root = self.expression(&mut provider, errors);
        let ghost out = spec_expression_fn(
            toks,
            ParseState {
                cursor: 0,
                prev: TokenV::EndOfFile { position: Position { line: 0, column: 0 } },
                last: (0u32, 0u32),
                stack: Seq::<Delimiter>::empty(),
            },
        );
        let next = provider.peek();
        match next {
            Next::Token(t) => {
                let line = t.line();
                let column = t.column();
                let mut message: Vec<char> = Vec::new();
                push_str_chars(&mut message, "Expected EOF but got `");
                let lex = t.lexeme();
                push_str_chars(&mut message, lex.as_str());
                push_str_chars(&mut message, "`");
                proof {
                    assert(message@ =~= "Expected EOF but got `"@ + spec_token_lexeme(t@) + "`"@);
                }
                errors.push(
                    InterpreterError::ParseError {
                        position: Position { line, column },
                        message: string_from_chars(&message),
                    },
                );
                proof {
                    assert(errors@ =~= old(errors)@ + spec_parse_fn(toks).2);
                }
                let bumped = if column < 0xFFFF_FFFFu32 {
                    column + 1
                } else {
                    column
                };
                SyntaxTree {
                    root,
                    eof: Token::EndOfFile { position: Position { line, column: bumped } },
                }
            },
            Next::EndOfFile { line, column } => {
                proof {
                    assert(errors@ =~= old(errors)@ + spec_parse_fn(toks).2);
                }
                SyntaxTree {
                    root,
                    eof: Token::EndOfFile { position: Position { line, column } },
                }
            },
            Next::EndOfStream { line, column } => {
                proof {
                    assert(errors@ =~= old(errors)@ + spec_parse_fn(toks).2);
                }
                SyntaxTree {
                    root,
                    eof: Token::EndOfFile { position: Position { line, column } },
                }
            },
        }
    }

    /// expression := equality
    fn expression(
        &mut self,
        tokens: &mut TokenProvider,
        errors: &mut ErrorHandler,
    ) -> (r: Expression)
        requires
            old(tokens).wf(),
        ensures
            final(tokens).wf(),
            final(tokens).spec_tokens() == old(tokens).spec_tokens(),
            old(tokens).spec_cursor() <= final(tokens).spec_cursor() <= final(tokens).spec_tokens().len(),
            final(self).spec_stack() == old(self).spec_stack(),
            spec_extends(old(errors)@, final(errors)@),
            ({
                let out = spec_expression_fn(
                    old(tokens).spec_tokens(),
                    spec_state_of(*old(tokens), *old(self)),
                );
                &&& spec_out_matches(*final(tokens), *final(self), r@, out)
                &&& final(errors)@ == old(errors)@ + out.errors
            }),
        decreases
                old(tokens).spec_tokens().len() - old(tokens).spec_cursor(),
                7int,
    {
        self.equality(tokens, errors)
    }




    /// factor := unary (("*" | "/") unary)*, left-associative
    fn factor(&mut self, tokens: &mut TokenProvider, errors: &mut ErrorHandler) -> (r: Expression)
        requires
            old(tokens).wf(),
        ensures
            final(tokens).wf(),
            final(tokens).spec_tokens() == old(tokens).spec_tokens(),
            old(tokens).spec_cursor() <= final(tokens).spec_cursor() <= final(tokens).spec_tokens().len(),
            final(self).spec_stack() == old(self).spec_stack(),
            spec_extends(old(errors)@, final(errors)@),
            ({
                let out = spec_binary_level(
                    old(tokens).spec_tokens(),
                    spec_state_of(*old(tokens), *old(self)),
                    1,
                );
                &&& spec_out_matches(*final(tokens), *final(self), r@, out)
                &&& final(errors)@ == old(errors)@ + out.errors
            }),
        decreases
                old(tokens).spec_tokens().len() - old(tokens).spec_cursor(),
                3int,
    {
        let ghost toks = old(tokens).spec_tokens();
        let ghost st0 = spec_state_of(*old(tokens), *old(self));
        let ghost target = spec_binary_level(toks, st0, 1);
        let mut result = self.unary(tokens, errors);
        let ghost first = spec_unary_fn(toks, st0);
        let ghost mut e_pref = first.errors;
        proof {
            assert(spec_out_matches(*tokens, *self, result@, first));
            assert(st0.cursor <= first.state.cursor);
            assert(first.state.cursor <= toks.len());
            assert(spec_clip(toks, st0.cursor, first.state.cursor) == first.state.cursor);
            assert(spec_state_of(*tokens, *self) == (ParseState {
                cursor: spec_clip(toks, st0.cursor, first.state.cursor),
                prev: first.state.prev,
                last: first.state.last,
                stack: first.state.stack,
            }));
        }
        loop
            invariant_except_break
                errors@ == old(errors)@ + e_pref,
                ({
                    let rest = spec_level_loop(
                        toks,
                        result@,
                        spec_state_of(*tokens, *self),
                        1,
                    );
                    &&& target.expr == rest.expr
                    &&& target.state == rest.state
                    &&& target.errors == e_pref + rest.errors
                }),
            invariant
                tokens.wf(),
                toks == old(tokens).spec_tokens(),
                st0 == spec_state_of(*old(tokens), *old(self)),
                target == spec_binary_level(toks, st0, 1),
                tokens.spec_tokens() == toks,
                0 <= st0.cursor <= tokens.spec_cursor() <= toks.len(),
                self.spec_stack() == old(self).spec_stack(),
                spec_extends(old(errors)@, errors@),
            ensures
                tokens.wf(),
                tokens.spec_tokens() == toks,
                st0.cursor <= tokens.spec_cursor() <= toks.len(),
                self.spec_stack() == old(self).spec_stack(),
                spec_extends(old(errors)@, errors@),
                spec_out_matches(*tokens, *self, result@, target),
                errors@ == old(errors)@ + target.errors,
            decreases toks.len() - tokens.spec_cursor(),
        {
            let ghost pre = *tokens;
            let ghost acc0 = result@;
            let ghost pre_epref = e_pref;
            let candidates = vec![Symbol::Asterisk, Symbol::ForwardSlash];
            proof {
                assert(candidates@ =~= spec_level_symbols(1));
            }
            match self.match_symbols(tokens, errors, &candidates) {
                Some(operator) => {
                    let ghost matched = spec_match_symbols_fn(
                        toks,
                        spec_state_of(pre, *self),
                        spec_level_symbols(1),
                    );
                    proof {
                        e_pref = e_pref + matched.2;
                        assert(errors@ =~= old(errors)@ + e_pref);
                        assert(spec_state_of(*tokens, *self) == matched.1);
                    }
                    let ghost mid = *tokens;
                    let right = self.unary(tokens, errors);
                    let ghost rhs = spec_unary_fn(toks, matched.1);
                    proof {
                        e_pref = e_pref + rhs.errors;
                        assert(errors@ =~= old(errors)@ + e_pref);
                        assert(spec_clip(toks, matched.1.cursor, rhs.state.cursor)
                            == rhs.state.cursor);
                    }
                    result = Expression::Binary {
                        left_operand: Box::new(result),
                        operator,
                        right_operand: Box::new(right),
                    };
                    proof {
                        let st_pre = spec_state_of(pre, *self);
                        let prev_rest = spec_level_loop(toks, acc0, st_pre, 1);
                        let st2 = ParseState {
                            cursor: spec_clip(toks, matched.1.cursor, rhs.state.cursor),
                            prev: rhs.state.prev,
                            last: rhs.state.last,
                            stack: rhs.state.stack,
                        };
                        assert(st2 == spec_state_of(*tokens, *self));
                        let new_rest = spec_level_loop(toks, result@, st2, 1);
                        assert(prev_rest.expr == new_rest.expr);
                        assert(prev_rest.state == new_rest.state);
                        assert(prev_rest.errors =~= matched.2 + rhs.errors + new_rest.errors);
                        assert(target.errors =~= e_pref + new_rest.errors);
                    }
                },
                None => {
                    proof {
                        let st_pre = spec_state_of(pre, *self);
                        let rest = spec_level_loop(toks, acc0, st_pre, 1);
                        assert(rest.expr == acc0);
                        assert(spec_state_of(*tokens, *self) == rest.state);
                        assert(errors@ =~= old(errors)@ + (pre_epref + rest.errors));
                    }
                    break ;
                },
            }
        }
        result
    }

    /// term := factor (("+" | "-") factor)*, left-associative
    fn term(&mut self, tokens: &mut TokenProvider, errors: &mut ErrorHandler) -> (r: Expression)
        requires
            old(tokens).wf(),
        ensures
            final(tokens).wf(),
            final(tokens).spec_tokens() == old(tokens).spec_tokens(),
            old(tokens).spec_cursor() <= final(tokens).spec_cursor() <= final(tokens).spec_tokens().len(),
            final(self).spec_stack() == old(self).spec_stack(),
            spec_extends(old(errors)@, final(errors)@),
            ({
                let out = spec_binary_level(
                    old(tokens).spec_tokens(),
                    spec_state_of(*old(tokens), *old(self)),
                    2,
                );
                &&& spec_out_matches(*final(tokens), *final(self), r@, out)
                &&& final(errors)@ == old(errors)@ + out.errors
            }),
        decreases
                old(tokens).spec_tokens().len() - old(tokens).spec_cursor(),
                4int,
    {
        let ghost toks = old(tokens).spec_tokens();
        let ghost st0 = spec_state_of(*old(tokens), *old(self));
        let ghost target = spec_binary_level(toks, st0, 2);
        let mut result = self.factor(tokens, errors);
        let ghost first = spec_binary_level(toks, st0, 1);
        let ghost mut e_pref = first.errors;
        proof {
            assert(spec_out_matches(*tokens, *self, result@, first));
            assert(st0.cursor <= first.state.cursor);
            assert(first.state.cursor <= toks.len());
            assert(spec_clip(toks, st0.cursor, first.state.cursor) == first.state.cursor);
            assert(spec_state_of(*tokens, *self) == (ParseState {
                cursor: spec_clip(toks, st0.cursor, first.state.cursor),
                prev: first.state.prev,
                last: first.state.last,
                stack: first.state.stack,
            }));
        }
        loop
            invariant_except_break
                errors@ == old(errors)@ + e_pref,
                ({
                    let rest = spec_level_loop(
                        toks,
                        result@,
                        spec_state_of(*tokens, *self),
                        2,
                    );
                    &&& target.expr == rest.expr
                    &&& target.state == rest.state
                    &&& target.errors == e_pref + rest.errors
                }),
            invariant
                tokens.wf(),
                toks == old(tokens).spec_tokens(),
                st0 == spec_state_of(*old(tokens), *old(self)),
                target == spec_binary_level(toks, st0, 2),
                tokens.spec_tokens() == toks,
                0 <= st0.cursor <= tokens.spec_cursor() <= toks.len(),
                self.spec_stack() == old(self).spec_stack(),
                spec_extends(old(errors)@, errors@),
            ensures
                tokens.wf(),
                tokens.spec_tokens() == toks,
                st0.cursor <= tokens.spec_cursor() <= toks.len(),
                self.spec_stack() == old(self).spec_stack(),
                spec_extends(old(errors)@, errors@),
                spec_out_matches(*tokens, *self, result@, target),
                errors@ == old(errors)@ + target.errors,
            decreases toks.len() - tokens.spec_cursor(),
        {
            let ghost pre = *tokens;
            let ghost acc0 = result@;
            let ghost pre_epref = e_pref;
            let candidates = vec![Symbol::Plus, Symbol::Minus];
            proof {
                assert(candidates@ =~= spec_level_symbols(2));
            }
            match self.match_symbols(tokens, errors, &candidates) {
                Some(operator) => {
                    let ghost matched = spec_match_symbols_fn(
                        toks,
                        spec_state_of(pre, *self),
                        spec_level_symbols(2),
                    );
                    proof {
                        e_pref = e_pref + matched.2;
                        assert(errors@ =~= old(errors)@ + e_pref);
                        assert(spec_state_of(*tokens, *self) == matched.1);
                    }
                    let ghost mid = *tokens;
                    let right = self.factor(tokens, errors);
                    let ghost rhs = spec_binary_level(toks, matched.1, 1);
                    proof {
                        e_pref = e_pref + rhs.errors;
                        assert(errors@ =~= old(errors)@ + e_pref);
                        assert(spec_clip(toks, matched.1.cursor, rhs.state.cursor)
                            == rhs.state.cursor);
                    }
                    result = Expression::Binary {
                        left_operand: Box::new(result),
                        operator,
                        right_operand: Box::new(right),
                    };
                    proof {
                        let st_pre = spec_state_of(pre, *self);
                        let prev_rest = spec_level_loop(toks, acc0, st_pre, 2);
                        let st2 = ParseState {
                            cursor: spec_clip(toks, matched.1.cursor, rhs.state.cursor),
                            prev: rhs.state.prev,
                            last: rhs.state.last,
                            stack: rhs.state.stack,
                        };
                        assert(st2 == spec_state_of(*tokens, *self));
                        let new_rest = spec_level_loop(toks, result@, st2, 2);
                        assert(prev_rest.expr == new_rest.expr);
                        assert(prev_rest.state == new_rest.state);
                        assert(prev_rest.errors =~= matched.2 + rhs.errors + new_rest.errors);
                        assert(target.errors =~= e_pref + new_rest.errors);
                    }
                },
                None => {
                    proof {
                        let st_pre = spec_state_of(pre, *self);
                        let rest = spec_level_loop(toks, acc0, st_pre, 2);
                        assert(rest.expr == acc0);
                        assert(spec_state_of(*tokens, *self) == rest.state);
                        assert(errors@ =~= old(errors)@ + (pre_epref + rest.errors));
                    }
                    break ;
                },
            }
        }
        result
    }

    /// comparison := term (("<" | ">" | "<=" | ">=") term)*, left-associative
    fn comparison(&mut self, tokens: &mut TokenProvider, errors: &mut ErrorHandler) -> (r: Expression)
        requires
            old(tokens).wf(),
        ensures
            final(tokens).wf(),
            final(tokens).spec_tokens() == old(tokens).spec_tokens(),
            old(tokens).spec_cursor() <= final(tokens).spec_cursor() <= final(tokens).spec_tokens().len(),
            final(self).spec_stack() == old(self).spec_stack(),
            spec_extends(old(errors)@, final(errors)@),
            ({
                let out = spec_binary_level(
                    old(tokens).spec_tokens(),
                    spec_state_of(*old(tokens), *old(self)),
                    3,
                );
                &&& spec_out_matches(*final(tokens), *final(self), r@, out)
                &&& final(errors)@ == old(errors)@ + out.errors
            }),
        decreases
                old(tokens).spec_tokens().len() - old(tokens).spec_cursor(),
                5int,
    {
        let ghost toks = old(tokens).spec_tokens();
        let ghost st0 = spec_state_of(*old(tokens), *old(self));
        let ghost target = spec_binary_level(toks, st0, 3);
        let mut result = self.term(tokens, errors);
        let ghost first = spec_binary_level(toks, st0, 2);
        let ghost mut e_pref = first.errors;
        proof {
            assert(spec_out_matches(*tokens, *self, result@, first));
            assert(st0.cursor <= first.state.cursor);
            assert(first.state.cursor <= toks.len());
            assert(spec_clip(toks, st0.cursor, first.state.cursor) == first.state.cursor);
            assert(spec_state_of(*tokens, *self) == (ParseState {
                cursor: spec_clip(toks, st0.cursor, first.state.cursor),
                prev: first.state.prev,
                last: first.state.last,
                stack: first.state.stack,
            }));
        }
        loop
            invariant_except_break
                errors@ == old(errors)@ + e_pref,
                ({
                    let rest = spec_level_loop(
                        toks,
                        result@,
                        spec_state_of(*tokens, *self),
                        3,
                    );
                    &&& target.expr == rest.expr
                    &&& target.state == rest.state
                    &&& target.errors == e_pref + rest.errors
                }),
            invariant
                tokens.wf(),
                toks == old(tokens).spec_tokens(),
                st0 == spec_state_of(*old(tokens), *old(self)),
                target == spec_binary_level(toks, st0, 3),
                tokens.spec_tokens() == toks,
                0 <= st0.cursor <= tokens.spec_cursor() <= toks.len(),
                self.spec_stack() == old(self).spec_stack(),
                spec_extends(old(errors)@, errors@),
            ensures
                tokens.wf(),
                tokens.spec_tokens() == toks,
                st0.cursor <= tokens.spec_cursor() <= toks.len(),
                self.spec_stack() == old(self).spec_stack(),
                spec_extends(old(errors)@, errors@),
                spec_out_matches(*tokens, *self, result@, target),
                errors@ == old(errors)@ + target.errors,
            decreases toks.len() - tokens.spec_cursor(),
        {
            let ghost pre = *tokens;
            let ghost acc0 = result@;
            let ghost pre_epref = e_pref;
            let candidates = vec![
                Symbol::LeftAngledBracket,
                Symbol::RightAngledBracket,
                Symbol::LeftAngledBracketEquals,
                Symbol::RightAngledBracketEquals,
            ];
            proof {
                assert(candidates@ =~= spec_level_symbols(3));
            }
            match self.match_symbols(tokens, errors, &candidates) {
                Some(operator) => {
                    let ghost matched = spec_match_symbols_fn(
                        toks,
                        spec_state_of(pre, *self),
                        spec_level_symbols(3),
                    );
                    proof {
                        e_pref = e_pref + matched.2;
                        assert(errors@ =~= old(errors)@ + e_pref);
                        assert(spec_state_of(*tokens, *self) == matched.1);
                    }
                    let ghost mid = *tokens;
                    let right = self.term(tokens, errors);
                    let ghost rhs = spec_binary_level(toks, matched.1, 2);
                    proof {
                        e_pref = e_pref + rhs.errors;
                        assert(errors@ =~= old(errors)@ + e_pref);
                        assert(spec_clip(toks, matched.1.cursor, rhs.state.cursor)
                            == rhs.state.cursor);
                    }
                    result = Expression::Binary {
                        left_operand: Box::new(result),
                        operator,
                        right_operand: Box::new(right),
                    };
                    proof {
                        let st_pre = spec_state_of(pre, *self);
                        let prev_rest = spec_level_loop(toks, acc0, st_pre, 3);
                        let st2 = ParseState {
                            cursor: spec_clip(toks, matched.1.cursor, rhs.state.cursor),
                            prev: rhs.state.prev,
                            last: rhs.state.last,
                            stack: rhs.state.stack,
                        };
                        assert(st2 == spec_state_of(*tokens, *self));
                        let new_rest = spec_level_loop(toks, result@, st2, 3);
                        assert(prev_rest.expr == new_rest.expr);
                        assert(prev_rest.state == new_rest.state);
                        assert(prev_rest.errors =~= matched.2 + rhs.errors + new_rest.errors);
                        assert(target.errors =~= e_pref + new_rest.errors);
                    }
                },
                None => {
                    proof {
                        let st_pre = spec_state_of(pre, *self);
                        let rest = spec_level_loop(toks, acc0, st_pre, 3);
                        assert(rest.expr == acc0);
                        assert(spec_state_of(*tokens, *self) == rest.state);
                        assert(errors@ =~= old(errors)@ + (pre_epref + rest.errors));
                    }
                    break ;
                },
            }
        }
        result
    }

    /// equality := comparison (("==" | "!=") comparison)*, left-associative
    fn equality(&mut self, tokens: &mut TokenProvider, errors: &mut ErrorHandler) -> (r: Expression)
        requires
            old(tokens).wf(),
        ensures
            final(tokens).wf(),
            final(tokens).spec_tokens() == old(tokens).spec_tokens(),
            old(tokens).spec_cursor() <= final(tokens).spec_cursor() <= final(tokens).spec_tokens().len(),
            final(self).spec_stack() == old(self).spec_stack(),
            spec_extends(old(errors)@, final(errors)@),
            ({
                let out = spec_binary_level(
                    old(tokens).spec_tokens(),
                    spec_state_of(*old(tokens), *old(self)),
                    4,
                );
                &&& spec_out_matches(*final(tokens), *final(self), r@, out)
                &&& final(errors)@ == old(errors)@ + out.errors
            }),
        decreases
                old(tokens).spec_tokens().len() - old(tokens).spec_cursor(),
                6int,
    {
        let ghost toks = old(tokens).spec_tokens();
        let ghost st0 = spec_state_of(*old(tokens), *old(self));
        let ghost target = spec_binary_level(toks, st0, 4);
        let mut result = self.comparison(tokens, errors);
        let ghost first = spec_binary_level(toks, st0, 3);
        let ghost mut e_pref = first.errors;
        proof {
            assert(spec_out_matches(*tokens, *self, result@, first));
            assert(st0.cursor <= first.state.cursor);
            assert(first.state.cursor <= toks.len());
            assert(spec_clip(toks, st0.cursor, first.state.cursor) == first.state.cursor);
            assert(spec_state_of(*tokens, *self) == (ParseState {
                cursor: spec_clip(toks, st0.cursor, first.state.cursor),
                prev: first.state.prev,
                last: first.state.last,
                stack: first.state.stack,
            }));
        }
        loop
            invariant_except_break
                errors@ == old(errors)@ + e_pref,
                ({
                    let rest = spec_level_loop(
                        toks,
                        result@,
                        spec_state_of(*tokens, *self),
                        4,
                    );
                    &&& target.expr == rest.expr
                    &&& target.state == rest.state
                    &&& target.errors == e_pref + rest.errors
                }),
            invariant
                tokens.wf(),
                toks == old(tokens).spec_tokens(),
                st0 == spec_state_of(*old(tokens), *old(self)),
                target == spec_binary_level(toks, st0, 4),
                tokens.spec_tokens() == toks,
                0 <= st0.cursor <= tokens.spec_cursor() <= toks.len(),
                self.spec_stack() == old(self).spec_stack(),
                spec_extends(old(errors)@, errors@),
            ensures
                tokens.wf(),
                tokens.spec_tokens() == toks,
                st0.cursor <= tokens.spec_cursor() <= toks.len(),
                self.spec_stack() == old(self).spec_stack(),
                spec_extends(old(errors)@, errors@),
                spec_out_matches(*tokens, *self, result@, target),
                errors@ == old(errors)@ + target.errors,
            decreases toks.len() - tokens.spec_cursor(),
        {
            let ghost pre = *tokens;
            let ghost acc0 = result@;
            let ghost pre_epref = e_pref;
            let candidates = vec![Symbol::DoubleEquals, Symbol::ExclamationPointEquals];
            proof {
                assert(candidates@ =~= spec_level_symbols(4));
            }
            match self.match_symbols(tokens, errors, &candidates) {
                Some(operator) => {
                    let ghost matched = spec_match_symbols_fn(
                        toks,
                        spec_state_of(pre, *self),
                        spec_level_symbols(4),
                    );
                    proof {
                        e_pref = e_pref + matched.2;
                        assert(errors@ =~= old(errors)@ + e_pref);
                        assert(spec_state_of(*tokens, *self) == matched.1);
                    }
                    let ghost mid = *tokens;
                    let right = self.comparison(tokens, errors);
                    let ghost rhs = spec_binary_level(toks, matched.1, 3);
                    proof {
                        e_pref = e_pref + rhs.errors;
                        assert(errors@ =~= old(errors)@ + e_pref);
                        assert(spec_clip(toks, matched.1.cursor, rhs.state.cursor)
                            == rhs.state.cursor);
                    }
                    result = Expression::Binary {
                        left_operand: Box::new(result),
                        operator,
                        right_operand: Box::new(right),
                    };
                    proof {
                        let st_pre = spec_state_of(pre, *self);
                        let prev_rest = spec_level_loop(toks, acc0, st_pre, 4);
                        let st2 = ParseState {
                            cursor: spec_clip(toks, matched.1.cursor, rhs.state.cursor),
                            prev: rhs.state.prev,
                            last: rhs.state.last,
                            stack: rhs.state.stack,
                        };
                        assert(st2 == spec_state_of(*tokens, *self));
                        let new_rest = spec_level_loop(toks, result@, st2, 4);
                        assert(prev_rest.expr == new_rest.expr);
                        assert(prev_rest.state == new_rest.state);
                        assert(prev_rest.errors =~= matched.2 + rhs.errors + new_rest.errors);
                        assert(target.errors =~= e_pref + new_rest.errors);
                    }
                },
                None => {
                    proof {
                        let st_pre = spec_state_of(pre, *self);
                        let rest = spec_level_loop(toks, acc0, st_pre, 4);
                        assert(rest.expr == acc0);
                        assert(spec_state_of(*tokens, *self) == rest.state);
                        assert(errors@ =~= old(errors)@ + (pre_epref + rest.errors));
                    }
                    break ;
                },
            }
        }
        result
    }


    /// unary := ("!" | "-") unary | primary, right-recursive
    fn unary(&mut self, tokens: &mut TokenProvider, errors: &mut ErrorHandler) -> (r: Expression)
        requires
            old(tokens).wf(),
        ensures
            final(tokens).wf(),
            final(tokens).spec_tokens() == old(tokens).spec_tokens(),
            old(tokens).spec_cursor() <= final(tokens).spec_cursor() <= final(tokens).spec_tokens().len(),
            final(self).spec_stack() == old(self).spec_stack(),
            spec_extends(old(errors)@, final(errors)@),
            ({
                let out = spec_unary_fn(
                    old(tokens).spec_tokens(),
                    spec_state_of(*old(tokens), *old(self)),
                );
                &&& spec_out_matches(*final(tokens), *final(self), r@, out)
                &&& final(errors)@ == old(errors)@ + out.errors
            }),
        decreases
                old(tokens).spec_tokens().len() - old(tokens).spec_cursor(),
                2int,
    {
        let ghost toks = old(tokens).spec_tokens();
        let ghost st0 = spec_state_of(*old(tokens), *old(self));
        let candidates = vec![Symbol::ExclamationPoint, Symbol::Minus];
        proof {
            assert(candidates@ =~= seq![Symbol::ExclamationPoint, Symbol::Minus]);
        }
        let ghost matched = spec_match_symbols_fn(
            toks,
            st0,
            seq![Symbol::ExclamationPoint, Symbol::Minus],
        );
        match self.match_symbols(tokens, errors, &candidates) {
            Some(operator) => {
                proof {
                    assert(spec_state_of(*tokens, *self) == matched.1);
                }
                let operand = Box::new(self.unary(tokens, errors));
                proof {
                    let inner = spec_unary_fn(toks, matched.1);
                    assert(errors@ =~= old(errors)@ + (matched.2 + inner.errors));
                }
                Expression::Unary { operator, operand }
            },
            None => {
                proof {
                    assert(spec_state_of(*tokens, *self) == matched.1);
                }
                let r = self.primary(tokens, errors);
                proof {
                    let p = spec_primary_fn(toks, matched.1);
                    assert(errors@ =~= old(errors)@ + (matched.2 + p.errors));
                }
                r
            },
        }
    }

    /// primary := NUMBER | STRING | "(" expression ")" | "{" expression "}"
    ///
    /// A missing or unusable operand is a diagnostic plus a placeholder
    /// unit literal, so parsing continues.
    fn primary(&mut self, tokens: &mut TokenProvider, errors: &mut ErrorHandler) -> (r: Expression)
        requires
            old(tokens).wf(),
        ensures
            final(tokens).wf(),
            final(tokens).spec_tokens() == old(tokens).spec_tokens(),
            old(tokens).spec_cursor() <= final(tokens).spec_cursor() <= final(tokens).spec_tokens().len(),
            final(self).spec_stack() == old(self).spec_stack(),
            spec_extends(old(errors)@, final(errors)@),
            ({
                let out = spec_primary_fn(
                    old(tokens).spec_tokens(),
                    spec_state_of(*old(tokens), *old(self)),
                );
                &&& spec_out_matches(*final(tokens), *final(self), r@, out)
                &&& final(errors)@ == old(errors)@ + out.errors
            }),
        decreases
                old(tokens).spec_tokens().len() - old(tokens).spec_cursor(),
                1int,
    {
        let ghost toks = old(tokens).spec_tokens();
        let ghost st0 = spec_state_of(*old(tokens), *old(self));
        let next_token = tokens.next();
        match next_token {
            Next::Token(token) => {
                match token {
                    Token::Literal(literal_token) => {
                        proof {
                            assert(old(errors)@ + Seq::<ErrorV>::empty() =~= old(errors)@);
                        }
                        Expression::Literal { token: literal_token }
                    },
                    Token::Symbol(symbol_token) => {
                        if symbol_token.symbol == Symbol::LeftParenthesis || symbol_token.symbol
                            == Symbol::LeftCurlyBracket {
                            let opened = Delimiter {
                                delimiter: if symbol_token.symbol == Symbol::LeftParenthesis {
                                    DelimiterType::Paren
                                } else {
                                    DelimiterType::Curly
                                },
                                line: symbol_token.position.line,
                                column: symbol_token.position.column,
                            };
                            let closer = if symbol_token.symbol == Symbol::LeftParenthesis {
                                Symbol::RightParenthesis
                            } else {
                                Symbol::RightCurlyBracket
                            };
                            self.delimiter_stack.push(opened);
                            let ghost st2 = spec_state_of(*tokens, *self);
                            let operand = Box::new(self.expression(tokens, errors));
                            let ghost inner = spec_expression_fn(toks, st2);
                            proof {
                                assert(spec_state_of(*tokens, *self) == inner.state);
                            }
                            let closing = self.pair_delimiter(tokens, errors, closer);
                            proof {
                                let paired = spec_pair_delimiter_fn(toks, inner.state, closer);
                                assert(errors@ =~= old(errors)@ + (inner.errors + paired.2));
                            }
                            Expression::Grouping { operand }
                        } else {
                            self.unexpected_token_error(
                                errors,
                                &Token::Symbol(symbol_token),
                            );
                            proof {
                                assert(errors@ =~= old(errors)@ + seq![
                                    spec_unexpected(TokenV::Symbol(symbol_token)),
                                ]);
                            }
                            Expression::Literal {
                                token: crate::token::LiteralToken {
                                    position: symbol_token.position,
                                    literal: crate::token::Literal::Void,
                                },
                            }
                        }
                    },
                    other => {
                        let line = other.line();
                        let column = other.column();
                        let ghost ov = other@;
                        self.unexpected_token_error(errors, &other);
                        proof {
                            assert(errors@ =~= old(errors)@ + seq![spec_unexpected(ov)]);
                        }
                        Expression::Literal {
                            token: crate::token::LiteralToken {
                                position: Position { line, column },
                                literal: crate::token::Literal::Void,
                            },
                        }
                    },
                }
            },
            Next::EndOfFile { line, column } => {
                self.missing_operand_error(tokens, errors);
                proof {
                    assert(errors@ =~= old(errors)@ + seq![
                        spec_missing_operand(tokens.spec_prev()),
                    ]);
                }
                Expression::Literal {
                    token: crate::token::LiteralToken {
                        position: Position { line, column },
                        literal: crate::token::Literal::Void,
                    },
                }
            },
            Next::EndOfStream { line, column } => {
                self.missing_operand_error(tokens, errors);
                proof {
                    assert(errors@ =~= old(errors)@ + seq![
                        spec_missing_operand(tokens.spec_prev()),
                    ]);
                }
                Expression::Literal {
                    token: crate::token::LiteralToken {
                        position: Position { line, column },
                        literal: crate::token::Literal::Void,
                    },
                }
            },
        }
    }

    /// Reports an operand position holding a token that cannot start an
    /// expression.
    fn unexpected_token_error(&self, errors: &mut ErrorHandler, token: &Token)
        ensures
            final(errors)@ == old(errors)@.push(
                ErrorV::ParseError {
                    position: Position {
                        line: spec_token_line(token@),
                        column: spec_token_column(token@),
                    },
                    message: "Expected expression but got `"@ + spec_token_lexeme(token@) + "`"@,
                },
            ),
            spec_extends(old(errors)@, final(errors)@),
    {
        let mut message: Vec<char> = Vec::new();
        push_str_chars(&mut message, "Expected expression but got `");
        let lex = token.lexeme();
        push_str_chars(&mut message, lex.as_str());
        push_str_chars(&mut message, "`");
        let line = token.line();
        let column = token.column();
        errors.push(
            InterpreterError::ParseError {
                position: Position { line, column },
                message: string_from_chars(&message),
            },
        );
    }

    /// Reports input ending where an operand was expected, positioned one
    /// column past the last valid token (columns saturate rather than wrap).
    fn missing_operand_error(&self, tokens: &TokenProvider, errors: &mut ErrorHandler)
        ensures
            final(errors)@ == old(errors)@.push(
                ({
                    let prev = tokens.spec_prev();
                    let lex = spec_token_lexeme(prev);
                    let capped: int = if lex.len() > 0xFFFF_FFFF {
                        0xFFFF_FFFF
                    } else {
                        lex.len() as int
                    };
                    let shifted = spec_token_column(prev) + capped;
                    ErrorV::ParseError {
                        position: Position {
                            line: spec_token_line(prev),
                            column: (if shifted > 0xFFFF_FFFF {
                                0xFFFF_FFFF
                            } else {
                                shifted
                            }) as u32,
                        },
                        message: "Expected expression after `"@ + lex + "`"@,
                    }
                }),
            ),
            spec_extends(old(errors)@, final(errors)@),
    {
        let prev = tokens.previous_valid();
        let line = prev.line();
        let column = prev.column();
        let lex = prev.lexeme();
        let mut message: Vec<char> = Vec::new();
        push_str_chars(&mut message, "Expected expression after `");
        push_str_chars(&mut message, lex.as_str());
        push_str_chars(&mut message, "`");
        let len: usize = lex.as_str().unicode_len();
        let capped: u64 = if len as u64 > 0xFFFF_FFFFu64 {
            0xFFFF_FFFFu64
        } else {
            len as u64
        };
        let shifted: u64 = column as u64 + capped;
        let target: u32 = if shifted > 0xFFFF_FFFFu64 {
            0xFFFF_FFFFu32
        } else {
            shifted as u32
        };
        errors.push(
            InterpreterError::ParseError {
                position: Position { line, column: target },
                message: string_from_chars(&message),
            },
        );
    }

    /// Closes the innermost open bracket: consumes the matching closer when
    /// it is next, otherwise reports the opener as unmatched. Always pops
    /// the entry it closes.
    fn pair_delimiter(
        &mut self,
        tokens: &mut TokenProvider,
        errors: &mut ErrorHandler,
        delimiter: Symbol,
    ) -> (r: Token)
        requires
            old(tokens).wf(),
            old(self).spec_stack().len() > 0,
        ensures
            final(tokens).wf(),
            final(tokens).spec_tokens() == old(tokens).spec_tokens(),
            old(tokens).spec_cursor() <= final(tokens).spec_cursor() <= final(tokens).spec_tokens().len(),
            final(self).spec_stack() == old(self).spec_stack().drop_last(),
            spec_extends(old(errors)@, final(errors)@),
            ({
                let opener = old(self).spec_stack().last();
                let la0 = old(tokens).spec_lookahead();
                match la0 {
                    Next::Token(t) => match t {
                        TokenV::Symbol(st) => {
                            &&& final(tokens).spec_cursor() == old(tokens).spec_cursor() + 1
                            &&& final(tokens).spec_prev() == TokenV::Symbol(st)
                            &&& final(tokens).spec_last() == old(tokens).spec_last()
                            &&& (if st.symbol == delimiter {
                                &&& final(errors)@ == old(errors)@
                                &&& r@ == TokenV::Symbol(st)
                            } else {
                                &&& final(errors)@ == old(errors)@.push(spec_unmatched(opener))
                                &&& r@ == TokenV::Symbol(
                                    SymbolToken { position: st.position, symbol: delimiter },
                                )
                            })
                        },
                        _ => {
                            &&& final(tokens).spec_cursor() == old(tokens).spec_cursor()
                            &&& final(tokens).spec_prev() == old(tokens).spec_prev()
                            &&& final(tokens).spec_last() == old(tokens).spec_last()
                            &&& final(errors)@ == old(errors)@.push(spec_unmatched(opener))
                            &&& r@ == TokenV::Symbol(
                                SymbolToken {
                                    position: Position {
                                        line: spec_token_line(t),
                                        column: spec_token_column(t),
                                    },
                                    symbol: delimiter,
                                },
                            )
                        },
                    },
                    Next::EndOfFile { line, column } => {
                        &&& final(tokens).spec_cursor() == old(tokens).spec_cursor()
                        &&& final(tokens).spec_prev() == old(tokens).spec_prev()
                        &&& final(tokens).spec_last() == (line, column)
                        &&& final(errors)@ == old(errors)@.push(spec_unmatched(opener))
                        &&& r@ == TokenV::Symbol(
                            SymbolToken {
                                position: Position { line, column },
                                symbol: delimiter,
                            },
                        )
                    },
                    Next::EndOfStream { line, column } => {
                        &&& final(tokens).spec_cursor() == old(tokens).spec_cursor()
                        &&& final(tokens).spec_prev() == old(tokens).spec_prev()
                        &&& final(tokens).spec_last() == old(tokens).spec_last()
                        &&& final(errors)@ == old(errors)@.push(spec_unmatched(opener))
                        &&& r@ == TokenV::Symbol(
                            SymbolToken {
                                position: Position { line, column },
                                symbol: delimiter,
                            },
                        )
                    },
                }
            }),
            ({
                let paired = spec_pair_delimiter_fn(
                    old(tokens).spec_tokens(),
                    spec_state_of(*old(tokens), *old(self)),
                    delimiter,
                );
                &&& r@ == paired.0
                &&& final(tokens).spec_cursor() == paired.1.cursor
                &&& final(tokens).spec_prev() == paired.1.prev
                &&& final(tokens).spec_last() == paired.1.last
                &&& final(self).spec_stack() == paired.1.stack
                &&& final(errors)@ == old(errors)@ + paired.2
            }),
    {
        let unmatched = match self.delimiter_stack.pop() {
            Some(d) => d,
            None => {
                proof {
                    assert(false);
                }
                Delimiter { delimiter: DelimiterType::Paren, line: 0, column: 0 }
            },
        };
        match self.check_delimiter(tokens, delimiter) {
            Ok(matches) => {
                let taken = tokens.next();
                match taken {
                    Next::Token(token) => {
                        if matches {
                            token
                        } else {
                            self.unmatched_error(errors, &unmatched);
                            Token::Symbol(
                                SymbolToken {
                                    position: Position {
                                        line: token.line(),
                                        column: token.column(),
                                    },
                                    symbol: delimiter,
                                },
                            )
                        }
                    },
                    Next::EndOfFile { line, column } => {
                        self.unmatched_error(errors, &unmatched);
                        Token::Symbol(
                            SymbolToken { position: Position { line, column }, symbol: delimiter },
                        )
                    },
                    Next::EndOfStream { line, column } => {
                        self.unmatched_error(errors, &unmatched);
                        Token::Symbol(
                            SymbolToken { position: Position { line, column }, symbol: delimiter },
                        )
                    },
                }
            },
            Err(position) => {
                self.unmatched_error(errors, &unmatched);
                Token::Symbol(SymbolToken { position, symbol: delimiter })
            },
        }
    }

    /// Reports an opener that never found its closing bracket.
    fn unmatched_error(&self, errors: &mut ErrorHandler, unmatched: &Delimiter)
        ensures
            final(errors)@ == old(errors)@.push(spec_unmatched(*unmatched)),
            spec_extends(old(errors)@, final(errors)@),
    {
        let lex = unmatched.lexeme();
        errors.push(
            InterpreterError::UnmatchedDelimiter {
                position: Position { line: unmatched.line(), column: unmatched.column() },
                delimiter: lex,
            },
        );
    }

    /// Whether the lookahead is the expected closing symbol: `Ok` with the
    /// answer when a symbol is next, `Err` with the position otherwise.
    fn check_delimiter(
        &self,
        tokens: &mut TokenProvider,
        delimiter: Symbol,
    ) -> (r: Result<bool, Position>)
        requires
            old(tokens).wf(),
        ensures
            final(tokens).wf(),
            final(tokens).spec_tokens() == old(tokens).spec_tokens(),
            final(tokens).spec_cursor() == old(tokens).spec_cursor(),
            final(tokens).spec_prev() == old(tokens).spec_prev(),
            final(tokens).spec_last() == spec_last_after(
                old(tokens).spec_lookahead(),
                old(tokens).spec_last(),
            ),
            r == (match old(tokens).spec_lookahead() {
                Next::Token(t) => match t {
                    TokenV::Symbol(st) => Ok::<bool, Position>(st.symbol == delimiter),
                    _ => Err(
                        Position { line: spec_token_line(t), column: spec_token_column(t) },
                    ),
                },
                Next::EndOfFile { line, column } => Err(Position { line, column }),
                Next::EndOfStream { line, column } => Err(Position { line, column }),
            }),
    {
        match tokens.peek() {
            Next::Token(t) => {
                match t {
                    Token::Symbol(symbol_token) => Ok(symbol_token.symbol == delimiter),
                    other => Err(Position { line: other.line(), column: other.column() }),
                }
            },
            Next::EndOfFile { line, column } => Err(Position { line, column }),
            Next::EndOfStream { line, column } => Err(Position { line, column }),
        }
    }
}

} // verus!
