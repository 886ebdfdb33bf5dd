//! The token stream the parser reads: three-way peek/next distinguishing a
//! live token, the end-of-file sentinel (terminal: once reached, repeated
//! calls keep returning it) and an exhausted stream past the sentinel, while
//! remembering the last valid token for diagnostics.

use vstd::prelude::*;

use crate::lexer::spec_tokens_view;
use crate::token::{Token, TokenV};

verus! {

/// What a peek or next call found.
#[derive(Debug)]
pub enum Next<T> {
    Token(T),
    EndOfFile { line: u32, column: u32 },
    EndOfStream { line: u32, column: u32 },
}

impl<'a, T: Clone> Next<&'a T> {
    /// Clones the referenced token, keeping the other variants as they are.
    pub fn cloned(&self) -> (r: Next<T>)
        ensures
            match (self, &r) {
                (Next::Token(t), Next::Token(u)) => vstd::pervasive::cloned::<T>(**t, *u),
                (
                    Next::EndOfFile { line: l1, column: c1 },
                    Next::EndOfFile { line: l2, column: c2 },
                ) => l1 == l2 && c1 == c2,
                (
                    Next::EndOfStream { line: l1, column: c1 },
                    Next::EndOfStream { line: l2, column: c2 },
                ) => l1 == l2 && c1 == c2,
                _ => false,
            },
    {
        match self {
            Next::Token(token) => Next::Token((*token).clone()),
            Next::EndOfFile { line, column } => Next::EndOfFile {
                line: *line,
                column: *column,
            },
            Next::EndOfStream { line, column } => Next::EndOfStream {
                line: *line,
                column: *column,
            },
        }
    }
}

/// The view of an owned three-way result.
pub open spec fn spec_next_view(n: Next<Token>) -> Next<TokenV> {
    match n {
        Next::Token(t) => Next::Token(t@),
        Next::EndOfFile { line, column } => Next::EndOfFile { line, column },
        Next::EndOfStream { line, column } => Next::EndOfStream { line, column },
    }
}

/// What a peek at `cursor` into `tokens` finds, when the last remembered
/// sentinel position is `last`.
pub open spec fn spec_lookahead_at(tokens: Seq<TokenV>, cursor: int, last: (u32, u32)) -> Next<
    TokenV,
> {
    if 0 <= cursor < tokens.len() {
        match tokens[cursor] {
            TokenV::EndOfFile { position } => Next::EndOfFile {
                line: position.line,
                column: position.column,
            },
            t => Next::Token(t),
        }
    } else {
        Next::EndOfStream { line: last.0, column: last.1 }
    }
}

/// A cursor over a scanned token sequence.
pub struct TokenProvider {
    tokens: Vec<Token>,
    cursor: usize,
    previous_valid_token: Token,
    last_line: u32,
    last_column: u32,
}

impl TokenProvider {
    /// The token sequence read.
    pub closed spec fn spec_tokens(self) -> Seq<TokenV> {
        spec_tokens_view(self.tokens@)
    }

    /// How many tokens have been consumed.
    pub closed spec fn spec_cursor(self) -> int {
        self.cursor as int
    }

    /// The most recent consumed token that was not the sentinel.
    pub closed spec fn spec_prev(self) -> TokenV {
        self.previous_valid_token@
    }

    /// The position remembered from the sentinel, for reads past the end.
    pub closed spec fn spec_last(self) -> (u32, u32) {
        (self.last_line, self.last_column)
    }

    pub open spec fn wf(self) -> bool {
        0 <= self.spec_cursor() <= self.spec_tokens().len()
    }

    /// What a peek finds: the token under the cursor, the sentinel, or an
    /// exhausted stream reporting the last remembered position.
    pub open spec fn spec_lookahead(self) -> Next<TokenV> {
        spec_lookahead_at(self.spec_tokens(), self.spec_cursor(), self.spec_last())
    }

    /// A provider at the start of a copy of `tokens`, with the sentinel
    /// position not yet known and a placeholder previous token.
    pub fn new(tokens: &Vec<Token>) -> (r: TokenProvider)
        ensures
            r.wf(),
            r.spec_tokens() == spec_tokens_view(tokens@),
            r.spec_cursor() == 0,
            r.spec_prev() == (TokenV::EndOfFile {
                position: crate::position::Position { line: 0, column: 0 },
            }),
            r.spec_last() == (0u32, 0u32),
    {
        let mut copies: Vec<Token> = Vec::new();
        let n: usize = tokens.len();
        let mut i: usize = 0;
        while i < n
            invariant
                n == tokens@.len(),
                i <= n,
                copies@.len() == i,
                forall|k: int| 0 <= k < i ==> #[trigger] copies@[k]@ == tokens@[k]@,
            decreases n - i,
        {
            copies.push(tokens[i].clone());
            i = i + 1;
        }
        let r = TokenProvider {
            tokens: copies,
            cursor: 0,
            previous_valid_token: Token::EndOfFile {
                position: crate::position::Position { line: 0, column: 0 },
            },
            last_line: 0,
            last_column: 0,
        };
        proof {
            assert forall|k: int| 0 <= k < n implies #[trigger] spec_tokens_view(copies@)[k]
                == spec_tokens_view(tokens@)[k] by {
                assert(copies@[k]@ == tokens@[k]@);
            }
            assert(spec_tokens_view(copies@) =~= spec_tokens_view(tokens@));
        }
        r
    }

    /// Looks at the next token without consuming it; remembers the
    /// sentinel's position when it is in view.
    pub fn peek(&mut self) -> (r: Next<Token>)
        requires
            old(self).wf(),
        ensures
            final(self).wf(),
            final(self).spec_tokens() == old(self).spec_tokens(),
            final(self).spec_cursor() == old(self).spec_cursor(),
            final(self).spec_prev() == old(self).spec_prev(),
            spec_next_view(r) == old(self).spec_lookahead(),
            final(self).spec_last() == (match old(self).spec_lookahead() {
                Next::EndOfFile { line, column } => (line, column),
                _ => old(self).spec_last(),
            }),
    {
        if self.cursor < self.tokens.len() {
            let token = &self.tokens[self.cursor];
            match token {
                Token::EndOfFile { position } => {
                    self.last_line = position.line;
                    self.last_column = position.column;
                    Next::EndOfFile { line: position.line, column: position.column }
                },
                _ => {
                    let copy = token.clone();
                    proof {
                        assert(!(copy@ is EndOfFile));
                    }
                    Next::Token(copy)
                },
            }
        } else {
            Next::EndOfStream { line: self.last_line, column: self.last_column }
        }
    }

    /// The most recent consumed token that was not the sentinel, for
    /// "expected expression after" diagnostics.
    pub fn previous_valid(&self) -> (r: &Token)
        ensures
            r@ == self.spec_prev(),
    {
        &self.previous_valid_token
    }

    /// Consumes and returns the next token. The sentinel is terminal: it is
    /// returned without being consumed, so later calls see it again.
    pub fn next(&mut self) -> (r: Next<Token>)
        requires
            old(self).wf(),
        ensures
            final(self).wf(),
            final(self).spec_tokens() == old(self).spec_tokens(),
            spec_next_view(r) == old(self).spec_lookahead(),
            final(self).spec_last() == (match old(self).spec_lookahead() {
                Next::EndOfFile { line, column } => (line, column),
                _ => old(self).spec_last(),
            }),
            match old(self).spec_lookahead() {
                Next::Token(t) => {
                    &&& final(self).spec_cursor() == old(self).spec_cursor() + 1
                    &&& final(self).spec_prev() == t
                },
                _ => {
                    &&& final(self).spec_cursor() == old(self).spec_cursor()
                    &&& final(self).spec_prev() == old(self).spec_prev()
                },
            },
    {
        if self.cursor < self.tokens.len() {
            let token = &self.tokens[self.cursor];
            match token {
                Token::EndOfFile { position } => {
                    self.last_line = position.line;
                    self.last_column = position.column;
                    Next::EndOfFile { line: position.line, column: position.column }
                },
                _ => {
                    let copy = token.clone();
                    let returned = token.clone();
                    proof {
                        assert(!(copy@ is EndOfFile));
                    }
                    self.cursor = self.cursor + 1;
                    self.previous_valid_token = copy;
                    Next::Token(returned)
                },
            }
        } else {
            Next::EndOfStream { line: self.last_line, column: self.last_column }
        }
    }
}

} // verus!
