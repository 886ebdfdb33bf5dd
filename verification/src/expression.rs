//! The expression tree: an immutable AST of literal, unary, binary and
//! grouping nodes, and its pretty-printed dump.

use vstd::prelude::*;

use crate::text::{
    push_decimal_i64, push_str_chars, spec_decimal_i64, string_from_chars,
};
use crate::token::{
    spec_symbol_lexeme, LiteralToken, LiteralTokenV, LiteralV, SymbolToken, Token, TokenV,
};

verus! {

/// A parsed expression. Trees own their nodes; there is no sharing and no
/// cycle.
#[derive(Debug)]
pub enum Expression {
    Literal { token: LiteralToken },
    Unary { operator: SymbolToken, operand: Box<Expression> },
    Binary { operator: SymbolToken, left_operand: Box<Expression>, right_operand: Box<Expression> },
    Grouping { operand: Box<Expression> },
}

/// The mathematical value of an expression tree.
pub enum ExprV {
    Literal { token: LiteralTokenV },
    Unary { operator: SymbolToken, operand: Box<ExprV> },
    Binary { operator: SymbolToken, left_operand: Box<ExprV>, right_operand: Box<ExprV> },
    Grouping { operand: Box<ExprV> },
}

pub open spec fn spec_expr_view(e: Expression) -> ExprV
    decreases e,
{
    match e {
        Expression::Literal { token } => ExprV::Literal { token: token@ },
        Expression::Unary { operator, operand } => ExprV::Unary {
            operator,
            operand: Box::new(spec_expr_view(*operand)),
        },
        Expression::Binary { operator, left_operand, right_operand } => ExprV::Binary {
            operator,
            left_operand: Box::new(spec_expr_view(*left_operand)),
            right_operand: Box::new(spec_expr_view(*right_operand)),
        },
        Expression::Grouping { operand } => ExprV::Grouping {
            operand: Box::new(spec_expr_view(*operand)),
        },
    }
}

impl View for Expression {
    type V = ExprV;

    open spec fn view(&self) -> ExprV {
        spec_expr_view(*self)
    }
}

/// The parse result: the tree root and the end-of-file token the input
/// closed with.
#[derive(Debug)]
pub struct SyntaxTree {
    pub root: Expression,
    pub eof: Token,
}

/// The mathematical value of a parse result.
pub struct SyntaxTreeV {
    pub root: ExprV,
    pub eof: TokenV,
}

impl View for SyntaxTree {
    type V = SyntaxTreeV;

    open spec fn view(&self) -> SyntaxTreeV {
        SyntaxTreeV { root: self.root@, eof: self.eof@ }
    }
}

/// How many nodes deep a tree is; dump indentation grows two columns per
/// level.
pub open spec fn spec_depth(e: ExprV) -> nat
    decreases e,
{
    match e {
        ExprV::Literal { .. } => 0,
        ExprV::Unary { operand, .. } => 1 + spec_depth(*operand),
        ExprV::Binary { left_operand, right_operand, .. } => 1 + (if spec_depth(*left_operand)
            >= spec_depth(*right_operand) {
            spec_depth(*left_operand)
        } else {
            spec_depth(*right_operand)
        }),
        ExprV::Grouping { operand } => 1 + spec_depth(*operand),
    }
}

/// Literal text as it appears in a dump: backslashes, newlines and double
/// quotes are escaped, so one dump line holds one node.
pub open spec fn spec_escaped(s: Seq<char>) -> Seq<char>
    decreases s.len(),
{
    if s.len() == 0 {
        Seq::<char>::empty()
    } else {
        let head = if s[0] == '\\' {
            seq!['\\', '\\']
        } else if s[0] == '\n' {
            seq!['\\', 'n']
        } else if s[0] == '"' {
            seq!['\\', '"']
        } else {
            seq![s[0]]
        };
        head + spec_escaped(s.drop_first())
    }
}

/// A literal as a dump renders it: quoted escaped text for strings, escaped
/// text for identifiers, decimal for numbers, `()` for the unit value.
pub open spec fn spec_literal_dump(l: LiteralV) -> Seq<char> {
    match l {
        LiteralV::Identifier { lexeme } => spec_escaped(lexeme),
        LiteralV::String { lexeme } => seq!['"'] + spec_escaped(lexeme) + seq!['"'],
        LiteralV::Number { lexeme } => spec_decimal_i64(lexeme as int),
        LiteralV::Void => "()"@,
    }
}

/// `n` spaces.
pub open spec fn spec_spaces(n: nat) -> Seq<char> {
    Seq::new(n, |i: int| ' ')
}

/// The pretty-printed dump of a tree at the given indentation: one line per
/// node, children indented two further columns.
pub open spec fn spec_pretty(e: ExprV, indent: nat) -> Seq<char>
    decreases e,
{
    spec_spaces(indent) + match e {
        ExprV::Literal { token } => "Literal: "@ + spec_literal_dump(token.literal) + "\n"@,
        ExprV::Unary { operator, operand } => "Unary: "@ + spec_symbol_lexeme(operator.symbol)
            + "\n"@ + spec_pretty(*operand, indent + 2),
        ExprV::Binary { operator, left_operand, right_operand } => "Binary: "@
            + spec_symbol_lexeme(operator.symbol) + "\n"@ + spec_pretty(*left_operand, indent + 2)
            + spec_pretty(*right_operand, indent + 2),
        ExprV::Grouping { operand } => "Grouping"@ + "\n"@ + spec_pretty(*operand, indent + 2),
    }
}

fn push_spaces(out: &mut Vec<char>, n: usize)
    ensures
        final(out)@ == old(out)@ + spec_spaces(n as nat),
{
    let mut i: usize = 0;
    while i < n
        invariant
            i <= n,
            out@ == old(out)@ + spec_spaces(i as nat),
        decreases n - i,
    {
        out.push(' ');
        i = i + 1;
        proof {
            assert(out@ =~= old(out)@ + spec_spaces(i as nat));
        }
    }
}

fn push_escaped(out: &mut Vec<char>, s: &String)
    ensures
        final(out)@ == old(out)@ + spec_escaped(s@),
{
    let n: usize = s.as_str().unicode_len();
    let mut i: usize = 0;
    proof {
        assert(out@ =~= old(out)@ + spec_escaped(s@.subrange(0, 0)));
    }
    while i < n
        invariant
            n == s@.len(),
            i <= n,
            out@ == old(out)@ + spec_escaped(s@.subrange(0, i as int)),
        decreases n - i,
    {
        let c: char = s.as_str().get_char(i);
        if c == '\\' {
            out.push('\\');
            out.push('\\');
        } else if c == '\n' {
            out.push('\\');
            out.push('n');
        } else if c == '"' {
            out.push('\\');
            out.push('"');
        } else {
            out.push(c);
        }
        i = i + 1;
        proof {
            lemma_escaped_push(s@.subrange(0, i as int));
            assert(s@.subrange(0, i as int).drop_last() =~= s@.subrange(0, i - 1));
            assert(out@ =~= old(out)@ + spec_escaped(s@.subrange(0, i as int)));
        }
    }
    proof {
        assert(s@.subrange(0, n as int) =~= s@);
    }
}

/// Escaping rewrites the last character independently of the rest.
proof fn lemma_escaped_push(s: Seq<char>)
    requires
        s.len() > 0,
    ensures
        spec_escaped(s) == spec_escaped(s.drop_last()) + (if s.last() == '\\' {
            seq!['\\', '\\']
        } else if s.last() == '\n' {
            seq!['\\', 'n']
        } else if s.last() == '"' {
            seq!['\\', '"']
        } else {
            seq![s.last()]
        }),
    decreases s.len(),
{
    let tail = (if s.last() == '\\' {
        seq!['\\', '\\']
    } else if s.last() == '\n' {
        seq!['\\', 'n']
    } else if s.last() == '"' {
        seq!['\\', '"']
    } else {
        seq![s.last()]
    });
    if s.len() == 1 {
        assert(s.drop_first() =~= Seq::<char>::empty());
        assert(s.drop_last() =~= Seq::<char>::empty());
        assert(spec_escaped(Seq::<char>::empty()) == Seq::<char>::empty());
        assert(spec_escaped(s) =~= spec_escaped(s.drop_last()) + tail);
    } else {
        lemma_escaped_push(s.drop_first());
        assert(s.drop_first().drop_last() =~= s.drop_last().drop_first());
        assert(s.drop_first().last() == s.last());
        assert(s.drop_last()[0] == s[0]);
        assert(s.drop_last().len() > 0);
        assert(spec_escaped(s) =~= spec_escaped(s.drop_last()) + tail);
    }
}

impl Expression {
    /// Writes the dump of this node at `indent` into `out`.
    fn pretty_into(&self, indent: usize, out: &mut Vec<char>)
        requires
            indent + 2 * spec_depth(self@) <= usize::MAX,
        ensures
            final(out)@ == old(out)@ + spec_pretty(self@, indent as nat),
        decreases *self,
    {
        push_spaces(out, indent);
        match self {
            Expression::Literal { token } => {
                push_str_chars(out, "Literal: ");
                match &token.literal {
                    crate::token::Literal::Identifier { lexeme } => {
                        push_escaped(out, lexeme);
                    },
                    crate::token::Literal::String { lexeme } => {
                        out.push('"');
                        push_escaped(out, lexeme);
                        out.push('"');
                    },
                    crate::token::Literal::Number { lexeme } => {
                        push_decimal_i64(out, *lexeme);
                    },
                    crate::token::Literal::Void => {
                        push_str_chars(out, "()");
                    },
                }
                push_str_chars(out, "\n");
            },
            Expression::Unary { operator, operand } => {
                push_str_chars(out, "Unary: ");
                let lex = operator.symbol.lexeme();
                push_str_chars(out, lex.as_str());
                push_str_chars(out, "\n");
                operand.pretty_into(indent + 2, out);
            },
            Expression::Binary { operator, left_operand, right_operand } => {
                push_str_chars(out, "Binary: ");
                let lex = operator.symbol.lexeme();
                push_str_chars(out, lex.as_str());
                push_str_chars(out, "\n");
                left_operand.pretty_into(indent + 2, out);
                right_operand.pretty_into(indent + 2, out);
            },
            Expression::Grouping { operand } => {
                push_str_chars(out, "Grouping");
                push_str_chars(out, "\n");
                operand.pretty_into(indent + 2, out);
            },
        }
        proof {
            assert(out@ =~= old(out)@ + spec_pretty(self@, indent as nat));
        }
    }

    /// The pretty-printed dump of this tree starting at the given
    /// indentation: one line per node, each child two columns further in.
    pub fn pretty_print(&self, indent: usize) -> (r: String)
        requires
            indent + 2 * spec_depth(self@) <= usize::MAX,
        ensures
            r@ == spec_pretty(self@, indent as nat),
    {
        let mut out: Vec<char> = Vec::new();
        self.pretty_into(indent, &mut out);
        string_from_chars(&out)
    }
}

impl SyntaxTree {
    /// The pretty-printed dump of the whole tree.
    pub fn pretty_print(&self) -> (r: String)
        requires
            2 * spec_depth(self.root@) <= usize::MAX,
        ensures
            r@ == spec_pretty(self.root@, 0),
    {
        self.root.pretty_print(0)
    }
}


impl Expression {
    /// The depth of this tree, unless it cannot be counted in a `usize`.
    pub fn depth_checked(&self) -> (r: Option<usize>)
        ensures
            match r {
                Some(d) => d as nat == spec_depth(self@),
                None => spec_depth(self@) > usize::MAX,
            },
        decreases *self,
    {
        match self {
            Expression::Literal { .. } => Some(0),
            Expression::Unary { operand, .. } => {
                match operand.depth_checked() {
                    Some(d) => {
                        if d == usize::MAX {
                            None
                        } else {
                            Some(d + 1)
                        }
                    },
                    None => None,
                }
            },
            Expression::Binary { left_operand, right_operand, .. } => {
                match left_operand.depth_checked() {
                    Some(dl) => {
                        match right_operand.depth_checked() {
                            Some(dr) => {
                                let m: usize = if dl >= dr {
                                    dl
                                } else {
                                    dr
                                };
                                if m == usize::MAX {
                                    None
                                } else {
                                    Some(m + 1)
                                }
                            },
                            None => None,
                        }
                    },
                    None => None,
                }
            },
            Expression::Grouping { operand } => {
                match operand.depth_checked() {
                    Some(d) => {
                        if d == usize::MAX {
                            None
                        } else {
                            Some(d + 1)
                        }
                    },
                    None => None,
                }
            },
        }
    }
}

impl SyntaxTree {
    /// The dump of the whole tree, unless it is too deep to indent; a tree
    /// that fits in memory always is shallow enough.
    pub fn try_pretty_print(&self) -> (r: Option<String>)
        ensures
            match r {
                Some(s) => s@ == spec_pretty(self.root@, 0),
                None => 2 * spec_depth(self.root@) > usize::MAX,
            },
    {
        match self.root.depth_checked() {
            Some(d) => {
                if d <= usize::MAX / 2 {
                    Some(self.root.pretty_print(0))
                } else {
                    None
                }
            },
            None => None,
        }
    }
}

} // verus!
