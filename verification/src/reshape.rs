//! The dump format determines the tree: re-deriving node kind and operator
//! identity from a pretty-printed dump reproduces the structure of the tree
//! that was printed.

use vstd::prelude::*;

use crate::character_provider::spec_find_newline;
use crate::expression::{
    spec_escaped, spec_literal_dump, spec_pretty, spec_spaces, ExprV,
};
use crate::text::{chars_of, spec_decimal, spec_decimal_i64, spec_digit_char};
use crate::token::{spec_symbol_lexeme, Symbol};

verus! {

broadcast use vstd::string::group_string_axioms;

/// The structure of a tree: node kinds and operator identities, with
/// positions and literal payloads forgotten.
#[derive(Debug, PartialEq)]
pub enum Shape {
    Literal,
    Unary(Symbol, Box<Shape>),
    Binary(Symbol, Box<Shape>, Box<Shape>),
    Grouping(Box<Shape>),
}

/// The shape of an expression tree.
pub open spec fn spec_shape(e: ExprV) -> Shape
    decreases e,
{
    match e {
        ExprV::Literal { .. } => Shape::Literal,
        ExprV::Unary { operator, operand } => Shape::Unary(
            operator.symbol,
            Box::new(spec_shape(*operand)),
        ),
        ExprV::Binary { operator, left_operand, right_operand } => Shape::Binary(
            operator.symbol,
            Box::new(spec_shape(*left_operand)),
            Box::new(spec_shape(*right_operand)),
        ),
        ExprV::Grouping { operand } => Shape::Grouping(Box::new(spec_shape(*operand))),
    }
}

pub open spec fn spec_starts_with(s: Seq<char>, p: Seq<char>) -> bool {
    p.len() <= s.len() && s.subrange(0, p.len() as int) == p
}

/// The symbol whose source text a dump line carries.
pub open spec fn symbol_of_lexeme(q: Seq<char>) -> Option<Symbol> {
    if q == "("@ {
        Some(Symbol::LeftParenthesis)
    } else if q == ")"@ {
        Some(Symbol::RightParenthesis)
    } else if q == "["@ {
        Some(Symbol::LeftSquareBracket)
    } else if q == "]"@ {
        Some(Symbol::RightSquareBracket)
    } else if q == "{"@ {
        Some(Symbol::LeftCurlyBracket)
    } else if q == "}"@ {
        Some(Symbol::RightCurlyBracket)
    } else if q == "#"@ {
        Some(Symbol::Hashtag)
    } else if q == ","@ {
        Some(Symbol::Comma)
    } else if q == "."@ {
        Some(Symbol::Period)
    } else if q == ":"@ {
        Some(Symbol::Colon)
    } else if q == ";"@ {
        Some(Symbol::Semicolon)
    } else if q == "\""@ {
        Some(Symbol::QuotationMark)
    } else if q == "'"@ {
        Some(Symbol::Apostrophe)
    } else if q == "+"@ {
        Some(Symbol::Plus)
    } else if q == "-"@ {
        Some(Symbol::Minus)
    } else if q == "*"@ {
        Some(Symbol::Asterisk)
    } else if q == "/"@ {
        Some(Symbol::ForwardSlash)
    } else if q == "!"@ {
        Some(Symbol::ExclamationPoint)
    } else if q == "<"@ {
        Some(Symbol::LeftAngledBracket)
    } else if q == ">"@ {
        Some(Symbol::RightAngledBracket)
    } else if q == "="@ {
        Some(Symbol::Equals)
    } else if q == "=="@ {
        Some(Symbol::DoubleEquals)
    } else if q == "+="@ {
        Some(Symbol::PlusEquals)
    } else if q == "-="@ {
        Some(Symbol::MinusEquals)
    } else if q == "*="@ {
        Some(Symbol::AsteriskEquals)
    } else if q == "/="@ {
        Some(Symbol::ForwardSlashEquals)
    } else if q == "!="@ {
        Some(Symbol::ExclamationPointEquals)
    } else if q == "<="@ {
        Some(Symbol::LeftAngledBracketEquals)
    } else if q == ">="@ {
        Some(Symbol::RightAngledBracketEquals)
    } else if q == "->"@ {
        Some(Symbol::RightArrow)
    } else if q == "&"@ {
        Some(Symbol::Ampersand)
    } else if q == "&&"@ {
        Some(Symbol::DoubleAmpersand)
    } else if q == "&="@ {
        Some(Symbol::AmpersandEquals)
    } else if q == "|"@ {
        Some(Symbol::Pipe)
    } else if q == "||"@ {
        Some(Symbol::DoublePipe)
    } else if q == "|="@ {
        Some(Symbol::PipeEquals)
    } else if q == "^"@ {
        Some(Symbol::Caret)
    } else if q == "^="@ {
        Some(Symbol::CaretEquals)
    } else if q == "~"@ {
        Some(Symbol::Tilde)
    } else if q == "~="@ {
        Some(Symbol::TildeEquals)
    } else if q == "%"@ {
        Some(Symbol::Percent)
    } else if q == "%="@ {
        Some(Symbol::PercentEquals)
    } else {
        None
    }
}

/// Re-derives the shape of the first dump block at indentation `d`: the
/// shape and how many characters the block spans.
pub open spec fn spec_reshape(s: Seq<char>, d: nat) -> Option<(Shape, int)>
    decreases s.len(),
{
    if !spec_starts_with(s, spec_spaces(d)) {
        None
    } else {
        let t = s.skip(d as int);
        if spec_starts_with(t, "Literal: "@) {
            let nl = spec_find_newline(t, 0);
            if nl < t.len() {
                Some((Shape::Literal, d + nl + 1))
            } else {
                None
            }
        } else if spec_starts_with(t, "Unary: "@) {
            let nl = spec_find_newline(t, 0);
            if nl >= t.len() || nl < "Unary: "@.len() {
                None
            } else {
                match symbol_of_lexeme(t.subrange("Unary: "@.len() as int, nl)) {
                    None => None,
                    Some(op) => {
                        let head = d + nl + 1;
                        if 1 <= head <= s.len() {
                            match spec_reshape(s.skip(head), (d + 2) as nat) {
                                None => None,
                                Some((child, clen)) => Some(
                                    (Shape::Unary(op, Box::new(child)), head + clen),
                                ),
                            }
                        } else {
                            None
                        }
                    },
                }
            }
        } else if spec_starts_with(t, "Binary: "@) {
            let nl = spec_find_newline(t, 0);
            if nl >= t.len() || nl < "Binary: "@.len() {
                None
            } else {
                match symbol_of_lexeme(t.subrange("Binary: "@.len() as int, nl)) {
                    None => None,
                    Some(op) => {
                        let head = d + nl + 1;
                        if 1 <= head <= s.len() {
                            match spec_reshape(s.skip(head), (d + 2) as nat) {
                                None => None,
                                Some((left, llen)) => {
                                    let mid = head + llen;
                                    if head < mid <= s.len() {
                                        match spec_reshape(s.skip(mid), (d + 2) as nat) {
                                            None => None,
                                            Some((right, rlen)) => Some(
                                                (
                                                    Shape::Binary(
                                                        op,
                                                        Box::new(left),
                                                        Box::new(right),
                                                    ),
                                                    mid + rlen,
                                                ),
                                            ),
                                        }
                                    } else {
                                        None
                                    }
                                },
                            }
                        } else {
                            None
                        }
                    },
                }
            }
        } else if spec_starts_with(t, "Grouping\n"@) {
            let head = d + "Grouping\n"@.len();
            if 1 <= head <= s.len() {
                match spec_reshape(s.skip(head as int), (d + 2) as nat) {
                    None => None,
                    Some((child, clen)) => Some((Shape::Grouping(Box::new(child)), head + clen)),
                }
            } else {
                None
            }
        } else {
            None
        }
    }
}

proof fn lemma_find_newline_from(s: Seq<char>, i: int, m: int)
    requires
        0 <= i <= m < s.len(),
        s[m] == '\n',
        forall|k: int| i <= k < m ==> s[k] != '\n',
    ensures
        spec_find_newline(s, i) == m,
    decreases m - i,
{
    if i < m {
        lemma_find_newline_from(s, i + 1, m);
    }
}

proof fn lemma_escaped_no_newline(s: Seq<char>)
    ensures
        forall|k: int| 0 <= k < spec_escaped(s).len() ==> #[trigger] spec_escaped(s)[k] != '\n',
    decreases s.len(),
{
    if s.len() > 0 {
        lemma_escaped_no_newline(s.drop_first());
        let head = if s[0] == '\\' {
            seq!['\\', '\\']
        } else if s[0] == '\n' {
            seq!['\\', 'n']
        } else if s[0] == '"' {
            seq!['\\', '"']
        } else {
            seq![s[0]]
        };
        assert forall|k: int| 0 <= k < spec_escaped(s).len() implies #[trigger] spec_escaped(
            s,
        )[k] != '\n' by {
            if k < head.len() {
                assert(spec_escaped(s)[k] == head[k]);
            } else {
                assert(spec_escaped(s)[k] == spec_escaped(s.drop_first())[k - head.len()]);
            }
        }
    }
}

proof fn lemma_decimal_no_newline(n: nat)
    ensures
        forall|k: int| 0 <= k < spec_decimal(n).len() ==> #[trigger] spec_decimal(n)[k] != '\n',
    decreases n,
{
    if n < 10 {
        assert(spec_decimal(n) == seq![spec_digit_char(n)]);
        assert(spec_decimal(n)[0] == spec_digit_char(n));
    } else {
        lemma_decimal_no_newline(n / 10);
        let prefix = spec_decimal(n / 10);
        assert forall|k: int| 0 <= k < spec_decimal(n).len() implies #[trigger] spec_decimal(
            n,
        )[k] != '\n' by {
            if k < prefix.len() {
                assert(spec_decimal(n)[k] == prefix[k]);
            } else {
                assert(spec_decimal(n)[k] == spec_digit_char(n % 10));
            }
        }
    }
}

proof fn lemma_decimal_i64_no_newline(v: int)
    ensures
        forall|k: int|
            0 <= k < spec_decimal_i64(v).len() ==> #[trigger] spec_decimal_i64(v)[k] != '\n',
{
    if v < 0 {
        lemma_decimal_no_newline((-v) as nat);
    } else {
        lemma_decimal_no_newline(v as nat);
    }
}

/// Every symbol's source text re-derives that symbol: the operator texts
/// are pairwise distinct.
#[verifier::rlimit(100)]
proof fn lemma_symbol_of_lexeme_roundtrip(sym: Symbol)
    ensures
        symbol_of_lexeme(spec_symbol_lexeme(sym)) == Some(sym),
        forall|k: int|
            0 <= k < spec_symbol_lexeme(sym).len() ==> #[trigger] spec_symbol_lexeme(sym)[k]
                != '\n',
{
    reveal_strlit("(");
    reveal_strlit(")");
    reveal_strlit("[");
    reveal_strlit("]");
    reveal_strlit("{");
    reveal_strlit("}");
    reveal_strlit("#");
    reveal_strlit(",");
    reveal_strlit(".");
    reveal_strlit(":");
    reveal_strlit(";");
    reveal_strlit("\"");
    reveal_strlit("'");
    reveal_strlit("+");
    reveal_strlit("-");
    reveal_strlit("*");
    reveal_strlit("/");
    reveal_strlit("!");
    reveal_strlit("<");
    reveal_strlit(">");
    reveal_strlit("=");
    reveal_strlit("==");
    reveal_strlit("+=");
    reveal_strlit("-=");
    reveal_strlit("*=");
    reveal_strlit("/=");
    reveal_strlit("!=");
    reveal_strlit("<=");
    reveal_strlit(">=");
    reveal_strlit("->");
    reveal_strlit("&");
    reveal_strlit("&&");
    reveal_strlit("&=");
    reveal_strlit("|");
    reveal_strlit("||");
    reveal_strlit("|=");
    reveal_strlit("^");
    reveal_strlit("^=");
    reveal_strlit("~");
    reveal_strlit("~=");
    reveal_strlit("%");
    reveal_strlit("%=");
    assert("("@.len() == 1);
    assert("("@[0] == '(');
    assert(")"@.len() == 1);
    assert(")"@[0] == ')');
    assert("["@.len() == 1);
    assert("["@[0] == '[');
    assert("]"@.len() == 1);
    assert("]"@[0] == ']');
    assert("{"@.len() == 1);
    assert("{"@[0] == '{');
    assert("}"@.len() == 1);
    assert("}"@[0] == '}');
    assert("#"@.len() == 1);
    assert("#"@[0] == '#');
    assert(","@.len() == 1);
    assert(","@[0] == ',');
    assert("."@.len() == 1);
    assert("."@[0] == '.');
    assert(":"@.len() == 1);
    assert(":"@[0] == ':');
    assert(";"@.len() == 1);
    assert(";"@[0] == ';');
    assert("\""@.len() == 1);
    assert("\""@[0] == '"');
    assert("'"@.len() == 1);
    assert("'"@[0] == '\'');
    assert("+"@.len() == 1);
    assert("+"@[0] == '+');
    assert("-"@.len() == 1);
    assert("-"@[0] == '-');
    assert("*"@.len() == 1);
    assert("*"@[0] == '*');
    assert("/"@.len() == 1);
    assert("/"@[0] == '/');
    assert("!"@.len() == 1);
    assert("!"@[0] == '!');
    assert("<"@.len() == 1);
    assert("<"@[0] == '<');
    assert(">"@.len() == 1);
    assert(">"@[0] == '>');
    assert("="@.len() == 1);
    assert("="@[0] == '=');
    assert("=="@.len() == 2);
    assert("=="@[0] == '=');
    assert("=="@[1] == '=');
    assert("+="@.len() == 2);
    assert("+="@[0] == '+');
    assert("+="@[1] == '=');
    assert("-="@.len() == 2);
    assert("-="@[0] == '-');
    assert("-="@[1] == '=');
    assert("*="@.len() == 2);
    assert("*="@[0] == '*');
    assert("*="@[1] == '=');
    assert("/="@.len() == 2);
    assert("/="@[0] == '/');
    assert("/="@[1] == '=');
    assert("!="@.len() == 2);
    assert("!="@[0] == '!');
    assert("!="@[1] == '=');
    assert("<="@.len() == 2);
    assert("<="@[0] == '<');
    assert("<="@[1] == '=');
    assert(">="@.len() == 2);
    assert(">="@[0] == '>');
    assert(">="@[1] == '=');
    assert("->"@.len() == 2);
    assert("->"@[0] == '-');
    assert("->"@[1] == '>');
    assert("&"@.len() == 1);
    assert("&"@[0] == '&');
    assert("&&"@.len() == 2);
    assert("&&"@[0] == '&');
    assert("&&"@[1] == '&');
    assert("&="@.len() == 2);
    assert("&="@[0] == '&');
    assert("&="@[1] == '=');
    assert("|"@.len() == 1);
    assert("|"@[0] == '|');
    assert("||"@.len() == 2);
    assert("||"@[0] == '|');
    assert("||"@[1] == '|');
    assert("|="@.len() == 2);
    assert("|="@[0] == '|');
    assert("|="@[1] == '=');
    assert("^"@.len() == 1);
    assert("^"@[0] == '^');
    assert("^="@.len() == 2);
    assert("^="@[0] == '^');
    assert("^="@[1] == '=');
    assert("~"@.len() == 1);
    assert("~"@[0] == '~');
    assert("~="@.len() == 2);
    assert("~="@[0] == '~');
    assert("~="@[1] == '=');
    assert("%"@.len() == 1);
    assert("%"@[0] == '%');
    assert("%="@.len() == 2);
    assert("%="@[0] == '%');
    assert("%="@[1] == '=');
}

proof fn lemma_literal_dump_no_newline(l: crate::token::LiteralV)
    ensures
        forall|k: int|
            0 <= k < spec_literal_dump(l).len() ==> #[trigger] spec_literal_dump(l)[k] != '\n',
{
    reveal_strlit("()");
    match l {
        crate::token::LiteralV::Identifier { lexeme } => {
            lemma_escaped_no_newline(lexeme);
        },
        crate::token::LiteralV::String { lexeme } => {
            lemma_escaped_no_newline(lexeme);
        },
        crate::token::LiteralV::Number { lexeme } => {
            lemma_decimal_i64_no_newline(lexeme as int);
        },
        crate::token::LiteralV::Void => {
        },
    }
}

/// Re-deriving the shape from a dump block, whatever follows it,
/// reproduces the printed tree's shape and consumes exactly the block.
#[verifier::rlimit(100)]
proof fn lemma_reshape_pretty(e: ExprV, d: nat, suffix: Seq<char>)
    ensures
        spec_reshape(spec_pretty(e, d) + suffix, d) == Some(
            (spec_shape(e), spec_pretty(e, d).len() as int),
        ),
    decreases e,
{
    reveal_strlit("Literal: ");
    reveal_strlit("Unary: ");
    reveal_strlit("Binary: ");
    reveal_strlit("Grouping");
    reveal_strlit("Grouping\n");
    reveal_strlit("\n");
    let s = spec_pretty(e, d) + suffix;
    let sp = spec_spaces(d);
    assert(s.subrange(0, d as int) =~= sp);
    let t = s.skip(d as int);
    match e {
        ExprV::Literal { token } => {
            let body = "Literal: "@ + spec_literal_dump(token.literal) + "\n"@;
            assert(t =~= body + suffix);
            assert(spec_starts_with(t, "Literal: "@)) by {
                assert(t.subrange(0, "Literal: "@.len() as int) =~= "Literal: "@);
            }
            let m = "Literal: "@.len() + spec_literal_dump(token.literal).len();
            lemma_literal_dump_no_newline(token.literal);
            assert(t[m as int] == '\n');
            assert forall|k: int| 0 <= k < m implies t[k] != '\n' by {
                if k < "Literal: "@.len() {
                    assert(t[k] == "Literal: "@[k]);
                } else {
                    assert(t[k] == spec_literal_dump(token.literal)[k - "Literal: "@.len()]);
                }
            }
            lemma_find_newline_from(t, 0, m as int);
            assert(spec_pretty(e, d).len() == d + m + 1);
        },
        ExprV::Unary { operator, operand } => {
            let lex = spec_symbol_lexeme(operator.symbol);
            let body = "Unary: "@ + lex + "\n"@ + spec_pretty(*operand, (d + 2) as nat);
            assert(t =~= body + suffix);
            assert(spec_starts_with(t, "Unary: "@)) by {
                assert(t.subrange(0, "Unary: "@.len() as int) =~= "Unary: "@);
            }
            assert(!spec_starts_with(t, "Literal: "@)) by {
                if spec_starts_with(t, "Literal: "@) {
                    assert(t[0] == "Literal: "@[0]);
                    assert(t[0] == "Unary: "@[0]);
                }
            }
            lemma_symbol_of_lexeme_roundtrip(operator.symbol);
            let m = "Unary: "@.len() + lex.len();
            assert(t[m as int] == '\n');
            assert forall|k: int| 0 <= k < m implies t[k] != '\n' by {
                if k < "Unary: "@.len() {
                    assert(t[k] == "Unary: "@[k]);
                } else {
                    assert(t[k] == lex[k - "Unary: "@.len()]);
                }
            }
            lemma_find_newline_from(t, 0, m as int);
            assert(t.subrange("Unary: "@.len() as int, m as int) =~= lex);
            let head = d + m + 1;
            let childtext = spec_pretty(*operand, (d + 2) as nat);
            assert(s.skip(head as int) =~= childtext + suffix);
            lemma_reshape_pretty(*operand, (d + 2) as nat, suffix);
            assert(spec_pretty(e, d).len() == head + childtext.len());
        },
        ExprV::Binary { operator, left_operand, right_operand } => {
            let lex = spec_symbol_lexeme(operator.symbol);
            let ltext = spec_pretty(*left_operand, (d + 2) as nat);
            let rtext = spec_pretty(*right_operand, (d + 2) as nat);
            let body = "Binary: "@ + lex + "\n"@ + ltext + rtext;
            assert(t =~= body + suffix);
            assert(spec_starts_with(t, "Binary: "@)) by {
                assert(t.subrange(0, "Binary: "@.len() as int) =~= "Binary: "@);
            }
            assert(!spec_starts_with(t, "Literal: "@)) by {
                if spec_starts_with(t, "Literal: "@) {
                    assert(t[0] == "Literal: "@[0]);
                    assert(t[0] == "Binary: "@[0]);
                }
            }
            assert(!spec_starts_with(t, "Unary: "@)) by {
                if spec_starts_with(t, "Unary: "@) {
                    assert(t[0] == "Unary: "@[0]);
                    assert(t[0] == "Binary: "@[0]);
                }
            }
            lemma_symbol_of_lexeme_roundtrip(operator.symbol);
            let m = "Binary: "@.len() + lex.len();
            assert(t[m as int] == '\n');
            assert forall|k: int| 0 <= k < m implies t[k] != '\n' by {
                if k < "Binary: "@.len() {
                    assert(t[k] == "Binary: "@[k]);
                } else {
                    assert(t[k] == lex[k - "Binary: "@.len()]);
                }
            }
            lemma_find_newline_from(t, 0, m as int);
            assert(t.subrange("Binary: "@.len() as int, m as int) =~= lex);
            let head = d + m + 1;
            assert(s.skip(head as int) =~= ltext + (rtext + suffix));
            lemma_reshape_pretty(*left_operand, (d + 2) as nat, rtext + suffix);
            lemma_pretty_nonempty(*left_operand, (d + 2) as nat);
            let mid = head + ltext.len();
            assert(s.skip(mid as int) =~= rtext + suffix);
            lemma_reshape_pretty(*right_operand, (d + 2) as nat, suffix);
            assert(spec_pretty(e, d).len() == mid + rtext.len());
        },
        ExprV::Grouping { operand } => {
            let childtext = spec_pretty(*operand, (d + 2) as nat);
            let body = "Grouping"@ + "\n"@ + childtext;
            assert(t =~= body + suffix);
            assert("Grouping"@ + "\n"@ =~= "Grouping\n"@);
            assert(spec_starts_with(t, "Grouping\n"@)) by {
                assert(t.subrange(0, "Grouping\n"@.len() as int) =~= "Grouping\n"@);
            }
            assert(!spec_starts_with(t, "Literal: "@)) by {
                if spec_starts_with(t, "Literal: "@) {
                    assert(t[0] == "Literal: "@[0]);
                    assert(t[0] == "Grouping\n"@[0]);
                }
            }
            assert(!spec_starts_with(t, "Unary: "@)) by {
                if spec_starts_with(t, "Unary: "@) {
                    assert(t[0] == "Unary: "@[0]);
                    assert(t[0] == "Grouping\n"@[0]);
                }
            }
            assert(!spec_starts_with(t, "Binary: "@)) by {
                if spec_starts_with(t, "Binary: "@) {
                    assert(t[0] == "Binary: "@[0]);
                    assert(t[0] == "Grouping\n"@[0]);
                }
            }
            let head = d + "Grouping\n"@.len();
            assert(s.skip(head as int) =~= childtext + suffix);
            lemma_reshape_pretty(*operand, (d + 2) as nat, suffix);
            assert(spec_pretty(e, d).len() == head + childtext.len());
        },
    }
}

/// A dump block is never empty.
proof fn lemma_pretty_nonempty(e: ExprV, d: nat)
    ensures
        spec_pretty(e, d).len() > 0,
{
    reveal_strlit("Literal: ");
    reveal_strlit("Unary: ");
    reveal_strlit("Binary: ");
    reveal_strlit("Grouping");
}

/// Pretty-printing then re-deriving the tree shape reproduces the original
/// structure: the dump of any tree parses back, on its own, to exactly the
/// tree's node kinds and operator identities.
pub proof fn lemma_dump_recovers_shape(e: ExprV)
    ensures
        spec_reshape(spec_pretty(e, 0), 0) == Some(
            (spec_shape(e), spec_pretty(e, 0).len() as int),
        ),
{
    assert(spec_pretty(e, 0) + Seq::<char>::empty() =~= spec_pretty(e, 0));
    lemma_reshape_pretty(e, 0, Seq::<char>::empty());
}




/// Whether `s` continues with the characters of `p` at `at`.
fn has_prefix(s: &Vec<char>, at: usize, p: &str) -> (r: bool)
    requires
        at <= s@.len(),
    ensures
        r == spec_starts_with(s@.skip(at as int), p@),
{
    let ghost t = s@.skip(at as int);
    let plen: usize = p.unicode_len();
    if plen > s.len() - at {
        proof {
            assert(t.len() == s@.len() - at);
        }
        return false;
    }
    let mut i: usize = 0;
    while i < plen
        invariant
            at <= s@.len(),
            s@.len() <= usize::MAX,
            plen == p@.len(),
            at + plen <= s@.len(),
            i <= plen,
            t == s@.skip(at as int),
            forall|k: int| 0 <= k < i ==> s@[at + k] == p@[k],
        decreases plen - i,
    {
        if s[at + i] != p.get_char(i) {
            proof {
                if spec_starts_with(t, p@) {
                    assert(t.subrange(0, plen as int)[i as int] == p@[i as int]);
                    assert(t[i as int] == s@[at + i]);
                }
            }
            return false;
        }
        i = i + 1;
    }
    proof {
        assert(t.subrange(0, plen as int) =~= p@);
    }
    true
}

/// The offset, from `at`, of the first newline at or after `at`; the
/// remaining length when there is none.
fn find_nl(s: &Vec<char>, at: usize) -> (r: usize)
    requires
        at <= s@.len(),
    ensures
        r as int == spec_find_newline(s@.skip(at as int), 0),
        at + r <= s@.len(),
{
    let ghost t = s@.skip(at as int);
    let mut j: usize = at;
    while j < s.len()
        invariant
            at <= j <= s@.len(),
            t == s@.skip(at as int),
            spec_find_newline(t, 0) == spec_find_newline(t, j - at),
        ensures
            j == s@.len() || s@[j as int] == '\n',
            spec_find_newline(t, 0) == spec_find_newline(t, j - at),
            at <= j <= s@.len(),
        decreases s@.len() - j,
    {
        if s[j] == '\n' {
            proof {
                assert(t[j - at] == '\n');
            }
            break ;
        }
        proof {
            assert(t[j - at] != '\n');
            assert(spec_find_newline(t, j - at) == spec_find_newline(t, j + 1 - at));
        }
        j = j + 1;
    }
    proof {
        if j == s@.len() {
            assert(spec_find_newline(t, j - at) == j - at);
        } else {
            assert(t[j - at] == '\n');
            assert(spec_find_newline(t, j - at) == j - at);
        }
    }
    j - at
}

/// Whether the characters of `s` between `from` and `to` are exactly `p`.
fn seg_eq(s: &Vec<char>, from: usize, to: usize, p: &str) -> (r: bool)
    requires
        from <= to <= s@.len(),
    ensures
        r == (s@.subrange(from as int, to as int) == p@),
{
    let ghost seg = s@.subrange(from as int, to as int);
    let _total: usize = s.len();
    let plen: usize = p.unicode_len();
    if to - from != plen {
        proof {
            assert(seg.len() != p@.len());
        }
        return false;
    }
    let mut i: usize = 0;
    while i < plen
        invariant
            from <= to <= s@.len(),
            s@.len() <= usize::MAX,
            plen == p@.len(),
            to - from == plen,
            i <= plen,
            seg == s@.subrange(from as int, to as int),
            forall|k: int| 0 <= k < i ==> seg[k] == p@[k],
        decreases plen - i,
    {
        if s[from + i] != p.get_char(i) {
            proof {
                assert(seg[i as int] == s@[from + i]);
                if seg == p@ {
                    assert(seg[i as int] == p@[i as int]);
                }
            }
            return false;
        }
        proof {
            assert(seg[i as int] == s@[from + i]);
        }
        i = i + 1;
    }
    proof {
        assert(seg =~= p@);
    }
    true
}

/// The symbol whose source text sits between `from` and `to`.
fn symbol_from_segment(s: &Vec<char>, from: usize, to: usize) -> (r: Option<Symbol>)
    requires
        from <= to <= s@.len(),
    ensures
        r == symbol_of_lexeme(s@.subrange(from as int, to as int)),
{
    if seg_eq(s, from, to, "(") {
        Some(Symbol::LeftParenthesis)
    } else if seg_eq(s, from, to, ")") {
        Some(Symbol::RightParenthesis)
    } else if seg_eq(s, from, to, "[") {
        Some(Symbol::LeftSquareBracket)
    } else if seg_eq(s, from, to, "]") {
        Some(Symbol::RightSquareBracket)
    } else if seg_eq(s, from, to, "{") {
        Some(Symbol::LeftCurlyBracket)
    } else if seg_eq(s, from, to, "}") {
        Some(Symbol::RightCurlyBracket)
    } else if seg_eq(s, from, to, "#") {
        Some(Symbol::Hashtag)
    } else if seg_eq(s, from, to, ",") {
        Some(Symbol::Comma)
    } else if seg_eq(s, from, to, ".") {
        Some(Symbol::Period)
    } else if seg_eq(s, from, to, ":") {
        Some(Symbol::Colon)
    } else if seg_eq(s, from, to, ";") {
        Some(Symbol::Semicolon)
    } else if seg_eq(s, from, to, "\"") {
        Some(Symbol::QuotationMark)
    } else if seg_eq(s, from, to, "'") {
        Some(Symbol::Apostrophe)
    } else if seg_eq(s, from, to, "+") {
        Some(Symbol::Plus)
    } else if seg_eq(s, from, to, "-") {
        Some(Symbol::Minus)
    } else if seg_eq(s, from, to, "*") {
        Some(Symbol::Asterisk)
    } else if seg_eq(s, from, to, "/") {
        Some(Symbol::ForwardSlash)
    } else if seg_eq(s, from, to, "!") {
        Some(Symbol::ExclamationPoint)
    } else if seg_eq(s, from, to, "<") {
        Some(Symbol::LeftAngledBracket)
    } else if seg_eq(s, from, to, ">") {
        Some(Symbol::RightAngledBracket)
    } else if seg_eq(s, from, to, "=") {
        Some(Symbol::Equals)
    } else if seg_eq(s, from, to, "==") {
        Some(Symbol::DoubleEquals)
    } else if seg_eq(s, from, to, "+=") {
        Some(Symbol::PlusEquals)
    } else if seg_eq(s, from, to, "-=") {
        Some(Symbol::MinusEquals)
    } else if seg_eq(s, from, to, "*=") {
        Some(Symbol::AsteriskEquals)
    } else if seg_eq(s, from, to, "/=") {
        Some(Symbol::ForwardSlashEquals)
    } else if seg_eq(s, from, to, "!=") {
        Some(Symbol::ExclamationPointEquals)
    } else if seg_eq(s, from, to, "<=") {
        Some(Symbol::LeftAngledBracketEquals)
    } else if seg_eq(s, from, to, ">=") {
        Some(Symbol::RightAngledBracketEquals)
    } else if seg_eq(s, from, to, "->") {
        Some(Symbol::RightArrow)
    } else if seg_eq(s, from, to, "&") {
        Some(Symbol::Ampersand)
    } else if seg_eq(s, from, to, "&&") {
        Some(Symbol::DoubleAmpersand)
    } else if seg_eq(s, from, to, "&=") {
        Some(Symbol::AmpersandEquals)
    } else if seg_eq(s, from, to, "|") {
        Some(Symbol::Pipe)
    } else if seg_eq(s, from, to, "||") {
        Some(Symbol::DoublePipe)
    } else if seg_eq(s, from, to, "|=") {
        Some(Symbol::PipeEquals)
    } else if seg_eq(s, from, to, "^") {
        Some(Symbol::Caret)
    } else if seg_eq(s, from, to, "^=") {
        Some(Symbol::CaretEquals)
    } else if seg_eq(s, from, to, "~") {
        Some(Symbol::Tilde)
    } else if seg_eq(s, from, to, "~=") {
        Some(Symbol::TildeEquals)
    } else if seg_eq(s, from, to, "%") {
        Some(Symbol::Percent)
    } else if seg_eq(s, from, to, "%=") {
        Some(Symbol::PercentEquals)
    } else {
        None
    }
}


/// Re-derives the shape of the dump block starting at `start`, at
/// indentation `d`, step for step as `spec_reshape` reads the remaining
/// text.
fn reshape_block(s: &Vec<char>, start: usize, d: usize) -> (r: Option<(Shape, usize)>)
    requires
        start <= s@.len(),
        s@.len() <= usize::MAX - 2,
    ensures
        ({
            let sr = spec_reshape(s@.skip(start as int), d as nat);
            match r {
                Some(p) => sr == Some((p.0, p.1 as int)) && p.1 <= s@.len() - start,
                None => sr is None,
            }
        }),
    decreases s@.len() - start,
{
    let ghost rem = s@.skip(start as int);
    let remaining: usize = s.len() - start;
    if d > remaining {
        proof {
            assert(spec_spaces(d as nat).len() == d);
        }
        return None;
    }
    let mut i: usize = 0;
    while i < d
        invariant
            start <= s@.len(),
            s@.len() <= usize::MAX,
            d <= s@.len() - start,
            i <= d,
            rem == s@.skip(start as int),
            forall|k: int| 0 <= k < i ==> #[trigger] s@[start + k] == ' ',
        decreases d - i,
    {
        if s[start + i] != ' ' {
            proof {
                if spec_starts_with(rem, spec_spaces(d as nat)) {
                    assert(rem.subrange(0, d as int)[i as int] == spec_spaces(d as nat)[i as int]);
                    assert(rem[i as int] == s@[start + i]);
                }
            }
            return None;
        }
        i = i + 1;
    }
    proof {
        assert forall|k: int| 0 <= k < d implies rem.subrange(0, d as int)[k] == spec_spaces(
            d as nat,
        )[k] by {
            assert(rem[k] == s@[start + k]);
        }
        assert(rem.subrange(0, d as int) =~= spec_spaces(d as nat));
    }
    let at: usize = start + d;
    let ghost t = s@.skip(at as int);
    proof {
        assert(rem.skip(d as int) =~= t);
    }
    if has_prefix(s, at, "Literal: ") {
        let nl = find_nl(s, at);
        if at + nl < s.len() {
            Some((Shape::Literal, d + nl + 1))
        } else {
            None
        }
    } else if has_prefix(s, at, "Unary: ") {
        let nl = find_nl(s, at);
        let plen: usize = "Unary: ".unicode_len();
        if at + nl >= s.len() || nl < plen {
            None
        } else {
            match symbol_from_segment(s, at + plen, at + nl) {
                None => {
                    proof {
                        assert(s@.subrange((at + plen) as int, (at + nl) as int) =~= t.subrange(
                            plen as int,
                            nl as int,
                        ));
                    }
                    None
                },
                Some(op) => {
                    proof {
                        assert(s@.subrange((at + plen) as int, (at + nl) as int) =~= t.subrange(
                            plen as int,
                            nl as int,
                        ));
                    }
                    let head: usize = d + nl + 1;
                    if 1 <= head && head <= remaining {
                        proof {
                            assert(rem.skip(head as int) =~= s@.skip((start + head) as int));
                        }
                        match reshape_block(s, start + head, d + 2) {
                            None => None,
                            Some(child) => Some(
                                (Shape::Unary(op, Box::new(child.0)), head + child.1),
                            ),
                        }
                    } else {
                        None
                    }
                },
            }
        }
    } else if has_prefix(s, at, "Binary: ") {
        let nl = find_nl(s, at);
        let plen: usize = "Binary: ".unicode_len();
        if at + nl >= s.len() || nl < plen {
            None
        } else {
            match symbol_from_segment(s, at + plen, at + nl) {
                None => {
                    proof {
                        assert(s@.subrange((at + plen) as int, (at + nl) as int) =~= t.subrange(
                            plen as int,
                            nl as int,
                        ));
                    }
                    None
                },
                Some(op) => {
                    proof {
                        assert(s@.subrange((at + plen) as int, (at + nl) as int) =~= t.subrange(
                            plen as int,
                            nl as int,
                        ));
                    }
                    let head: usize = d + nl + 1;
                    if 1 <= head && head <= remaining {
                        proof {
                            assert(rem.skip(head as int) =~= s@.skip((start + head) as int));
                        }
                        match reshape_block(s, start + head, d + 2) {
                            None => None,
                            Some(left) => {
                                let mid: usize = head + left.1;
                                if head < mid && mid <= remaining {
                                    proof {
                                        assert(rem.skip(mid as int) =~= s@.skip(
                                            (start + mid) as int,
                                        ));
                                    }
                                    match reshape_block(s, start + mid, d + 2) {
                                        None => None,
                                        Some(right) => Some(
                                            (
                                                Shape::Binary(
                                                    op,
                                                    Box::new(left.0),
                                                    Box::new(right.0),
                                                ),
                                                mid + right.1,
                                            ),
                                        ),
                                    }
                                } else {
                                    None
                                }
                            },
                        }
                    } else {
                        None
                    }
                },
            }
        }
    } else if has_prefix(s, at, "Grouping\n") {
        let glen: usize = "Grouping\n".unicode_len();
        let head: usize = d + glen;
        if 1 <= head && head <= remaining {
            proof {
                assert(rem.skip(head as int) =~= s@.skip((start + head) as int));
            }
            match reshape_block(s, start + head, d + 2) {
                None => None,
                Some(child) => Some((Shape::Grouping(Box::new(child.0)), head + child.1)),
            }
        } else {
            None
        }
    } else {
        None
    }
}

impl Shape {
    /// Re-derives the shape a dump was printed from, when the text is a
    /// well-formed dump starting at the left margin.
    pub fn from_dump(dump: &str) -> (r: Option<Shape>)
        requires
            dump@.len() <= usize::MAX - 2,
        ensures
            match spec_reshape(dump@, 0) {
                Some(p) => r == Some(p.0),
                None => r is None,
            },
    {
        let chars = chars_of(dump);
        proof {
            assert(chars@.skip(0) =~= dump@);
        }
        match reshape_block(&chars, 0, 0) {
            Some(pair) => Some(pair.0),
            None => None,
        }
    }
}

} // verus!
