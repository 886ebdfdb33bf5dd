//! The run orchestrator: scan, parse, bind, then — only when no diagnostic
//! was collected — evaluate, strictly in sequence. It owns the diagnostic
//! collector, cleared at the start of each run, and supports the debug
//! toggles by storing pretty-printed dumps for the caller to print.

use vstd::prelude::*;

use crate::binder::{spec_bind, Binder};
use crate::bound_expression::spec_eval;
use crate::error::{spec_report, ErrorV, KonError, KonErrorV};
use crate::error_handler::ErrorHandler;
use crate::expression::{spec_depth, spec_pretty};
use crate::lexer::{spec_invalid_errors, spec_scan, spec_tokens_view, Lexer};
use crate::parser::{spec_parse_fn, Parser};
use crate::text::{push_decimal_i64, spec_decimal_i64, string_from_chars};
use crate::token::Token;
use crate::value::{Value, ValueV};

verus! {

pub struct Interpreter {
    error_handler: ErrorHandler,
    lexer: Lexer,
    parser: Parser,
    binder: Binder,
    show_tokens: bool,
    show_tree: bool,
    token_dump: Option<Vec<Token>>,
    tree_dump: Option<String>,
}

impl Interpreter {
    /// Between runs the parser's delimiter stack is empty.
    pub closed spec fn wf(self) -> bool {
        self.parser.spec_stack().len() == 0
    }

    /// Whether the next run was asked to keep its tree dump.
    pub closed spec fn spec_show_tree(self) -> bool {
        self.show_tree
    }

    /// Whether the next run was asked to keep its token sequence.
    pub closed spec fn spec_show_tokens(self) -> bool {
        self.show_tokens
    }

    /// The tree dump the last run kept, until it is taken.
    pub closed spec fn spec_tree_dump(self) -> Option<String> {
        self.tree_dump
    }

    /// The token sequence the last run kept, until it is taken.
    pub closed spec fn spec_token_dump(self) -> Option<Vec<Token>> {
        self.token_dump
    }

    pub fn new() -> (r: Interpreter)
        ensures
            r.wf(),
    {
        Interpreter {
            error_handler: ErrorHandler::new(),
            lexer: Lexer::new(),
            parser: Parser::new(),
            binder: Binder::new(),
            show_tokens: false,
            show_tree: false,
            token_dump: None,
            tree_dump: None,
        }
    }

    /// Runs one source text: scan, parse, bind, and — only when no
    /// diagnostic was collected — evaluate. A successful run means the
    /// scan raised no diagnostic (so, in particular, no invalid token); a
    /// failed one carries every collected diagnostic, or the evaluation
    /// error's report text.
    pub fn run(&mut self, source: String) -> (r: Result<String, KonError>)
        requires
            old(self).wf(),
            source@.len() <= 0xFFFF_0000,
        ensures
            final(self).wf(),
            final(self).spec_show_tree() == false,
            final(self).spec_show_tokens() == false,
            old(self).spec_show_tokens() ==> (match final(self).spec_token_dump() {
                Some(kept) => spec_tokens_view(kept@) == spec_scan(source@, 0, 1, 0),
                None => false,
            }),
            !old(self).spec_show_tokens() ==> final(self).spec_token_dump() == old(
                self,
            ).spec_token_dump(),
            old(self).spec_show_tree() ==> (match final(self).spec_tree_dump() {
                Some(kept) => kept@ == spec_pretty(
                    spec_parse_fn(spec_scan(source@, 0, 1, 0)).0,
                    0,
                ),
                None => 2 * spec_depth(spec_parse_fn(spec_scan(source@, 0, 1, 0)).0)
                    > usize::MAX,
            }),
            !old(self).spec_show_tree() ==> final(self).spec_tree_dump() == old(
                self,
            ).spec_tree_dump(),
            ({
                let toks = spec_scan(source@, 0, 1, 0);
                let parsed = spec_parse_fn(toks);
                let bound = spec_bind(parsed.0);
                match r {
                    Ok(out) => {
                        &&& spec_invalid_errors(toks) == Seq::<ErrorV>::empty()
                        &&& parsed.2 == Seq::<ErrorV>::empty()
                        &&& bound.errors == Seq::<ErrorV>::empty()
                        &&& (match spec_eval(bound.tree) {
                            Ok(v) => match v {
                                ValueV::Number(n) => out@ == spec_decimal_i64(n as int),
                                ValueV::Text(s) => out@ == s,
                                ValueV::Void => false,
                            },
                            Err(_) => false,
                        })
                    },
                    Err(ke) => match ke@ {
                        KonErrorV::InterpreterErrors(errs) => {
                            &&& errs == spec_invalid_errors(toks) + parsed.2 + bound.errors
                            &&& errs.len() > 0
                        },
                        KonErrorV::Evaluation(msg) => {
                            &&& spec_invalid_errors(toks) == Seq::<ErrorV>::empty()
                            &&& parsed.2 == Seq::<ErrorV>::empty()
                            &&& bound.errors == Seq::<ErrorV>::empty()
                            &&& (match spec_eval(bound.tree) {
                                Ok(v) => v is Void && msg == "invalid types"@,
                                Err(e) => msg == spec_report(e),
                            })
                        },
                        KonErrorV::Other(_) => false,
                    },
                }
            }),
    {
        let ghost toks = spec_scan(source@, 0, 1, 0);
        let ghost parsed = spec_parse_fn(toks);
        self.error_handler.clear();
        let tokens = self.lexer.lex(source.as_str(), &mut self.error_handler);
        proof {
            assert(self.error_handler@ =~= spec_invalid_errors(toks));
        }
        let tree = self.parser.parse(&tokens, &mut self.error_handler);
        let ghost bound_spec = spec_bind(parsed.0);
        if self.show_tokens {
            self.token_dump = Some(tokens);
            self.show_tokens = false;
        }
        if self.show_tree {
            self.tree_dump = tree.try_pretty_print();
            self.show_tree = false;
        }
        let bound = self.binder.bind(tree.root, &mut self.error_handler);
        proof {
            assert(self.error_handler@ =~= spec_invalid_errors(toks) + parsed.2
                + bound_spec.errors);
        }
        match self.error_handler.try_report_errors() {
            Err(failure) => Err(failure),
            Ok(()) => {
                proof {
                    assert(spec_invalid_errors(toks) =~= Seq::<ErrorV>::empty());
                    assert(parsed.2 =~= Seq::<ErrorV>::empty());
                    assert(bound_spec.errors =~= Seq::<ErrorV>::empty());
                }
                match bound.evaluate() {
                    Ok(Value::Number(n)) => {
                        let mut out: Vec<char> = Vec::new();
                        push_decimal_i64(&mut out, n);
                        Ok(string_from_chars(&out))
                    },
                    Ok(Value::Text(s)) => Ok(s),
                    Ok(Value::Void) => Err(KonError::Evaluation("invalid types".to_owned())),
                    Err(e) => Err(KonError::Evaluation(e.report_string())),
                }
            },
        }
    }

    /// Asks the next run to keep its tree dump for `take_tree_dump`.
    pub fn show_tree(&mut self)
        ensures
            final(self).wf() == old(self).wf(),
            final(self).spec_show_tree(),
            final(self).spec_show_tokens() == old(self).spec_show_tokens(),
            final(self).spec_tree_dump() == old(self).spec_tree_dump(),
            final(self).spec_token_dump() == old(self).spec_token_dump(),
    {
        self.show_tree = true;
    }

    /// Asks the next run to keep its token sequence for `take_token_dump`.
    pub fn show_next_tokens(&mut self)
        ensures
            final(self).wf() == old(self).wf(),
            final(self).spec_show_tokens(),
            final(self).spec_show_tree() == old(self).spec_show_tree(),
            final(self).spec_tree_dump() == old(self).spec_tree_dump(),
            final(self).spec_token_dump() == old(self).spec_token_dump(),
    {
        self.show_tokens = true;
    }

    /// Hands out, at most once, the tree dump the last run kept.
    pub fn take_tree_dump(&mut self) -> (r: Option<String>)
        ensures
            final(self).wf() == old(self).wf(),
            r == old(self).spec_tree_dump(),
            final(self).spec_tree_dump() is None,
            final(self).spec_token_dump() == old(self).spec_token_dump(),
            final(self).spec_show_tree() == old(self).spec_show_tree(),
            final(self).spec_show_tokens() == old(self).spec_show_tokens(),
    {
        let mut taken: Option<String> = None;
        core::mem::swap(&mut taken, &mut self.tree_dump);
        taken
    }

    /// Hands out, at most once, the token sequence the last run kept.
    pub fn take_token_dump(&mut self) -> (r: Option<Vec<Token>>)
        ensures
            final(self).wf() == old(self).wf(),
            r == old(self).spec_token_dump(),
            final(self).spec_token_dump() is None,
            final(self).spec_tree_dump() == old(self).spec_tree_dump(),
            final(self).spec_show_tree() == old(self).spec_show_tree(),
            final(self).spec_show_tokens() == old(self).spec_show_tokens(),
    {
        let mut taken: Option<Vec<Token>> = None;
        core::mem::swap(&mut taken, &mut self.token_dump);
        taken
    }
}

} // verus!
