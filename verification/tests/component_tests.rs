use kon::binder::Binder;
use kon::bound_expression::BoundExpression;
use kon::bound_operator::{BoundBinaryOperator, BoundUnaryOperator};
use kon::data_type::{Primitive, Type};
use kon::error::{InterpreterError, InterpreterErrorDiscriminants, KonError};
use kon::error_handler::ErrorHandler;
use kon::expression::{Expression, SyntaxTree};
use kon::lexer::Lexer;
use kon::parser::{Delimiter, Parser};
use kon::position::Position;
use kon::reshape::Shape;
use kon::token::{Keyword, Literal, LiteralToken, Symbol, SymbolToken, Token};
use kon::token_provider::{Next, TokenProvider};
use kon::value::Value;

fn scan(source: &str) -> (Vec<Token>, ErrorHandler) {
    let mut errors = ErrorHandler::new();
    let mut lexer = Lexer::new();
    let tokens = lexer.lex(source, &mut errors);
    (tokens, errors)
}

fn parse(source: &str) -> (SyntaxTree, ErrorHandler) {
    let (tokens, mut errors) = scan(source);
    let mut parser = Parser::new();
    let tree = parser.parse(&tokens, &mut errors);
    (tree, errors)
}

#[test]
fn empty_input_scans_to_one_end_of_file() {
    let (tokens, errors) = scan("");
    assert_eq!(tokens.len(), 1);
    assert!(matches!(tokens[0], Token::EndOfFile { .. }));
    assert_eq!(tokens[0].line(), 1);
    assert_eq!(tokens[0].column(), 1);
    assert!(!errors.had_error());
}

#[test]
fn end_of_file_sits_one_column_past_the_last_character() {
    let (tokens, _) = scan("ab cd");
    assert_eq!(tokens.len(), 3);
    assert_eq!(tokens[0].lexeme(), "ab");
    assert_eq!(tokens[0].column(), 1);
    assert_eq!(tokens[1].lexeme(), "cd");
    assert_eq!(tokens[1].column(), 4);
    assert!(matches!(tokens[2], Token::EndOfFile { .. }));
    assert_eq!(tokens[2].column(), 6);
}

#[test]
fn every_scan_has_exactly_one_end_of_file() {
    for source in ["", "1 + 2", "@ # ~", "\"abc", "// only a comment", "x\ny\nz"] {
        let (tokens, _) = scan(source);
        let eofs = tokens
            .iter()
            .filter(|t| matches!(t, Token::EndOfFile { .. }))
            .count();
        assert_eq!(eofs, 1, "source {:?}", source);
        assert!(matches!(tokens[tokens.len() - 1], Token::EndOfFile { .. }));
    }
}

#[test]
fn keywords_are_classified() {
    let (tokens, _) = scan("if else while trait");
    assert!(matches!(tokens[0], Token::Keyword(_)));
    assert_eq!(tokens[0].lexeme(), "if");
    assert_eq!(tokens[3].lexeme(), "trait");
}

#[test]
fn reserved_word_lookup() {
    assert!(Token::reserved_word("if", 1, 1).is_some());
    assert!(Token::reserved_word("pub", 1, 1).is_some());
    assert!(Token::reserved_word("iffy", 1, 1).is_none());
    assert!(Token::reserved_word("Self", 1, 1).is_none());
}

#[test]
fn two_character_operators_use_maximal_munch() {
    let (tokens, _) = scan("<= >= == != -> += ^=");
    let expected = [
        Symbol::LeftAngledBracketEquals,
        Symbol::RightAngledBracketEquals,
        Symbol::DoubleEquals,
        Symbol::ExclamationPointEquals,
        Symbol::RightArrow,
        Symbol::PlusEquals,
        Symbol::CaretEquals,
    ];
    for (token, symbol) in tokens.iter().zip(expected.iter()) {
        match token {
            Token::Symbol(st) => assert_eq!(st.symbol, *symbol),
            other => panic!("expected a symbol, got `{}`", other.lexeme()),
        }
    }
}

#[test]
fn adjacent_parens_scan_as_the_unit_literal() {
    let (tokens, _) = scan("()");
    assert_eq!(tokens.len(), 2);
    match &tokens[0] {
        Token::Literal(literal_token) => {
            assert!(matches!(literal_token.literal, Literal::Void));
            assert_eq!(literal_token.position, Position::new(1, 1));
        }
        other => panic!("expected the unit literal, got `{}`", other.lexeme()),
    }
}

#[test]
fn string_lexeme_keeps_spaces() {
    let (tokens, _) = scan("\"a b  c\"");
    assert_eq!(tokens[0].lexeme(), "a b  c");
}

#[test]
fn consecutive_comment_lines_follow_the_single_pass_filter() {
    // The filter pipeline runs once per character request: the second
    // comment line is not filtered, so its first slash comes through.
    let (tokens, _) = scan("// a\n// b");
    assert_eq!(tokens.len(), 4);
    for token in &tokens[0..2] {
        match token {
            Token::Symbol(st) => assert_eq!(st.symbol, Symbol::ForwardSlash),
            other => panic!("expected a slash, got `{}`", other.lexeme()),
        }
    }
    assert_eq!(tokens[2].lexeme(), "b");
}

#[test]
fn token_provider_end_of_file_is_terminal() {
    let (tokens, _) = scan("1");
    let mut provider = TokenProvider::new(&tokens);
    assert!(matches!(provider.next(), Next::Token(_)));
    assert!(matches!(provider.next(), Next::EndOfFile { .. }));
    assert!(matches!(provider.next(), Next::EndOfFile { .. }));
    match provider.next() {
        Next::EndOfFile { line, column } => {
            assert_eq!((line, column), (1, 2));
        }
        _ => panic!("the sentinel must keep being returned"),
    }
}

#[test]
fn token_provider_remembers_the_previous_valid_token() {
    let (tokens, _) = scan("1 +");
    let mut provider = TokenProvider::new(&tokens);
    provider.next();
    provider.next();
    assert_eq!(provider.previous_valid().lexeme(), "+");
}

#[test]
fn next_cloned_keeps_the_variant() {
    let token = Token::EndOfFile { position: Position::new(3, 4) };
    let next: Next<&Token> = Next::Token(&token);
    assert!(matches!(next.cloned(), Next::Token(Token::EndOfFile { .. })));
    let eof: Next<&Token> = Next::EndOfFile { line: 1, column: 2 };
    assert!(matches!(eof.cloned(), Next::EndOfFile { line: 1, column: 2 }));
}

#[test]
fn parse_tree_shape_is_left_associative() {
    let (tree, errors) = parse("8 - 3 - 2");
    assert!(!errors.had_error());
    assert_eq!(
        tree.root.pretty_print(0),
        "Binary: -\n  Binary: -\n    Literal: 8\n    Literal: 3\n  Literal: 2\n"
    );
}

#[test]
fn stray_closer_still_parses_the_rest() {
    let (tree, errors) = parse("1 + 2) + 3");
    assert!(errors.had_error());
    assert_eq!(
        tree.root.pretty_print(0),
        "Binary: +\n  Binary: +\n    Literal: 1\n    Literal: 2\n  Literal: 3\n"
    );
}

#[test]
fn missing_operand_becomes_a_placeholder() {
    let (tree, errors) = parse("1 +");
    assert!(errors.had_error());
    assert_eq!(
        tree.root.pretty_print(0),
        "Binary: +\n  Literal: 1\n  Literal: ()\n"
    );
}

#[test]
fn parse_result_always_carries_an_end_of_file() {
    for source in ["", "1 + 2", ")", "(1", "1 2"] {
        let (tree, _) = parse(source);
        assert!(matches!(tree.eof, Token::EndOfFile { .. }), "source {:?}", source);
    }
}

#[test]
fn dump_escapes_newlines_and_quotes() {
    let root = Expression::Literal {
        token: LiteralToken {
            position: Position::new(1, 1),
            literal: Literal::String { lexeme: "a\n\"b\\".to_string() },
        },
    };
    assert_eq!(root.pretty_print(0), "Literal: \"a\\n\\\"b\\\\\"\n");
}

#[test]
fn delimiter_lexeme_and_closing_lookup() {
    let token = Token::Symbol(SymbolToken {
        position: Position::new(2, 7),
        symbol: Symbol::RightCurlyBracket,
    });
    let delimiter = Delimiter::try_from(&token).expect("a closing bracket");
    assert_eq!(delimiter.lexeme(), "{");
    assert_eq!((delimiter.line, delimiter.column), (2, 7));
    let plus = Token::Symbol(SymbolToken {
        position: Position::new(1, 1),
        symbol: Symbol::Plus,
    });
    assert!(Delimiter::try_from(&plus).is_none());
}

#[test]
fn binder_tags_types_and_resolves_operators() {
    let (tree, mut errors) = parse("1 + 2");
    let mut binder = Binder::new();
    let bound = binder.bind(tree.root, &mut errors);
    assert!(!errors.had_error());
    assert_eq!(bound.data_type(), Type::Primitive(Primitive::Int));
    match bound.evaluate() {
        Ok(Value::Number(n)) => assert_eq!(n, 3),
        other => panic!("expected a number, got {:?}", other),
    }
}

#[test]
fn binder_reports_an_unknown_operator() {
    let token = SymbolToken { position: Position::new(2, 3), symbol: Symbol::Comma };
    match BoundBinaryOperator::try_from(token) {
        Err(error) => {
            assert_eq!(error.id(), InterpreterErrorDiscriminants::UnknownOperator);
            assert_eq!(error.report_string(), "Unknown operator `,` (2, 3)");
        }
        Ok(op) => panic!("a comma must not resolve, got {:?}", op),
    }
    let bang = SymbolToken { position: Position::new(1, 1), symbol: Symbol::ExclamationPoint };
    assert!(matches!(
        BoundUnaryOperator::try_from(bang),
        Ok(BoundUnaryOperator::Not)
    ));
}

#[test]
fn grouping_forwards_its_operand() {
    let (tree, mut errors) = parse("(((7)))");
    let mut binder = Binder::new();
    let bound = binder.bind(tree.root, &mut errors);
    match bound.evaluate() {
        Ok(Value::Number(n)) => assert_eq!(n, 7),
        other => panic!("expected the inner value, got {:?}", other),
    }
}

#[test]
fn error_handler_accumulates_in_order() {
    let mut handler = ErrorHandler::new();
    assert!(!handler.had_error());
    handler.push(InterpreterError::Other("first".to_string()));
    handler.push(InterpreterError::UnterminatedString { position: Position::new(1, 2) });
    assert!(handler.had_error());
    assert_eq!(handler.errors().len(), 2);
    assert_eq!(handler.errors()[0].report_string(), "first");
    let aggregate = handler.report_errors();
    assert_eq!(aggregate.report_string(), "interpreter caught 2 error(s)");
    handler.clear();
    assert!(!handler.had_error());
    assert!(handler.try_report_errors().is_ok());
}

#[test]
fn diagnostic_texts_are_reproducible() {
    let unknown = InterpreterError::UnknownToken {
        position: Position::new(12, 34),
        token: "$".to_string(),
    };
    assert_eq!(unknown.report_string(), "Unknown token `$` (12, 34)");
    assert_eq!(unknown.id(), InterpreterErrorDiscriminants::UnknownToken);
    let syntax = InterpreterError::SyntaxError {
        position: Position::new(1, 2),
        message: "broken".to_string(),
    };
    assert_eq!(syntax.report_string(), "broken (1, 2)");
    let premature = InterpreterError::EOFError {
        position: Position::new(3, 9),
        message: "input ended early".to_string(),
    };
    assert_eq!(premature.report_string(), "input ended early (3, 9)");
    assert_eq!(premature.id(), InterpreterErrorDiscriminants::EOFError);
    let evaluation = KonError::Evaluation("oops".to_string());
    assert_eq!(
        evaluation.report_string(),
        "failed to evaluate expression: `oops`"
    );
    let aggregate = KonError::Other("plain".to_string());
    assert_eq!(aggregate.report_string(), "plain");
}

#[test]
fn symbol_and_keyword_lexemes() {
    assert_eq!(Symbol::DoubleEquals.lexeme(), "==");
    assert_eq!(Symbol::LeftParenthesis.lexeme(), "(");
    assert_eq!(Keyword::Public.lexeme(), "pub");
    assert_eq!(Keyword::_SelfType.lexeme(), "Self");
    assert_eq!(
        Literal::Number { lexeme: -42 }.lexeme(),
        "-42"
    );
    assert_eq!(Literal::Void.lexeme(), "()");
}

#[test]
fn command_line_shape_carries_plain_values() {
    let cli = kon::cli::Cli {
        mode: kon::cli::Mode { interactive: false, file: Some("demo.kon".to_string()) },
        output: None,
    };
    assert!(!cli.mode.interactive);
    assert_eq!(cli.mode.file.as_deref(), Some("demo.kon"));
    let _compiler = kon::compiler::Compiler::new();
}

#[test]
fn text_bridges_round_trip() {
    let chars = kon::text::chars_of("a\nb");
    assert_eq!(chars, vec!['a', '\n', 'b']);
    assert_eq!(kon::text::string_from_chars(&chars), "a\nb");
    let mut digits: Vec<char> = Vec::new();
    kon::text::push_decimal(&mut digits, 1040);
    assert_eq!(kon::text::string_from_chars(&digits), "1040");
}

#[test]
fn dump_re_derives_the_tree_shape() {
    let (tree, errors) = parse("1 + 2 * 3");
    assert!(!errors.had_error());
    let dump = tree.root.pretty_print(0);
    let shape = Shape::from_dump(&dump).expect("a dump re-derives");
    assert_eq!(
        shape,
        Shape::Binary(
            Symbol::Plus,
            Box::new(Shape::Literal),
            Box::new(Shape::Binary(
                Symbol::Asterisk,
                Box::new(Shape::Literal),
                Box::new(Shape::Literal),
            )),
        )
    );
}

#[test]
fn dump_re_derivation_keeps_unary_and_grouping_nodes() {
    let (tree, errors) = parse("-(\"a\nb\" + x)");
    assert!(!errors.had_error());
    let dump = tree.root.pretty_print(0);
    let shape = Shape::from_dump(&dump).expect("a dump re-derives");
    assert_eq!(
        shape,
        Shape::Unary(
            Symbol::Minus,
            Box::new(Shape::Grouping(Box::new(Shape::Binary(
                Symbol::Plus,
                Box::new(Shape::Literal),
                Box::new(Shape::Literal),
            )))),
        )
    );
}

#[test]
fn division_wraps_at_the_minimum() {
    let leaf = |n: i64| BoundExpression::Literal {
        data_type: Type::Primitive(Primitive::Int),
        position: Position::new(1, 1),
        value: Value::Number(n),
    };
    let node = BoundExpression::Binary {
        data_type: Type::Primitive(Primitive::Int),
        position: Position::new(1, 1),
        operator: BoundBinaryOperator::Division,
        left_operand: Box::new(leaf(i64::MIN)),
        right_operand: Box::new(leaf(-1)),
    };
    match node.evaluate() {
        Ok(Value::Number(n)) => assert_eq!(n, i64::MIN),
        other => panic!("expected the wrapped quotient, got {:?}", other),
    }
}

#[test]
fn negation_wraps_at_the_minimum() {
    let node = BoundExpression::Unary {
        data_type: Type::Primitive(Primitive::Int),
        position: Position::new(1, 1),
        operator: BoundUnaryOperator::Negation,
        operand: Box::new(BoundExpression::Literal {
            data_type: Type::Primitive(Primitive::Int),
            position: Position::new(1, 1),
            value: Value::Number(i64::MIN),
        }),
    };
    match node.evaluate() {
        Ok(Value::Number(n)) => assert_eq!(n, i64::MIN),
        other => panic!("expected the wrapped negation, got {:?}", other),
    }
}
