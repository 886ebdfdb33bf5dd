//! Tokens: the closed sets of symbols, keywords and literal payloads, and
//! the positioned token variants the lexer emits.

use vstd::prelude::*;

use crate::error::{ErrorV, InterpreterError};
use crate::position::Position;
use crate::text::{push_decimal_i64, push_str_chars, spec_decimal_i64, str_eq, string_from_chars};

verus! {

/// The closed set of punctuation and operator kinds. Only a subset takes
/// part in the expression grammar.
#[derive(Debug, Clone, Copy, PartialEq, Eq, Structural)]
pub enum Symbol {
    LeftParenthesis,
    RightParenthesis,
    LeftSquareBracket,
    RightSquareBracket,
    LeftCurlyBracket,
    RightCurlyBracket,
    Hashtag,
    Comma,
    Period,
    Colon,
    Semicolon,
    QuotationMark,
    Apostrophe,
    Plus,
    Minus,
    Asterisk,
    ForwardSlash,
    ExclamationPoint,
    LeftAngledBracket,
    RightAngledBracket,
    Equals,
    DoubleEquals,
    PlusEquals,
    MinusEquals,
    AsteriskEquals,
    ForwardSlashEquals,
    ExclamationPointEquals,
    LeftAngledBracketEquals,
    RightAngledBracketEquals,
    RightArrow,
    Ampersand,
    DoubleAmpersand,
    AmpersandEquals,
    Pipe,
    DoublePipe,
    PipeEquals,
    Caret,
    CaretEquals,
    Tilde,
    TildeEquals,
    Percent,
    PercentEquals,
}

/// The source text of a symbol.
pub open spec fn spec_symbol_lexeme(s: Symbol) -> Seq<char> {
    match s {
        Symbol::LeftParenthesis => "("@,
        Symbol::RightParenthesis => ")"@,
        Symbol::LeftSquareBracket => "["@,
        Symbol::RightSquareBracket => "]"@,
        Symbol::LeftCurlyBracket => "{"@,
        Symbol::RightCurlyBracket => "}"@,
        Symbol::Hashtag => "#"@,
        Symbol::Comma => ","@,
        Symbol::Period => "."@,
        Symbol::Colon => ":"@,
        Symbol::Semicolon => ";"@,
        Symbol::QuotationMark => "\""@,
        Symbol::Apostrophe => "'"@,
        Symbol::Plus => "+"@,
        Symbol::Minus => "-"@,
        Symbol::Asterisk => "*"@,
        Symbol::ForwardSlash => "/"@,
        Symbol::ExclamationPoint => "!"@,
        Symbol::LeftAngledBracket => "<"@,
        Symbol::RightAngledBracket => ">"@,
        Symbol::Equals => "="@,
        Symbol::DoubleEquals => "=="@,
        Symbol::PlusEquals => "+="@,
        Symbol::MinusEquals => "-="@,
        Symbol::AsteriskEquals => "*="@,
        Symbol::ForwardSlashEquals => "/="@,
        Symbol::ExclamationPointEquals => "!="@,
        Symbol::LeftAngledBracketEquals => "<="@,
        Symbol::RightAngledBracketEquals => ">="@,
        Symbol::RightArrow => "->"@,
        Symbol::Ampersand => "&"@,
        Symbol::DoubleAmpersand => "&&"@,
        Symbol::AmpersandEquals => "&="@,
        Symbol::Pipe => "|"@,
        Symbol::DoublePipe => "||"@,
        Symbol::PipeEquals => "|="@,
        Symbol::Caret => "^"@,
        Symbol::CaretEquals => "^="@,
        Symbol::Tilde => "~"@,
        Symbol::TildeEquals => "~="@,
        Symbol::Percent => "%"@,
        Symbol::PercentEquals => "%="@,
    }
}

impl Symbol {
    /// The source text of this symbol.
    pub fn lexeme(&self) -> (r: String)
        ensures
            r@ == spec_symbol_lexeme(*self),
    {
        match self {
            Symbol::LeftParenthesis => "(".to_owned(),
            Symbol::RightParenthesis => ")".to_owned(),
            Symbol::LeftSquareBracket => "[".to_owned(),
            Symbol::RightSquareBracket => "]".to_owned(),
            Symbol::LeftCurlyBracket => "{".to_owned(),
            Symbol::RightCurlyBracket => "}".to_owned(),
            Symbol::Hashtag => "#".to_owned(),
            Symbol::Comma => ",".to_owned(),
            Symbol::Period => ".".to_owned(),
            Symbol::Colon => ":".to_owned(),
            Symbol::Semicolon => ";".to_owned(),
            Symbol::QuotationMark => "\"".to_owned(),
            Symbol::Apostrophe => "'".to_owned(),
            Symbol::Plus => "+".to_owned(),
            Symbol::Minus => "-".to_owned(),
            Symbol::Asterisk => "*".to_owned(),
            Symbol::ForwardSlash => "/".to_owned(),
            Symbol::ExclamationPoint => "!".to_owned(),
            Symbol::LeftAngledBracket => "<".to_owned(),
            Symbol::RightAngledBracket => ">".to_owned(),
            Symbol::Equals => "=".to_owned(),
            Symbol::DoubleEquals => "==".to_owned(),
            Symbol::PlusEquals => "+=".to_owned(),
            Symbol::MinusEquals => "-=".to_owned(),
            Symbol::AsteriskEquals => "*=".to_owned(),
            Symbol::ForwardSlashEquals => "/=".to_owned(),
            Symbol::ExclamationPointEquals => "!=".to_owned(),
            Symbol::LeftAngledBracketEquals => "<=".to_owned(),
            Symbol::RightAngledBracketEquals => ">=".to_owned(),
            Symbol::RightArrow => "->".to_owned(),
            Symbol::Ampersand => "&".to_owned(),
            Symbol::DoubleAmpersand => "&&".to_owned(),
            Symbol::AmpersandEquals => "&=".to_owned(),
            Symbol::Pipe => "|".to_owned(),
            Symbol::DoublePipe => "||".to_owned(),
            Symbol::PipeEquals => "|=".to_owned(),
            Symbol::Caret => "^".to_owned(),
            Symbol::CaretEquals => "^=".to_owned(),
            Symbol::Tilde => "~".to_owned(),
            Symbol::TildeEquals => "~=".to_owned(),
            Symbol::Percent => "%".to_owned(),
            Symbol::PercentEquals => "%=".to_owned(),
        }
    }
}

/// The closed set of reserved words.
#[derive(Debug, Clone, Copy, PartialEq, Eq, Structural)]
pub enum Keyword {
    If,
    Else,
    For,
    While,
    Loop,
    Return,
    _Self,
    _SelfType,
    Super,
    Export,
    Import,
    Public,
    Type,
    Impl,
    As,
    Trait,
}

/// The source text of a keyword.
pub open spec fn spec_keyword_lexeme(k: Keyword) -> Seq<char> {
    match k {
        Keyword::If => "if"@,
        Keyword::Else => "else"@,
        Keyword::For => "for"@,
        Keyword::While => "while"@,
        Keyword::Loop => "loop"@,
        Keyword::Return => "return"@,
        Keyword::_Self => "self"@,
        Keyword::_SelfType => "Self"@,
        Keyword::Super => "super"@,
        Keyword::Export => "export"@,
        Keyword::Import => "import"@,
        Keyword::Public => "pub"@,
        Keyword::Type => "type"@,
        Keyword::Impl => "impl"@,
        Keyword::As => "as"@,
        Keyword::Trait => "trait"@,
    }
}

impl Keyword {
    /// The source text of this keyword.
    pub fn lexeme(&self) -> (r: String)
        ensures
            r@ == spec_keyword_lexeme(*self),
    {
        match self {
            Keyword::If => "if".to_owned(),
            Keyword::Else => "else".to_owned(),
            Keyword::For => "for".to_owned(),
            Keyword::While => "while".to_owned(),
            Keyword::Loop => "loop".to_owned(),
            Keyword::Return => "return".to_owned(),
            Keyword::_Self => "self".to_owned(),
            Keyword::_SelfType => "Self".to_owned(),
            Keyword::Super => "super".to_owned(),
            Keyword::Export => "export".to_owned(),
            Keyword::Import => "import".to_owned(),
            Keyword::Public => "pub".to_owned(),
            Keyword::Type => "type".to_owned(),
            Keyword::Impl => "impl".to_owned(),
            Keyword::As => "as".to_owned(),
            Keyword::Trait => "trait".to_owned(),
        }
    }
}

/// A literal payload: an identifier, a piece of quoted text, a number, or
/// the unit value written `()`.
#[derive(Debug)]
pub enum Literal {
    Identifier { lexeme: String },
    String { lexeme: String },
    Number { lexeme: i64 },
    Void,
}

/// The mathematical value of a literal payload.
pub enum LiteralV {
    Identifier { lexeme: Seq<char> },
    String { lexeme: Seq<char> },
    Number { lexeme: i64 },
    Void,
}

impl View for Literal {
    type V = LiteralV;

    open spec fn view(&self) -> LiteralV {
        match self {
            Literal::Identifier { lexeme } => LiteralV::Identifier { lexeme: lexeme@ },
            Literal::String { lexeme } => LiteralV::String { lexeme: lexeme@ },
            Literal::Number { lexeme } => LiteralV::Number { lexeme: *lexeme },
            Literal::Void => LiteralV::Void,
        }
    }
}

impl Clone for Literal {
    fn clone(&self) -> (r: Literal)
        ensures
            r@ == self@,
    {
        match self {
            Literal::Identifier { lexeme } => Literal::Identifier { lexeme: lexeme.clone() },
            Literal::String { lexeme } => Literal::String { lexeme: lexeme.clone() },
            Literal::Number { lexeme } => Literal::Number { lexeme: *lexeme },
            Literal::Void => Literal::Void,
        }
    }
}

/// The source text of a literal; a number renders in decimal and the unit
/// value renders as `()`.
pub open spec fn spec_literal_lexeme(l: LiteralV) -> Seq<char> {
    match l {
        LiteralV::Identifier { lexeme } => lexeme,
        LiteralV::String { lexeme } => lexeme,
        LiteralV::Number { lexeme } => spec_decimal_i64(lexeme as int),
        LiteralV::Void => "()"@,
    }
}

impl Literal {
    /// The source text of this literal.
    pub fn lexeme(&self) -> (r: String)
        ensures
            r@ == spec_literal_lexeme(self@),
    {
        match self {
            Literal::Identifier { lexeme } => lexeme.clone(),
            Literal::String { lexeme } => lexeme.clone(),
            Literal::Number { lexeme } => {
                let mut out: Vec<char> = Vec::new();
                push_decimal_i64(&mut out, *lexeme);
                string_from_chars(&out)
            },
            Literal::Void => "()".to_owned(),
        }
    }
}

/// A positioned symbol.
#[derive(Debug, Clone, Copy, PartialEq, Eq, Structural)]
pub struct SymbolToken {
    pub position: Position,
    pub symbol: Symbol,
}

/// A positioned keyword.
#[derive(Debug, Clone, Copy, PartialEq, Eq, Structural)]
pub struct KeywordToken {
    pub position: Position,
    pub keyword: Keyword,
}

/// A positioned literal.
#[derive(Debug)]
pub struct LiteralToken {
    pub position: Position,
    pub literal: Literal,
}

/// The mathematical value of a positioned literal.
pub struct LiteralTokenV {
    pub position: Position,
    pub literal: LiteralV,
}

impl View for LiteralToken {
    type V = LiteralTokenV;

    open spec fn view(&self) -> LiteralTokenV {
        LiteralTokenV { position: self.position, literal: self.literal@ }
    }
}

impl Clone for LiteralToken {
    fn clone(&self) -> (r: LiteralToken)
        ensures
            r@ == self@,
    {
        LiteralToken { position: self.position, literal: self.literal.clone() }
    }
}

/// A classified lexical unit. Every variant but `Invalid` carries its
/// source position; an `Invalid` token carries the diagnostic it raised.
#[derive(Debug)]
pub enum Token {
    Symbol(SymbolToken),
    Keyword(KeywordToken),
    Literal(LiteralToken),
    EndOfFile { position: Position },
    Invalid { error: InterpreterError },
}

/// The mathematical value of a token.
pub enum TokenV {
    Symbol(SymbolToken),
    Keyword(KeywordToken),
    Literal(LiteralTokenV),
    EndOfFile { position: Position },
    Invalid { error: ErrorV },
}

impl View for Token {
    type V = TokenV;

    open spec fn view(&self) -> TokenV {
        match self {
            Token::Symbol(t) => TokenV::Symbol(*t),
            Token::Keyword(t) => TokenV::Keyword(*t),
            Token::Literal(t) => TokenV::Literal(t@),
            Token::EndOfFile { position } => TokenV::EndOfFile { position: *position },
            Token::Invalid { error } => TokenV::Invalid { error: error@ },
        }
    }
}

impl Clone for Token {
    fn clone(&self) -> (r: Token)
        ensures
            r@ == self@,
    {
        match self {
            Token::Symbol(t) => Token::Symbol(*t),
            Token::Keyword(t) => Token::Keyword(*t),
            Token::Literal(t) => Token::Literal(t.clone()),
            Token::EndOfFile { position } => Token::EndOfFile { position: *position },
            Token::Invalid { error } => Token::Invalid { error: error.clone() },
        }
    }
}

/// The line of a token; an `Invalid` token reports line 0.
pub open spec fn spec_token_line(t: TokenV) -> u32 {
    match t {
        TokenV::Symbol(t) => t.position.line,
        TokenV::Keyword(t) => t.position.line,
        TokenV::Literal(t) => t.position.line,
        TokenV::EndOfFile { position } => position.line,
        TokenV::Invalid { .. } => 0,
    }
}

/// The column of a token; an `Invalid` token reports column 0.
pub open spec fn spec_token_column(t: TokenV) -> u32 {
    match t {
        TokenV::Symbol(t) => t.position.column,
        TokenV::Keyword(t) => t.position.column,
        TokenV::Literal(t) => t.position.column,
        TokenV::EndOfFile { position } => position.column,
        TokenV::Invalid { .. } => 0,
    }
}

/// The source text of a token; the end-of-file sentinel and invalid tokens
/// render as the placeholders `[EOF]` and `[INV]`.
pub open spec fn spec_token_lexeme(t: TokenV) -> Seq<char> {
    match t {
        TokenV::Symbol(t) => spec_symbol_lexeme(t.symbol),
        TokenV::Keyword(t) => spec_keyword_lexeme(t.keyword),
        TokenV::Literal(t) => spec_literal_lexeme(t.literal),
        TokenV::EndOfFile { .. } => "[EOF]"@,
        TokenV::Invalid { .. } => "[INV]"@,
    }
}

/// The reserved word of a run of identifier characters, as a keyword token,
/// when the run matches the keyword table.
pub open spec fn spec_reserved_word(v: Seq<char>, line: u32, column: u32) -> Option<TokenV> {
    let position = Position { line, column };
    if v == "if"@ {
        Some(TokenV::Keyword(KeywordToken { position, keyword: Keyword::If }))
    } else if v == "else"@ {
        Some(TokenV::Keyword(KeywordToken { position, keyword: Keyword::Else }))
    } else if v == "for"@ {
        Some(TokenV::Keyword(KeywordToken { position, keyword: Keyword::For }))
    } else if v == "while"@ {
        Some(TokenV::Keyword(KeywordToken { position, keyword: Keyword::While }))
    } else if v == "loop"@ {
        Some(TokenV::Keyword(KeywordToken { position, keyword: Keyword::Loop }))
    } else if v == "return"@ {
        Some(TokenV::Keyword(KeywordToken { position, keyword: Keyword::Return }))
    } else if v == "self"@ {
        Some(TokenV::Keyword(KeywordToken { position, keyword: Keyword::_Self }))
    } else if v == "super"@ {
        Some(TokenV::Keyword(KeywordToken { position, keyword: Keyword::Super }))
    } else if v == "import"@ {
        Some(TokenV::Keyword(KeywordToken { position, keyword: Keyword::Import }))
    } else if v == "export"@ {
        Some(TokenV::Keyword(KeywordToken { position, keyword: Keyword::Export }))
    } else if v == "pub"@ {
        Some(TokenV::Keyword(KeywordToken { position, keyword: Keyword::Public }))
    } else if v == "type"@ {
        Some(TokenV::Keyword(KeywordToken { position, keyword: Keyword::Type }))
    } else if v == "impl"@ {
        Some(TokenV::Keyword(KeywordToken { position, keyword: Keyword::Impl }))
    } else if v == "as"@ {
        Some(TokenV::Keyword(KeywordToken { position, keyword: Keyword::As }))
    } else if v == "trait"@ {
        Some(TokenV::Keyword(KeywordToken { position, keyword: Keyword::Trait }))
    } else {
        None
    }
}

/// The view of an optional token.
pub open spec fn spec_opt_token_view(o: Option<Token>) -> Option<TokenV> {
    match o {
        Some(t) => Some(t@),
        None => None,
    }
}

impl Token {
    /// The line of this token.
    pub fn line(&self) -> (r: u32)
        ensures
            r == spec_token_line(self@),
    {
        match self {
            Token::Symbol(t) => t.position.line,
            Token::Keyword(t) => t.position.line,
            Token::Literal(t) => t.position.line,
            Token::EndOfFile { position } => position.line,
            Token::Invalid { .. } => 0,
        }
    }

    /// The column of this token.
    pub fn column(&self) -> (r: u32)
        ensures
            r == spec_token_column(self@),
    {
        match self {
            Token::Symbol(t) => t.position.column,
            Token::Keyword(t) => t.position.column,
            Token::Literal(t) => t.position.column,
            Token::EndOfFile { position } => position.column,
            Token::Invalid { .. } => 0,
        }
    }

    /// The source text of this token.
    pub fn lexeme(&self) -> (r: String)
        ensures
            r@ == spec_token_lexeme(self@),
    {
        match self {
            Token::Symbol(t) => t.symbol.lexeme(),
            Token::Keyword(t) => t.keyword.lexeme(),
            Token::Literal(t) => t.literal.lexeme(),
            Token::EndOfFile { .. } => "[EOF]".to_owned(),
            Token::Invalid { .. } => "[INV]".to_owned(),
        }
    }

    /// Looks an identifier run up in the keyword table.
    pub fn reserved_word(value: &str, line: u32, column: u32) -> (r: Option<Token>)
        ensures
            spec_opt_token_view(r) == spec_reserved_word(value@, line, column),
    {
        let position = Position { line, column };
        if str_eq(value, "if") {
            Some(Token::Keyword(KeywordToken { position, keyword: Keyword::If }))
        } else if str_eq(value, "else") {
            Some(Token::Keyword(KeywordToken { position, keyword: Keyword::Else }))
        } else if str_eq(value, "for") {
            Some(Token::Keyword(KeywordToken { position, keyword: Keyword::For }))
        } else if str_eq(value, "while") {
            Some(Token::Keyword(KeywordToken { position, keyword: Keyword::While }))
        } else if str_eq(value, "loop") {
            Some(Token::Keyword(KeywordToken { position, keyword: Keyword::Loop }))
        } else if str_eq(value, "return") {
            Some(Token::Keyword(KeywordToken { position, keyword: Keyword::Return }))
        } else if str_eq(value, "self") {
            Some(Token::Keyword(KeywordToken { position, keyword: Keyword::_Self }))
        } else if str_eq(value, "super") {
            Some(Token::Keyword(KeywordToken { position, keyword: Keyword::Super }))
        } else if str_eq(value, "import") {
            Some(Token::Keyword(KeywordToken { position, keyword: Keyword::Import }))
        } else if str_eq(value, "export") {
            Some(Token::Keyword(KeywordToken { position, keyword: Keyword::Export }))
        } else if str_eq(value, "pub") {
            Some(Token::Keyword(KeywordToken { position, keyword: Keyword::Public }))
        } else if str_eq(value, "type") {
            Some(Token::Keyword(KeywordToken { position, keyword: Keyword::Type }))
        } else if str_eq(value, "impl") {
            Some(Token::Keyword(KeywordToken { position, keyword: Keyword::Impl }))
        } else if str_eq(value, "as") {
            Some(Token::Keyword(KeywordToken { position, keyword: Keyword::As }))
        } else if str_eq(value, "trait") {
            Some(Token::Keyword(KeywordToken { position, keyword: Keyword::Trait }))
        } else {
            None
        }
    }
}

} // verus!
