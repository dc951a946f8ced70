use vstd::prelude::*;

verus! {

/// The kinds of tokens of Coral's surface syntax.
#[derive(Debug)]
pub enum TokenType {
    Identifier(String),
    Integer(String),
    Float(String),
    StringLiteral(String),
    InterpolatedString(String),
    CharLiteral(char),
    Boolean(bool),
    ErrorCode(String),
    ParameterRef(String),
    Fn, Class, Actor, Persistent, Struct, Enum, Store, Object,
    If, Else, For, In, While, Match, Return,
    Break, Continue, Pass, Extends, Implements, Use,
    This, Super, Where, Select, OrderBy, Aspect,
    Override, Init, Is, As, Import, Underscore,
    With, Across, Into, Unless, Until, Iterate,
    At, ErrKeyword, Log, Make, Empty, Now, By, From, On,
    Then, And, Or,
    Push, Pop,
    Gt, Lt, Equals, Gte, Lte,
    Plus, Minus, Star, Slash, Percent, DoubleStar,
    EqEq, BangEq, LtEq, GtEq,
    AmpAmp, PipePipe, Bang,
    Eq, PlusEq, MinusEq, StarEq, SlashEq, PercentEq, DoubleStarEq,
    AmpEq, PipeEq, CaretEq, LtLtEq, GtGtEq,
    Dot, Comma, Colon, DoubleColon,
    LParen, RParen, LBracket, RBracket,
    Arrow,
    DotDot, DotDotEq,
    Question,
    QuestionDot,
    DoubleQuestion,
    Tilde, Amp, Pipe, Caret, LtLt, GtGt,
    AmpRef,
    Indent,
    Dedent,
    Newline,
    AnnotationMarker,
    LBrace,
    RBrace,
    Eof,
    Illegal(String),
}

/// A token with its position: line and column, and the byte range it spans.
#[derive(Debug)]
pub struct Token {
    pub kind: TokenType,
    pub lexeme: String,
    pub line: usize,
    pub col: usize,
    pub start_byte: usize,
    pub end_byte: usize,
}

/// The kind of a reserved word, or `None` for an ordinary identifier.
pub open spec fn keyword_kind(s: Seq<char>) -> Option<TokenType> {
    if s == "fn"@ {
        Some(TokenType::Fn)
    } else if s == "class"@ {
        Some(TokenType::Class)
    } else if s == "actor"@ {
        Some(TokenType::Actor)
    } else if s == "persistent"@ {
        Some(TokenType::Persistent)
    } else if s == "struct"@ {
        Some(TokenType::Struct)
    } else if s == "enum"@ {
        Some(TokenType::Enum)
    } else if s == "store"@ {
        Some(TokenType::Store)
    } else if s == "object"@ {
        Some(TokenType::Object)
    } else if s == "if"@ {
        Some(TokenType::If)
    } else if s == "else"@ {
        Some(TokenType::Else)
    } else if s == "for"@ {
        Some(TokenType::For)
    } else if s == "in"@ {
        Some(TokenType::In)
    } else if s == "while"@ {
        Some(TokenType::While)
    } else if s == "match"@ {
        Some(TokenType::Match)
    } else if s == "return"@ {
        Some(TokenType::Return)
    } else if s == "break"@ {
        Some(TokenType::Break)
    } else if s == "continue"@ {
        Some(TokenType::Continue)
    } else if s == "pass"@ {
        Some(TokenType::Pass)
    } else if s == "extends"@ {
        Some(TokenType::Extends)
    } else if s == "implements"@ {
        Some(TokenType::Implements)
    } else if s == "use"@ {
        Some(TokenType::Use)
    } else if s == "this"@ {
        Some(TokenType::This)
    } else if s == "super"@ {
        Some(TokenType::Super)
    } else if s == "where"@ {
        Some(TokenType::Where)
    } else if s == "select"@ {
        Some(TokenType::Select)
    } else if s == "orderby"@ {
        Some(TokenType::OrderBy)
    } else if s == "aspect"@ {
        Some(TokenType::Aspect)
    } else if s == "override"@ {
        Some(TokenType::Override)
    } else if s == "init"@ {
        Some(TokenType::Init)
    } else if s == "is"@ {
        Some(TokenType::Is)
    } else if s == "as"@ {
        Some(TokenType::As)
    } else if s == "import"@ {
        Some(TokenType::Import)
    } else if s == "_"@ {
        Some(TokenType::Underscore)
    } else if s == "true"@ {
        Some(TokenType::Boolean(true))
    } else if s == "false"@ {
        Some(TokenType::Boolean(false))
    } else if s == "with"@ {
        Some(TokenType::With)
    } else if s == "across"@ {
        Some(TokenType::Across)
    } else if s == "into"@ {
        Some(TokenType::Into)
    } else if s == "unless"@ {
        Some(TokenType::Unless)
    } else if s == "until"@ {
        Some(TokenType::Until)
    } else if s == "iterate"@ {
        Some(TokenType::Iterate)
    } else if s == "at"@ {
        Some(TokenType::At)
    } else if s == "err"@ {
        Some(TokenType::ErrKeyword)
    } else if s == "log"@ {
        Some(TokenType::Log)
    } else if s == "make"@ {
        Some(TokenType::Make)
    } else if s == "empty"@ {
        Some(TokenType::Empty)
    } else if s == "now"@ {
        Some(TokenType::Now)
    } else if s == "by"@ {
        Some(TokenType::By)
    } else if s == "yes"@ {
        Some(TokenType::Boolean(true))
    } else if s == "no"@ {
        Some(TokenType::Boolean(false))
    } else if s == "gt"@ {
        Some(TokenType::Gt)
    } else if s == "lt"@ {
        Some(TokenType::Lt)
    } else if s == "equals"@ {
        Some(TokenType::Equals)
    } else if s == "then"@ {
        Some(TokenType::Then)
    } else if s == "and"@ {
        Some(TokenType::And)
    } else if s == "or"@ {
        Some(TokenType::Or)
    } else if s == "push"@ {
        Some(TokenType::Push)
    } else if s == "pop"@ {
        Some(TokenType::Pop)
    } else if s == "gte"@ {
        Some(TokenType::Gte)
    } else if s == "lte"@ {
        Some(TokenType::Lte)
    } else {
        None
    }
}

impl Token {
    pub fn new(kind: TokenType, lexeme: String, line: usize, col: usize, start_byte: usize, end_byte: usize) -> (t: Self)
        ensures
            t.kind == kind,
            t.lexeme == lexeme,
            t.line == line,
            t.col == col,
            t.start_byte == start_byte,
            t.end_byte == end_byte,
    {
        Token { kind, lexeme, line, col, start_byte, end_byte }
    }

    /// The end-of-file token at the given position: empty lexeme, empty byte range.
    pub fn eof(line: usize, col: usize, byte_pos: usize) -> (t: Self)
        ensures
            t.kind == TokenType::Eof,
            t.lexeme@ == Seq::<char>::empty(),
            t.line == line,
            t.col == col,
            t.start_byte == byte_pos,
            t.end_byte == byte_pos,
    {
        Token::new(TokenType::Eof, String::new(), line, col, byte_pos, byte_pos)
    }

    /// A keyword token when `ident_str` is a reserved word, an identifier token otherwise.
    pub fn identifier_or_keyword(ident_str: String, line: usize, col: usize, start_byte: usize, end_byte: usize) -> (t: Self)
        ensures
            t.kind == (match keyword_kind(ident_str@) {
                Some(k) => k,
                None => TokenType::Identifier(ident_str),
            }),
            t.lexeme == ident_str,
            t.line == line,
            t.col == col,
            t.start_byte == start_byte,
            t.end_byte == end_byte,
    {
        let kind = if ident_str == String::from_str("fn") {
            TokenType::Fn
        } else if ident_str == String::from_str("class") {
            TokenType::Class
        } else if ident_str == String::from_str("actor") {
            TokenType::Actor
        } else if ident_str == String::from_str("persistent") {
            TokenType::Persistent
        } else if ident_str == String::from_str("struct") {
            TokenType::Struct
        } else if ident_str == String::from_str("enum") {
            TokenType::Enum
        } else if ident_str == String::from_str("store") {
            TokenType::Store
        } else if ident_str == String::from_str("object") {
            TokenType::Object
        } else if ident_str == String::from_str("if") {
            TokenType::If
        } else if ident_str == String::from_str("else") {
            TokenType::Else
        } else if ident_str == String::from_str("for") {
            TokenType::For
        } else if ident_str == String::from_str("in") {
            TokenType::In
        } else if ident_str == String::from_str("while") {
            TokenType::While
        } else if ident_str == String::from_str("match") {
            TokenType::Match
        } else if ident_str == String::from_str("return") {
            TokenType::Return
        } else if ident_str == String::from_str("break") {
            TokenType::Break
        } else if ident_str == String::from_str("continue") {
            TokenType::Continue
        } else if ident_str == String::from_str("pass") {
            TokenType::Pass
        } else if ident_str == String::from_str("extends") {
            TokenType::Extends
        } else if ident_str == String::from_str("implements") {
            TokenType::Implements
        } else if ident_str == String::from_str("use") {
            TokenType::Use
        } else if ident_str == String::from_str("this") {
            TokenType::This
        } else if ident_str == String::from_str("super") {
            TokenType::Super
        } else if ident_str == String::from_str("where") {
            TokenType::Where
        } else if ident_str == String::from_str("select") {
            TokenType::Select
        } else if ident_str == String::from_str("orderby") {
            TokenType::OrderBy
        } else if ident_str == String::from_str("aspect") {
            TokenType::Aspect
        } else if ident_str == String::from_str("override") {
            TokenType::Override
        } else if ident_str == String::from_str("init") {
            TokenType::Init
        } else if ident_str == String::from_str("is") {
            TokenType::Is
        } else if ident_str == String::from_str("as") {
            TokenType::As
        } else if ident_str == String::from_str("import") {
            TokenType::Import
        } else if ident_str == String::from_str("_") {
            TokenType::Underscore
        } else if ident_str == String::from_str("true") {
            TokenType::Boolean(true)
        } else if ident_str == String::from_str("false") {
            TokenType::Boolean(false)
        } else if ident_str == String::from_str("with") {
            TokenType::With
        } else if ident_str == String::from_str("across") {
            TokenType::Across
        } else if ident_str == String::from_str("into") {
            TokenType::Into
        } else if ident_str == String::from_str("unless") {
            TokenType::Unless
        } else if ident_str == String::from_str("until") {
            TokenType::Until
        } else if ident_str == String::from_str("iterate") {
            TokenType::Iterate
        } else if ident_str == String::from_str("at") {
            TokenType::At
        } else if ident_str == String::from_str("err") {
            TokenType::ErrKeyword
        } else if ident_str == String::from_str("log") {
            TokenType::Log
        } else if ident_str == String::from_str("make") {
            TokenType::Make
        } else if ident_str == String::from_str("empty") {
            TokenType::Empty
        } else if ident_str == String::from_str("now") {
            TokenType::Now
        } else if ident_str == String::from_str("by") {
            TokenType::By
        } else if ident_str == String::from_str("yes") {
            TokenType::Boolean(true)
        } else if ident_str == String::from_str("no") {
            TokenType::Boolean(false)
        } else if ident_str == String::from_str("gt") {
            TokenType::Gt
        } else if ident_str == String::from_str("lt") {
            TokenType::Lt
        } else if ident_str == String::from_str("equals") {
            TokenType::Equals
        } else if ident_str == String::from_str("then") {
            TokenType::Then
        } else if ident_str == String::from_str("and") {
            TokenType::And
        } else if ident_str == String::from_str("or") {
            TokenType::Or
        } else if ident_str == String::from_str("push") {
            TokenType::Push
        } else if ident_str == String::from_str("pop") {
            TokenType::Pop
        } else if ident_str == String::from_str("gte") {
            TokenType::Gte
        } else if ident_str == String::from_str("lte") {
            TokenType::Lte
        } else {
            TokenType::Identifier(ident_str.clone())
        };
        Token::new(kind, ident_str, line, col, start_byte, end_byte)
    }
}

} // verus!
