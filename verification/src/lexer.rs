use vstd::prelude::*;
use crate::text::{push_char, push_repeated, repeat_char};

verus! {

/// The kinds of tokens the lexer produces.
#[derive(Debug, Clone, Copy, PartialEq, Eq, Structural)]
pub enum TokenType {
    Integer,
    Float,
    String,
    InterpolatedString,
    True,
    False,
    Identifier,
    Let, Fn, Is, Object, Store, Actor, Use, Mod, If, Then, Else, While,
    For, In, Until, Unless, Iterate, Across, Return, Break, Continue,
    Import, From, To, Nocopy, ErrKeyword, No, Yes, Empty, Now, As, With, Into, Make,
    Plus, Minus, Star, Slash, Percent, Equal, EqualEqual, BangEqual,
    Less, LessEqual, Greater, GreaterEqual, And, Or, Equals, Gt, Gte,
    Lt, Lte, LogicalAnd, LogicalOr, Bang, Question, Dot, Comma, Colon,
    Semicolon, Arrow, At, Ampersand, Dollar, Pipe, Caret, Tilde,
    LeftShift, RightShift,
    LeftParen, RightParen, LeftBrace, RightBrace, LeftBracket, RightBracket,
    Newline,
    Indent,
    Dedent,
    Error,
    Eof,
}

/// A token: its kind, its text and where it starts.
#[derive(Debug)]
pub struct Token {
    pub token_type: TokenType,
    pub lexeme: String,
    pub line: usize,
    pub column: usize,
}

/// The mathematical model of a token.
pub struct TokenView {
    pub token_type: TokenType,
    pub lexeme: Seq<char>,
    pub line: nat,
    pub column: nat,
}

impl View for Token {
    type V = TokenView;

    open spec fn view(&self) -> TokenView {
        TokenView {
            token_type: self.token_type,
            lexeme: self.lexeme@,
            line: self.line as nat,
            column: self.column as nat,
        }
    }
}

pub open spec fn tok(token_type: TokenType, line: nat, column: nat, lexeme: Seq<char>) -> TokenView {
    TokenView { token_type, lexeme, line, column }
}

pub open spec fn tokens_view(ts: Seq<Token>) -> Seq<TokenView> {
    ts.map_values(|t: Token| t@)
}

pub proof fn lemma_tokens_view_push(ts: Seq<Token>, t: Token)
    ensures
        tokens_view(ts.push(t)) == tokens_view(ts).push(t@),
{
    assert(tokens_view(ts.push(t)) =~= tokens_view(ts).push(t@));
}

impl Token {
    pub fn new(token_type: TokenType, line: usize, column: usize, lexeme: String) -> (t: Self)
        ensures
            t@ == tok(token_type, line as nat, column as nat, lexeme@),
    {
        Token { token_type, lexeme, line, column }
    }
}

// ---------------------------------------------------------------------------
// Character classes

/// `char::is_alphabetic`, as the Unicode tables define it.
pub uninterp spec fn char_alphabetic(c: char) -> bool;

/// `char::is_alphanumeric`, as the Unicode tables define it.
pub uninterp spec fn char_alphanumeric(c: char) -> bool;

/// Whether `c` is alphabetic (`char::is_alphabetic`).
#[verifier::external_body]
fn is_alphabetic(c: char) -> (r: bool)
    ensures
        r == char_alphabetic(c),
{
    c.is_alphabetic()
}

/// Whether `c` is alphanumeric (`char::is_alphanumeric`); std documents it as alphabetic or
/// numeric, so every alphabetic character is alphanumeric.
#[verifier::external_body]
pub(crate) fn is_alphanumeric(c: char) -> (r: bool)
    ensures
        r == char_alphanumeric(c),
        char_alphabetic(c) ==> r,
{
    c.is_alphanumeric()
}

pub open spec fn is_digit_char(c: char) -> bool {
    '0' <= c && c <= '9'
}

/// Whether `c` is an ASCII decimal digit.
pub fn is_ascii_digit(c: char) -> (r: bool)
    ensures
        r == is_digit_char(c),
{
    '0' <= c && c <= '9'
}

pub open spec fn is_ident_char(c: char) -> bool {
    char_alphanumeric(c) || c == '_'
}

/// The characters of a string (`str::chars`, collected).
#[verifier::external_body]
pub(crate) fn collect_chars(s: &str) -> (v: Vec<char>)
    ensures
        v@ == s@,
{
    s.chars().collect()
}

// ---------------------------------------------------------------------------
// The lexer as a function on the input characters

/// The reserved words and the kinds they lex to.
pub open spec fn keyword_type(s: Seq<char>) -> Option<TokenType> {
    if s == "let"@ {
        Some(TokenType::Let)
    } else if s == "fn"@ || s == "def"@ {
        Some(TokenType::Fn)
    } else if s == "is"@ {
        Some(TokenType::Is)
    } else if s == "object"@ {
        Some(TokenType::Object)
    } else if s == "store"@ {
        Some(TokenType::Store)
    } else if s == "actor"@ {
        Some(TokenType::Actor)
    } else if s == "if"@ {
        Some(TokenType::If)
    } else if s == "else"@ {
        Some(TokenType::Else)
    } else if s == "while"@ {
        Some(TokenType::While)
    } else if s == "return"@ {
        Some(TokenType::Return)
    } else if s == "true"@ {
        Some(TokenType::True)
    } else if s == "false"@ {
        Some(TokenType::False)
    } else if s == "and"@ {
        Some(TokenType::And)
    } else if s == "or"@ {
        Some(TokenType::Or)
    } else if s == "iterate"@ {
        Some(TokenType::Iterate)
    } else if s == "as"@ {
        Some(TokenType::As)
    } else if s == "for"@ {
        Some(TokenType::For)
    } else if s == "with"@ {
        Some(TokenType::With)
    } else if s == "into"@ {
        Some(TokenType::Into)
    } else if s == "make"@ {
        Some(TokenType::Make)
    } else if s == "equals"@ {
        Some(TokenType::Equals)
    } else if s == "gt"@ {
        Some(TokenType::Gt)
    } else if s == "gte"@ {
        Some(TokenType::Gte)
    } else if s == "lt"@ {
        Some(TokenType::Lt)
    } else if s == "lte"@ {
        Some(TokenType::Lte)
    } else if s == "unless"@ {
        Some(TokenType::Unless)
    } else if s == "until"@ {
        Some(TokenType::Until)
    } else if s == "across"@ {
        Some(TokenType::Across)
    } else {
        None
    }
}

/// The state of a scan over the input.
pub struct LexState {
    pub pos: nat,
    pub line: nat,
    pub column: nat,
    pub indent_stack: Seq<nat>,
    pub at_line_start: bool,
    pub brace_level: nat,
}

pub open spec fn char_at(chars: Seq<char>, pos: nat) -> Option<char> {
    if pos < chars.len() {
        Some(chars[pos as int])
    } else {
        None
    }
}

/// The state after moving past the current character: a newline starts a new line at
/// column 1, any other character moves one column on.
pub open spec fn advanced(chars: Seq<char>, st: LexState) -> LexState {
    if char_at(chars, st.pos) == Some('\n') {
        LexState { pos: st.pos + 1, line: st.line + 1, column: 1, ..st }
    } else {
        LexState { pos: st.pos + 1, column: st.column + 1, ..st }
    }
}

/// Skips the rest of a comment, up to the end of its line (the newline stays).
pub open spec fn skip_comment(chars: Seq<char>, st: LexState) -> LexState
    decreases chars.len() - st.pos,
{
    match char_at(chars, st.pos) {
        Some(c) => if c == '\n' {
            st
        } else {
            skip_comment(chars, advanced(chars, st))
        },
        None => st,
    }
}

/// Skips spaces, tabs and carriage returns, and a `#` comment up to the end of its line.
pub open spec fn skip_blank(chars: Seq<char>, st: LexState) -> LexState
    decreases chars.len() - st.pos,
{
    match char_at(chars, st.pos) {
        Some(c) => if c == ' ' || c == '\t' || c == '\r' {
            skip_blank(chars, advanced(chars, st))
        } else if c == '#' {
            skip_comment(chars, advanced(chars, st))
        } else {
            st
        },
        None => st,
    }
}

/// Reads the leading indentation of a line: a space counts 1, a tab 4.
pub open spec fn scan_indent(chars: Seq<char>, st: LexState, level: nat) -> (LexState, nat)
    decreases chars.len() - st.pos,
{
    match char_at(chars, st.pos) {
        Some(c) => if c == ' ' {
            scan_indent(chars, advanced(chars, st), level + 1)
        } else if c == '\t' {
            scan_indent(chars, advanced(chars, st), level + 4)
        } else {
            (st, level)
        },
        None => (st, level),
    }
}

/// Pops every indentation level above `level`; the new stack and how many were popped.
pub open spec fn pop_levels(stack: Seq<nat>, level: nat) -> (Seq<nat>, nat)
    decreases stack.len(),
{
    if stack.len() > 0 && level < stack.last() {
        let (s, n) = pop_levels(stack.drop_last(), level);
        (s, n + 1)
    } else {
        (stack, 0)
    }
}

pub open spec fn copies(t: TokenView, n: nat) -> Seq<TokenView> {
    Seq::new(n, |i: int| t)
}

pub open spec fn dedent_tok(line: nat) -> TokenView {
    tok(TokenType::Dedent, line, 1, Seq::empty())
}

/// The layout tokens at the start of a line, and the state after its indentation.
pub open spec fn indentation(chars: Seq<char>, st: LexState) -> (Seq<TokenView>, LexState) {
    if st.brace_level > 0 {
        (Seq::empty(), LexState { at_line_start: false, ..st })
    } else {
        let (st1, level) = scan_indent(chars, st, 0);
        let current = st.indent_stack.last();
        if level > current {
            (
                copies(tok(TokenType::Indent, st1.line, 1, repeat_char(' ', level)), 1),
                LexState { indent_stack: st.indent_stack.push(level), at_line_start: false, ..st1 },
            )
        } else if level < current {
            let (stack, n) = pop_levels(st.indent_stack, level);
            (copies(dedent_tok(st1.line), n), LexState { indent_stack: stack, at_line_start: false, ..st1 })
        } else {
            (Seq::empty(), LexState { at_line_start: false, ..st1 })
        }
    }
}

/// The body of a quoted string up to the closing quote (or the end of input), and the
/// state past the closing quote.
pub open spec fn string_body(chars: Seq<char>, st: LexState, quote: char) -> (Seq<char>, LexState)
    decreases chars.len() - st.pos,
{
    match char_at(chars, st.pos) {
        Some(c) => if c == quote {
            (Seq::empty(), advanced(chars, st))
        } else {
            let (rest, s) = string_body(chars, advanced(chars, st), quote);
            (seq![c] + rest, s)
        },
        None => (Seq::empty(), st),
    }
}

/// The digits of a number, with at most one `.` that a digit follows.
pub open spec fn number_body(chars: Seq<char>, st: LexState, is_float: bool) -> (Seq<char>, bool, LexState)
    decreases chars.len() - st.pos,
{
    match char_at(chars, st.pos) {
        Some(c) => if is_digit_char(c) {
            let (rest, f, s) = number_body(chars, advanced(chars, st), is_float);
            (seq![c] + rest, f, s)
        } else if c == '.' && !is_float && (match char_at(chars, st.pos + 1) {
            Some(d) => is_digit_char(d),
            None => false,
        }) {
            let (rest, f, s) = number_body(chars, advanced(chars, st), true);
            (seq![c] + rest, f, s)
        } else {
            (Seq::empty(), is_float, st)
        },
        None => (Seq::empty(), is_float, st),
    }
}

/// The characters of an identifier.
pub open spec fn ident_body(chars: Seq<char>, st: LexState) -> (Seq<char>, LexState)
    decreases chars.len() - st.pos,
{
    match char_at(chars, st.pos) {
        Some(c) => if is_ident_char(c) {
            let (rest, s) = ident_body(chars, advanced(chars, st));
            (seq![c] + rest, s)
        } else {
            (Seq::empty(), st)
        },
        None => (Seq::empty(), st),
    }
}

/// A token of one character.
pub open spec fn single(chars: Seq<char>, st: LexState, t: TokenType, c: char) -> (TokenView, LexState) {
    (tok(t, st.line, st.column, seq![c]), advanced(chars, st))
}

/// A token of one character, or of two when the next character is `second`.
pub open spec fn one_or_two(
    chars: Seq<char>,
    st: LexState,
    first: char,
    second: char,
    short: TokenType,
    long: TokenType,
) -> (TokenView, LexState) {
    let s1 = advanced(chars, st);
    if char_at(chars, s1.pos) == Some(second) {
        (tok(long, st.line, st.column, seq![first, second]), advanced(chars, s1))
    } else {
        (tok(short, st.line, st.column, seq![first]), s1)
    }
}

/// The token that starts at the current character, and the state after it.
pub open spec fn lex_token(chars: Seq<char>, st: LexState) -> (TokenView, LexState)
    recommends
        st.pos < chars.len(),
{
    let ch = chars[st.pos as int];
    if ch == '\n' {
        let (t, s) = single(chars, st, TokenType::Newline, ch);
        (t, LexState { at_line_start: true, ..s })
    } else if ch == '{' {
        let (t, s) = single(chars, st, TokenType::LeftBrace, ch);
        (t, LexState { brace_level: s.brace_level + 1, ..s })
    } else if ch == '}' {
        let (t, s) = single(chars, st, TokenType::RightBrace, ch);
        (t, LexState { brace_level: if s.brace_level > 0 { (s.brace_level - 1) as nat } else { 0 }, ..s })
    } else if ch == '(' {
        single(chars, st, TokenType::LeftParen, ch)
    } else if ch == ')' {
        single(chars, st, TokenType::RightParen, ch)
    } else if ch == '[' {
        single(chars, st, TokenType::LeftBracket, ch)
    } else if ch == ']' {
        single(chars, st, TokenType::RightBracket, ch)
    } else if ch == ',' {
        single(chars, st, TokenType::Comma, ch)
    } else if ch == '.' {
        single(chars, st, TokenType::Dot, ch)
    } else if ch == ':' {
        single(chars, st, TokenType::Colon, ch)
    } else if ch == ';' {
        single(chars, st, TokenType::Semicolon, ch)
    } else if ch == '+' {
        single(chars, st, TokenType::Plus, ch)
    } else if ch == '-' {
        one_or_two(chars, st, '-', '>', TokenType::Minus, TokenType::Arrow)
    } else if ch == '*' {
        single(chars, st, TokenType::Star, ch)
    } else if ch == '/' {
        single(chars, st, TokenType::Slash, ch)
    } else if ch == '=' {
        one_or_two(chars, st, '=', '=', TokenType::Equal, TokenType::EqualEqual)
    } else if ch == '!' {
        one_or_two(chars, st, '!', '=', TokenType::Bang, TokenType::BangEqual)
    } else if ch == '<' {
        one_or_two(chars, st, '<', '=', TokenType::Less, TokenType::LessEqual)
    } else if ch == '>' {
        one_or_two(chars, st, '>', '=', TokenType::Greater, TokenType::GreaterEqual)
    } else if ch == '?' {
        single(chars, st, TokenType::Question, ch)
    } else if ch == '$' {
        single(chars, st, TokenType::Dollar, ch)
    } else if ch == '"' || ch == '\'' {
        let (content, s) = string_body(chars, advanced(chars, st), ch);
        let t = if ch == '\'' { TokenType::InterpolatedString } else { TokenType::String };
        (tok(t, st.line, st.column, content), s)
    } else if is_digit_char(ch) {
        let (digits, is_float, s) = number_body(chars, st, false);
        let t = if is_float { TokenType::Float } else { TokenType::Integer };
        (tok(t, st.line, st.column, digits), s)
    } else if char_alphabetic(ch) || ch == '_' {
        let (word, s) = ident_body(chars, st);
        let t = match keyword_type(word) {
            Some(k) => k,
            None => TokenType::Identifier,
        };
        (tok(t, st.line, st.column, word), s)
    } else {
        single(chars, st, TokenType::Error, ch)
    }
}

/// The closing tokens: one dedent for each open indentation level, then end of file.
pub open spec fn closing(st: LexState) -> Seq<TokenView> {
    copies(dedent_tok(st.line), (st.indent_stack.len() - 1) as nat).push(
        tok(TokenType::Eof, st.line, 1, Seq::empty()),
    )
}

/// The tokens of the rest of the input from state `st`.
pub open spec fn lex_from(chars: Seq<char>, st: LexState) -> Seq<TokenView>
    decreases chars.len() - st.pos,
{
    if st.pos >= chars.len() {
        closing(st)
    } else {
        let (layout, s1) = if st.at_line_start {
            indentation(chars, st)
        } else {
            (Seq::empty(), st)
        };
        let s2 = skip_blank(chars, s1);
        if s2.pos >= chars.len() {
            layout + closing(s2)
        } else {
            let (t, s3) = lex_token(chars, s2);
            // Every token consumes input (an identifier at least its first character, which
            // is alphanumeric since it is alphabetic); the second branch only makes the
            // definition total.
            if st.pos < s3.pos && s3.pos <= chars.len() {
                layout + seq![t] + lex_from(chars, s3)
            } else {
                layout + seq![t] + closing(s3)
            }
        }
    }
}

/// The state at the start of the input.
pub open spec fn initial_state() -> LexState {
    LexState { pos: 0, line: 1, column: 1, indent_stack: seq![0nat], at_line_start: true, brace_level: 0 }
}

/// The tokens of a whole input.
pub open spec fn lex(chars: Seq<char>) -> Seq<TokenView> {
    lex_from(chars, initial_state())
}

// ---------------------------------------------------------------------------
// Positions only move forward

pub proof fn lemma_skip_comment_pos(chars: Seq<char>, st: LexState)
    ensures
        skip_comment(chars, st).pos >= st.pos,
        st.pos <= chars.len() ==> skip_comment(chars, st).pos <= chars.len(),
        skip_comment(chars, st).indent_stack == st.indent_stack,
    decreases chars.len() - st.pos,
{
    if let Some(c) = char_at(chars, st.pos) {
        if c != '\n' {
            lemma_skip_comment_pos(chars, advanced(chars, st));
        }
    }
}

pub proof fn lemma_skip_blank_pos(chars: Seq<char>, st: LexState)
    ensures
        skip_blank(chars, st).pos >= st.pos,
        st.pos <= chars.len() ==> skip_blank(chars, st).pos <= chars.len(),
    decreases chars.len() - st.pos,
{
    if let Some(c) = char_at(chars, st.pos) {
        if c == ' ' || c == '\t' || c == '\r' {
            lemma_skip_blank_pos(chars, advanced(chars, st));
        } else if c == '#' {
            lemma_skip_comment_pos(chars, advanced(chars, st));
        }
    }
}

pub proof fn lemma_scan_indent_pos(chars: Seq<char>, st: LexState, level: nat)
    ensures
        scan_indent(chars, st, level).0.pos >= st.pos,
        st.pos <= chars.len() ==> scan_indent(chars, st, level).0.pos <= chars.len(),
    decreases chars.len() - st.pos,
{
    if let Some(c) = char_at(chars, st.pos) {
        if c == ' ' {
            lemma_scan_indent_pos(chars, advanced(chars, st), level + 1);
        } else if c == '\t' {
            lemma_scan_indent_pos(chars, advanced(chars, st), level + 4);
        }
    }
}

pub proof fn lemma_indentation_pos(chars: Seq<char>, st: LexState)
    ensures
        indentation(chars, st).1.pos >= st.pos,
        st.pos <= chars.len() ==> indentation(chars, st).1.pos <= chars.len(),
{
    lemma_scan_indent_pos(chars, st, 0);
}

pub proof fn lemma_string_body_pos(chars: Seq<char>, st: LexState, quote: char)
    ensures
        string_body(chars, st, quote).1.pos >= st.pos,
        st.pos <= chars.len() ==> string_body(chars, st, quote).1.pos <= chars.len(),
    decreases chars.len() - st.pos,
{
    if let Some(c) = char_at(chars, st.pos) {
        if c != quote {
            lemma_string_body_pos(chars, advanced(chars, st), quote);
        }
    }
}

pub proof fn lemma_number_body_pos(chars: Seq<char>, st: LexState, is_float: bool)
    ensures
        number_body(chars, st, is_float).2.pos >= st.pos,
        st.pos <= chars.len() ==> number_body(chars, st, is_float).2.pos <= chars.len(),
        char_at(chars, st.pos) matches Some(c) && is_digit_char(c) ==> number_body(chars, st, is_float).2.pos > st.pos,
    decreases chars.len() - st.pos,
{
    if let Some(c) = char_at(chars, st.pos) {
        if is_digit_char(c) {
            lemma_number_body_pos(chars, advanced(chars, st), is_float);
        } else if c == '.' && !is_float && (match char_at(chars, st.pos + 1) {
            Some(d) => is_digit_char(d),
            None => false,
        }) {
            lemma_number_body_pos(chars, advanced(chars, st), true);
        }
    }
}

pub proof fn lemma_ident_body_pos(chars: Seq<char>, st: LexState)
    ensures
        ident_body(chars, st).1.pos >= st.pos,
        st.pos <= chars.len() ==> ident_body(chars, st).1.pos <= chars.len(),
        char_at(chars, st.pos) matches Some(c) && is_ident_char(c) ==> ident_body(chars, st).1.pos > st.pos,
    decreases chars.len() - st.pos,
{
    if let Some(c) = char_at(chars, st.pos) {
        if is_ident_char(c) {
            lemma_ident_body_pos(chars, advanced(chars, st));
        }
    }
}

/// Each lexing step consumes at least one character and never reads past the input.
pub proof fn lemma_lex_token_pos(chars: Seq<char>, st: LexState)
    requires
        st.pos < chars.len(),
        char_alphabetic(chars[st.pos as int]) ==> char_alphanumeric(chars[st.pos as int]),
    ensures
        lex_token(chars, st).1.pos > st.pos,
        lex_token(chars, st).1.pos <= chars.len(),
{
    let ch = chars[st.pos as int];
    lemma_string_body_pos(chars, advanced(chars, st), ch);
    lemma_number_body_pos(chars, st, false);
    lemma_ident_body_pos(chars, st);
}


// ---------------------------------------------------------------------------
// The lexer

/// The indentation-aware lexer of Coral.
pub struct Lexer {
    input: Vec<char>,
    position: usize,
    current_char: Option<char>,
    line: usize,
    column: usize,
    indent_stack: Vec<usize>,
    token_buffer: Vec<Token>,
    at_line_start: bool,
    brace_level: usize,
}

pub open spec fn levels_view(stack: Seq<usize>) -> Seq<nat> {
    stack.map_values(|x: usize| x as nat)
}

/// The keyword kind of a word, or `None`.
fn lookup_keyword(word: &String) -> (r: Option<TokenType>)
    ensures
        r == keyword_type(word@),
{
    if *word == String::from_str("let") {
        Some(TokenType::Let)
    } else if *word == String::from_str("fn") || *word == String::from_str("def") {
        Some(TokenType::Fn)
    } else if *word == String::from_str("is") {
        Some(TokenType::Is)
    } else if *word == String::from_str("object") {
        Some(TokenType::Object)
    } else if *word == String::from_str("store") {
        Some(TokenType::Store)
    } else if *word == String::from_str("actor") {
        Some(TokenType::Actor)
    } else if *word == String::from_str("if") {
        Some(TokenType::If)
    } else if *word == String::from_str("else") {
        Some(TokenType::Else)
    } else if *word == String::from_str("while") {
        Some(TokenType::While)
    } else if *word == String::from_str("return") {
        Some(TokenType::Return)
    } else if *word == String::from_str("true") {
        Some(TokenType::True)
    } else if *word == String::from_str("false") {
        Some(TokenType::False)
    } else if *word == String::from_str("and") {
        Some(TokenType::And)
    } else if *word == String::from_str("or") {
        Some(TokenType::Or)
    } else if *word == String::from_str("iterate") {
        Some(TokenType::Iterate)
    } else if *word == String::from_str("as") {
        Some(TokenType::As)
    } else if *word == String::from_str("for") {
        Some(TokenType::For)
    } else if *word == String::from_str("with") {
        Some(TokenType::With)
    } else if *word == String::from_str("into") {
        Some(TokenType::Into)
    } else if *word == String::from_str("make") {
        Some(TokenType::Make)
    } else if *word == String::from_str("equals") {
        Some(TokenType::Equals)
    } else if *word == String::from_str("gt") {
        Some(TokenType::Gt)
    } else if *word == String::from_str("gte") {
        Some(TokenType::Gte)
    } else if *word == String::from_str("lt") {
        Some(TokenType::Lt)
    } else if *word == String::from_str("lte") {
        Some(TokenType::Lte)
    } else if *word == String::from_str("unless") {
        Some(TokenType::Unless)
    } else if *word == String::from_str("until") {
        Some(TokenType::Until)
    } else if *word == String::from_str("across") {
        Some(TokenType::Across)
    } else {
        None
    }
}

impl Lexer {
    /// The characters being lexed.
    pub closed spec fn source(&self) -> Seq<char> {
        self.input@
    }

    /// Where the scan stands.
    pub closed spec fn state(&self) -> LexState {
        LexState {
            pos: self.position as nat,
            line: self.line as nat,
            column: self.column as nat,
            indent_stack: levels_view(self.indent_stack@),
            at_line_start: self.at_line_start,
            brace_level: self.brace_level as nat,
        }
    }

    /// The lexer's internal consistency; the input is bounded by what memory can hold.
    pub closed spec fn wf(&self) -> bool {
        &&& self.input@.len() < usize::MAX / 8
        &&& self.position <= self.input@.len()
        &&& self.current_char == char_at(self.input@, self.position as nat)
        &&& 1 <= self.line <= self.position + 1
        &&& 1 <= self.column <= self.position + 1
        &&& self.brace_level <= self.position
        &&& self.indent_stack@.len() >= 1
        &&& self.indent_stack@[0] == 0
        &&& forall|i: int| 0 <= i < self.indent_stack@.len() ==> #[trigger] self.indent_stack@[i] <= 4 * self.position
    }

    /// Whether no layout token waits to be emitted.
    pub closed spec fn idle(&self) -> bool {
        self.token_buffer@.len() == 0
    }

    pub fn new(input: String, _file_name: String) -> (lexer: Self)
        requires
            input@.len() < usize::MAX / 8,
        ensures
            lexer.wf(),
            lexer.idle(),
            lexer.source() == input@,
            lexer.state() == initial_state(),
    {
        let chars = collect_chars(input.as_str());
        let current_char = if chars.len() > 0 { Some(chars[0]) } else { None };
        let mut indent_stack: Vec<usize> = Vec::new();
        indent_stack.push(0);
        let lexer = Lexer {
            input: chars,
            position: 0,
            current_char,
            line: 1,
            column: 1,
            indent_stack,
            token_buffer: Vec::new(),
            at_line_start: true,
            brace_level: 0,
        };
        assert(levels_view(lexer.indent_stack@) =~= seq![0nat]);
        lexer
    }

    fn advance(&mut self)
        requires
            old(self).wf(),
            old(self).position < old(self).input@.len(),
        ensures
            final(self).wf(),
            final(self).input == old(self).input,
            final(self).token_buffer == old(self).token_buffer,
            final(self).indent_stack == old(self).indent_stack,
            final(self).state() == advanced(old(self).input@, old(self).state()),
    {
        if self.current_char == Some('\n') {
            self.line = self.line + 1;
            self.column = 1;
        } else {
            self.column = self.column + 1;
        }
        self.position = self.position + 1;
        self.current_char = if self.position < self.input.len() { Some(self.input[self.position]) } else { None };
    }

    fn peek(&self) -> (c: Option<char>)
        requires
            self.wf(),
        ensures
            c == char_at(self.input@, (self.position + 1) as nat),
    {
        if self.position + 1 < self.input.len() {
            Some(self.input[self.position + 1])
        } else {
            None
        }
    }

    fn skip_whitespace(&mut self)
        requires
            old(self).wf(),
        ensures
            final(self).wf(),
            final(self).input == old(self).input,
            final(self).token_buffer == old(self).token_buffer,
            final(self).state() == skip_blank(old(self).input@, old(self).state()),
    {
        loop
            invariant_except_break
                skip_blank(self.input@, self.state()) == skip_blank(old(self).input@, old(self).state()),
            invariant
                self.wf(),
                self.input == old(self).input,
                self.token_buffer == old(self).token_buffer,
            ensures
                self.wf(),
                self.input == old(self).input,
                self.token_buffer == old(self).token_buffer,
                self.state() == skip_blank(old(self).input@, old(self).state()),
            decreases self.input@.len() - self.position,
        {
            match self.current_char {
                Some(ch) => {
                    if ch == ' ' || ch == '\t' || ch == '\r' {
                        self.advance();
                    } else if ch == '#' {
                        self.advance();
                        self.skip_comment();
                        break;
                    } else {
                        break;
                    }
                },
                None => {
                    break;
                },
            }
        }
    }

    /// Skips the rest of a comment, up to the newline that ends it.
    fn skip_comment(&mut self)
        requires
            old(self).wf(),
        ensures
            final(self).wf(),
            final(self).input == old(self).input,
            final(self).token_buffer == old(self).token_buffer,
            final(self).state() == skip_comment(old(self).input@, old(self).state()),
    {
        loop
            invariant
                self.wf(),
                self.input == old(self).input,
                self.token_buffer == old(self).token_buffer,
                skip_comment(self.input@, self.state()) == skip_comment(old(self).input@, old(self).state()),
            ensures
                self.wf(),
                self.input == old(self).input,
                self.token_buffer == old(self).token_buffer,
                self.state() == skip_comment(old(self).input@, old(self).state()),
            decreases self.input@.len() - self.position,
        {
            match self.current_char {
                Some(ch) => {
                    if ch == '\n' {
                        break;
                    } else {
                        self.advance();
                    }
                },
                None => {
                    break;
                },
            }
        }
    }

    /// Reads a quoted string; the current character is the opening quote.
    fn read_string(&mut self, quote_char: char) -> (value: String)
        requires
            old(self).wf(),
            old(self).current_char == Some(quote_char),
        ensures
            final(self).wf(),
            final(self).input == old(self).input,
            final(self).token_buffer == old(self).token_buffer,
            (value@, final(self).state()) == string_body(
                old(self).input@,
                advanced(old(self).input@, old(self).state()),
                quote_char,
            ),
    {
        let mut value = String::new();
        self.advance();
        let ghost s0 = self.state();
        loop
            invariant_except_break
                string_body(self.input@, s0, quote_char) == (
                    value@ + string_body(self.input@, self.state(), quote_char).0,
                    string_body(self.input@, self.state(), quote_char).1,
                ),
            invariant
                self.wf(),
                self.input == old(self).input,
                self.token_buffer == old(self).token_buffer,
                s0 == advanced(old(self).input@, old(self).state()),
            ensures
                self.wf(),
                self.input == old(self).input,
                self.token_buffer == old(self).token_buffer,
                (value@, self.state()) == string_body(self.input@, s0, quote_char),
            decreases self.input@.len() - self.position,
        {
            match self.current_char {
                Some(ch) => {
                    if ch == quote_char {
                        self.advance();
                        assert(value@ + Seq::<char>::empty() =~= value@);
                        break;
                    }
                    let ghost v0 = value@;
                    push_char(&mut value, ch);
                    self.advance();
                    let ghost rest = string_body(self.input@, self.state(), quote_char).0;
                    assert(v0 + (seq![ch] + rest) =~= value@ + rest);
                },
                None => {
                    assert(value@ + Seq::<char>::empty() =~= value@);
                    break;
                },
            }
        }
        value
    }

    /// Reads a number: digits, with one `.` when a digit follows it.
    fn read_number(&mut self) -> (r: (TokenType, String))
        requires
            old(self).wf(),
        ensures
            final(self).wf(),
            final(self).input == old(self).input,
            final(self).token_buffer == old(self).token_buffer,
            ({
                let (digits, is_float, st) = number_body(old(self).input@, old(self).state(), false);
                &&& r.1@ == digits
                &&& final(self).state() == st
                &&& r.0 == (if is_float { TokenType::Float } else { TokenType::Integer })
            }),
    {
        let mut value = String::new();
        let mut is_float = false;
        let ghost s0 = self.state();
        loop
            invariant_except_break
                number_body(self.input@, s0, false) == (
                    value@ + number_body(self.input@, self.state(), is_float).0,
                    number_body(self.input@, self.state(), is_float).1,
                    number_body(self.input@, self.state(), is_float).2,
                ),
            invariant
                self.wf(),
                self.input == old(self).input,
                self.token_buffer == old(self).token_buffer,
                s0 == old(self).state(),
            ensures
                self.wf(),
                self.input == old(self).input,
                self.token_buffer == old(self).token_buffer,
                (value@, is_float, self.state()) == number_body(self.input@, s0, false),
            decreases self.input@.len() - self.position,
        {
            match self.current_char {
                Some(ch) => {
                    let next_is_digit = match self.peek() {
                        Some(c) => is_ascii_digit(c),
                        None => false,
                    };
                    if is_ascii_digit(ch) {
                        let ghost v0 = value@;
                        push_char(&mut value, ch);
                        self.advance();
                        let ghost rest = number_body(self.input@, self.state(), is_float).0;
                        assert(v0 + (seq![ch] + rest) =~= value@ + rest);
                    } else if ch == '.' && !is_float && next_is_digit {
                        let ghost v0 = value@;
                        is_float = true;
                        push_char(&mut value, ch);
                        self.advance();
                        let ghost rest = number_body(self.input@, self.state(), is_float).0;
                        assert(v0 + (seq![ch] + rest) =~= value@ + rest);
                    } else {
                        assert(value@ + Seq::<char>::empty() =~= value@);
                        break;
                    }
                },
                None => {
                    assert(value@ + Seq::<char>::empty() =~= value@);
                    break;
                },
            }
        }
        if is_float {
            (TokenType::Float, value)
        } else {
            (TokenType::Integer, value)
        }
    }

    /// Reads an identifier: letters, digits and underscores.
    fn read_identifier(&mut self) -> (value: String)
        requires
            old(self).wf(),
        ensures
            final(self).wf(),
            final(self).input == old(self).input,
            final(self).token_buffer == old(self).token_buffer,
            (value@, final(self).state()) == ident_body(old(self).input@, old(self).state()),
            old(self).position < old(self).input@.len() ==> (char_alphabetic(
                old(self).input@[old(self).position as int],
            ) ==> char_alphanumeric(old(self).input@[old(self).position as int])),
    {
        let mut value = String::new();
        let ghost s0 = self.state();
        let ghost p0 = self.position;
        loop
            invariant_except_break
                ident_body(self.input@, s0) == (
                    value@ + ident_body(self.input@, self.state()).0,
                    ident_body(self.input@, self.state()).1,
                ),
            invariant
                self.wf(),
                self.input == old(self).input,
                self.token_buffer == old(self).token_buffer,
                s0 == old(self).state(),
                p0 == old(self).position,
                self.position >= p0,
                self.position > p0 ==> (char_alphabetic(self.input@[p0 as int]) ==> char_alphanumeric(
                    self.input@[p0 as int],
                )),
            ensures
                self.wf(),
                self.input == old(self).input,
                self.token_buffer == old(self).token_buffer,
                (value@, self.state()) == ident_body(self.input@, s0),
                p0 < self.input@.len() ==> (char_alphabetic(self.input@[p0 as int]) ==> char_alphanumeric(
                    self.input@[p0 as int],
                )),
            decreases self.input@.len() - self.position,
        {
            match self.current_char {
                Some(ch) => {
                    if is_alphanumeric(ch) || ch == '_' {
                        let ghost v0 = value@;
                        push_char(&mut value, ch);
                        self.advance();
                        let ghost rest = ident_body(self.input@, self.state()).0;
                        assert(v0 + (seq![ch] + rest) =~= value@ + rest);
                    } else {
                        assert(value@ + Seq::<char>::empty() =~= value@);
                        break;
                    }
                },
                None => {
                    assert(value@ + Seq::<char>::empty() =~= value@);
                    break;
                },
            }
        }
        value
    }

    /// Reads the indentation at the start of a line and queues the layout tokens it implies.
    fn handle_indentation(&mut self)
        requires
            old(self).wf(),
            old(self).idle(),
        ensures
            final(self).wf(),
            final(self).input == old(self).input,
            (tokens_view(final(self).token_buffer@), final(self).state()) == indentation(
                old(self).input@,
                old(self).state(),
            ),
    {
        if self.brace_level > 0 {
            self.at_line_start = false;
            assert(tokens_view(self.token_buffer@) =~= Seq::<TokenView>::empty());
            return;
        }
        let ghost s0 = self.state();
        let ghost p0 = self.position;
        let mut indent_level: usize = 0;
        loop
            invariant
                self.wf(),
                self.input == old(self).input,
                self.token_buffer == old(self).token_buffer,
                self.indent_stack == old(self).indent_stack,
                self.at_line_start == old(self).at_line_start,
                self.brace_level == old(self).brace_level,
                s0 == old(self).state(),
                p0 == old(self).position,
                p0 <= self.position,
                indent_level <= 4 * (self.position - p0),
                scan_indent(self.input@, s0, 0) == scan_indent(self.input@, self.state(), indent_level as nat),
            ensures
                self.wf(),
                self.input == old(self).input,
                self.token_buffer == old(self).token_buffer,
                self.indent_stack == old(self).indent_stack,
                self.at_line_start == old(self).at_line_start,
                self.brace_level == old(self).brace_level,
                indent_level <= 4 * self.position,
                scan_indent(self.input@, s0, 0) == (self.state(), indent_level as nat),
            decreases self.input@.len() - self.position,
        {
            match self.current_char {
                Some(ch) => {
                    if ch == ' ' {
                        indent_level = indent_level + 1;
                        self.advance();
                    } else if ch == '\t' {
                        indent_level = indent_level + 4;
                        self.advance();
                    } else {
                        break;
                    }
                },
                None => {
                    break;
                },
            }
        }
        let ghost s1 = self.state();
        let current_indent = self.indent_stack[self.indent_stack.len() - 1];
        assert(levels_view(self.indent_stack@).last() == current_indent as nat);
        if indent_level > current_indent {
            self.indent_stack.push(indent_level);
            let mut lexeme = String::new();
            push_repeated(&mut lexeme, ' ', indent_level);
            assert(lexeme@ =~= repeat_char(' ', indent_level as nat));
            self.token_buffer.push(Token::new(TokenType::Indent, self.line, 1, lexeme));
            assert(levels_view(self.indent_stack@) =~= levels_view(old(self).indent_stack@).push(indent_level as nat));
            assert(tokens_view(self.token_buffer@) =~= copies(
                tok(TokenType::Indent, s1.line, 1, repeat_char(' ', indent_level as nat)),
                1,
            ));
        } else if indent_level < current_indent {
            let mut popped: usize = 0;
            let ghost stack0 = levels_view(self.indent_stack@);
            assert(stack0.len() == self.indent_stack@.len());
            loop
                invariant_except_break
                    pop_levels(stack0, indent_level as nat) == (
                        pop_levels(levels_view(self.indent_stack@), indent_level as nat).0,
                        (popped + pop_levels(levels_view(self.indent_stack@), indent_level as nat).1) as nat,
                    ),
                invariant
                    self.wf(),
                    self.input == old(self).input,
                    self.line == s1.line,
                    self.position == s1.pos,
                    self.column == s1.column,
                    self.at_line_start == old(self).at_line_start,
                    self.brace_level == old(self).brace_level,
                    indent_level <= 4 * self.position,
                    stack0 == s1.indent_stack,
                    popped + self.indent_stack@.len() == stack0.len(),
                    stack0.len() <= usize::MAX,
                    tokens_view(self.token_buffer@) == copies(dedent_tok(s1.line), popped as nat),
                ensures
                    self.wf(),
                    self.input == old(self).input,
                    self.line == s1.line,
                    self.position == s1.pos,
                    self.column == s1.column,
                    self.at_line_start == old(self).at_line_start,
                    self.brace_level == old(self).brace_level,
                    pop_levels(stack0, indent_level as nat) == (levels_view(self.indent_stack@), popped as nat),
                    tokens_view(self.token_buffer@) == copies(dedent_tok(s1.line), popped as nat),
                decreases self.indent_stack@.len(),
            {
                let top = self.indent_stack[self.indent_stack.len() - 1];
                let ghost cur = levels_view(self.indent_stack@);
                assert(cur.last() == top as nat);
                if indent_level < top {
                    assert(self.indent_stack@.len() > 1);
                    self.indent_stack.pop();
                    assert(levels_view(self.indent_stack@) =~= cur.drop_last());
                    let t = Token::new(TokenType::Dedent, self.line, 1, String::new());
                    proof {
                        lemma_tokens_view_push(self.token_buffer@, t);
                    }
                    self.token_buffer.push(t);
                    popped = popped + 1;
                    assert(tokens_view(self.token_buffer@) =~= copies(dedent_tok(s1.line), popped as nat));
                } else {
                    break;
                }
            }
        }
        self.at_line_start = false;
    }

    /// The token of the single current character `ch`.
    fn single_token(&mut self, token_type: TokenType, ch: char) -> (t: Token)
        requires
            old(self).wf(),
            old(self).current_char == Some(ch),
        ensures
            final(self).wf(),
            final(self).input == old(self).input,
            final(self).token_buffer == old(self).token_buffer,
            (t@, final(self).state()) == single(old(self).input@, old(self).state(), token_type, ch),
    {
        let start_line = self.line;
        let start_col = self.column;
        self.advance();
        let mut lexeme = String::new();
        push_char(&mut lexeme, ch);
        assert(lexeme@ =~= seq![ch]);
        Token::new(token_type, start_line, start_col, lexeme)
    }

    /// The token of the current character `first`, or of it and the next when that one is
    /// `second`.
    fn one_or_two_token(&mut self, first: char, second: char, short: TokenType, long: TokenType) -> (t: Token)
        requires
            old(self).wf(),
            old(self).current_char == Some(first),
        ensures
            final(self).wf(),
            final(self).input == old(self).input,
            final(self).token_buffer == old(self).token_buffer,
            (t@, final(self).state()) == one_or_two(old(self).input@, old(self).state(), first, second, short, long),
    {
        let start_line = self.line;
        let start_col = self.column;
        self.advance();
        let mut lexeme = String::new();
        push_char(&mut lexeme, first);
        if self.current_char == Some(second) {
            self.advance();
            push_char(&mut lexeme, second);
            assert(lexeme@ =~= seq![first, second]);
            Token::new(long, start_line, start_col, lexeme)
        } else {
            assert(lexeme@ =~= seq![first]);
            Token::new(short, start_line, start_col, lexeme)
        }
    }

    /// The token that starts at the current character `ch`.
    fn lex_token_at(&mut self, ch: char) -> (t: Token)
        requires
            old(self).wf(),
            old(self).current_char == Some(ch),
        ensures
            final(self).wf(),
            final(self).input == old(self).input,
            final(self).token_buffer == old(self).token_buffer,
            (t@, final(self).state()) == lex_token(old(self).input@, old(self).state()),
            final(self).position > old(self).position,
    {
        let ghost st = self.state();
        let ghost chars = self.input@;
        let t = if ch == '\n' {
            let t = self.single_token(TokenType::Newline, ch);
            self.at_line_start = true;
            t
        } else if ch == '{' {
            let t = self.single_token(TokenType::LeftBrace, ch);
            self.brace_level = self.brace_level + 1;
            t
        } else if ch == '}' {
            let t = self.single_token(TokenType::RightBrace, ch);
            if self.brace_level > 0 {
                self.brace_level = self.brace_level - 1;
            }
            t
        } else if ch == '(' {
            self.single_token(TokenType::LeftParen, ch)
        } else if ch == ')' {
            self.single_token(TokenType::RightParen, ch)
        } else if ch == '[' {
            self.single_token(TokenType::LeftBracket, ch)
        } else if ch == ']' {
            self.single_token(TokenType::RightBracket, ch)
        } else if ch == ',' {
            self.single_token(TokenType::Comma, ch)
        } else if ch == '.' {
            self.single_token(TokenType::Dot, ch)
        } else if ch == ':' {
            self.single_token(TokenType::Colon, ch)
        } else if ch == ';' {
            self.single_token(TokenType::Semicolon, ch)
        } else if ch == '+' {
            self.single_token(TokenType::Plus, ch)
        } else if ch == '-' {
            self.one_or_two_token('-', '>', TokenType::Minus, TokenType::Arrow)
        } else if ch == '*' {
            self.single_token(TokenType::Star, ch)
        } else if ch == '/' {
            self.single_token(TokenType::Slash, ch)
        } else if ch == '=' {
            self.one_or_two_token('=', '=', TokenType::Equal, TokenType::EqualEqual)
        } else if ch == '!' {
            self.one_or_two_token('!', '=', TokenType::Bang, TokenType::BangEqual)
        } else if ch == '<' {
            self.one_or_two_token('<', '=', TokenType::Less, TokenType::LessEqual)
        } else if ch == '>' {
            self.one_or_two_token('>', '=', TokenType::Greater, TokenType::GreaterEqual)
        } else if ch == '?' {
            self.single_token(TokenType::Question, ch)
        } else if ch == '$' {
            self.single_token(TokenType::Dollar, ch)
        } else if ch == '"' || ch == '\'' {
            let start_line = self.line;
            let start_col = self.column;
            let content = self.read_string(ch);
            let tt = if ch == '\'' { TokenType::InterpolatedString } else { TokenType::String };
            proof {
                lemma_string_body_pos(chars, advanced(chars, st), ch);
            }
            Token::new(tt, start_line, start_col, content)
        } else if is_ascii_digit(ch) {
            let start_line = self.line;
            let start_col = self.column;
            let (tt, lexeme) = self.read_number();
            proof {
                lemma_number_body_pos(chars, st, false);
            }
            Token::new(tt, start_line, start_col, lexeme)
        } else if is_alphabetic(ch) || ch == '_' {
            let start_line = self.line;
            let start_col = self.column;
            let lexeme = self.read_identifier();
            let tt = match lookup_keyword(&lexeme) {
                Some(k) => k,
                None => TokenType::Identifier,
            };
            proof {
                lemma_ident_body_pos(chars, st);
            }
            Token::new(tt, start_line, start_col, lexeme)
        } else {
            self.single_token(TokenType::Error, ch)
        };
        t
    }

    /// Splits the whole input into tokens: layout tokens for indentation, then the
    /// closing dedents and end of file.
    pub fn tokenize(&mut self) -> (r: Result<Vec<Token>, String>)
        requires
            old(self).wf(),
            old(self).idle(),
        ensures
            final(self).wf(),
            final(self).idle(),
            final(self).source() == old(self).source(),
            r is Ok,
            r matches Ok(tokens) && tokens_view(tokens@) == lex_from(old(self).source(), old(self).state()),
    {
        let mut tokens: Vec<Token> = Vec::new();
        let ghost chars = self.input@;
        let ghost s0 = self.state();
        while self.current_char.is_some()
            invariant
                self.wf(),
                self.idle(),
                self.input@ == chars,
                chars == old(self).input@,
                s0 == old(self).state(),
                tokens_view(tokens@) + lex_from(chars, self.state()) == lex_from(chars, s0),
            decreases self.input@.len() - self.position,
        {
            let ghost st = self.state();
            if self.at_line_start {
                self.handle_indentation();
            } else {
                assert(tokens_view(self.token_buffer@) =~= Seq::<TokenView>::empty());
            }
            let ghost s1 = self.state();
            let ghost layout = tokens_view(self.token_buffer@);
            let ghost t_before = tokens_view(tokens@);
            proof {
                lemma_indentation_uniform(chars, st);
                lemma_indentation_pos(chars, st);
            }
            let ghost n = layout.len();
            loop
                invariant
                    self.wf(),
                    self.input@ == chars,
                    self.state() == s1,
                    layout.len() == n,
                    uniform(layout),
                    tokens_view(self.token_buffer@) == layout.subrange(0, self.token_buffer@.len() as int),
                    self.token_buffer@.len() <= n,
                    tokens_view(tokens@) == t_before + layout.subrange(
                        self.token_buffer@.len() as int,
                        n as int,
                    ),
                ensures
                    self.wf(),
                    self.idle(),
                    self.input@ == chars,
                    self.state() == s1,
                    tokens_view(tokens@) == t_before + layout,
                decreases self.token_buffer@.len(),
            {
                let ghost buf = self.token_buffer@;
                match self.token_buffer.pop() {
                    Some(b) => {
                        proof {
                            lemma_tokens_view_push(tokens@, b);
                            assert(tokens_view(buf)[buf.len() - 1] == b@);
                        }
                        tokens.push(b);
                        assert(tokens_view(self.token_buffer@) =~= layout.subrange(
                            0,
                            self.token_buffer@.len() as int,
                        ));
                        assert(tokens_view(tokens@) =~= t_before + layout.subrange(
                            self.token_buffer@.len() as int,
                            n as int,
                        ));
                    },
                    None => {
                        assert(layout.subrange(0, n as int) =~= layout);
                        break;
                    },
                }
            }
            self.skip_whitespace();
            let ghost s2 = self.state();
            proof {
                lemma_skip_blank_pos(chars, s1);
            }
            match self.current_char {
                Some(ch) => {
                    let token = self.lex_token_at(ch);
                    proof {
                        lemma_tokens_view_push(tokens@, token);
                    }
                    tokens.push(token);
                    assert(tokens_view(tokens@) + lex_from(chars, self.state()) =~= t_before + (layout + seq![token@]
                        + lex_from(chars, self.state())));
                },
                None => {
                    assert(tokens_view(tokens@) + lex_from(chars, self.state()) =~= t_before + (layout + closing(s2)));
                },
            }
        }
        let ghost s_end = self.state();
        let ghost t_before = tokens_view(tokens@);
        let ghost k = self.indent_stack@.len();
        while self.indent_stack.len() > 1
            invariant
                self.wf(),
                self.idle(),
                self.input@ == chars,
                self.line == s_end.line,
                self.position == s_end.pos,
                1 <= self.indent_stack@.len() <= k,
                k == s_end.indent_stack.len(),
                tokens_view(tokens@) == t_before + copies(dedent_tok(s_end.line), (k - self.indent_stack@.len()) as nat),
            decreases self.indent_stack@.len(),
        {
            self.indent_stack.pop();
            let t = Token::new(TokenType::Dedent, self.line, 1, String::new());
            proof {
                lemma_tokens_view_push(tokens@, t);
            }
            tokens.push(t);
            assert(tokens_view(tokens@) =~= t_before + copies(
                dedent_tok(s_end.line),
                (k - self.indent_stack@.len()) as nat,
            ));
        }
        let eof = Token::new(TokenType::Eof, self.line, 1, String::new());
        proof {
            lemma_tokens_view_push(tokens@, eof);
        }
        tokens.push(eof);
        assert(tokens_view(tokens@) =~= t_before + closing(s_end));
        Ok(tokens)
    }
}

/// All elements of the sequence are the same.
pub open spec fn uniform(s: Seq<TokenView>) -> bool {
    forall|i: int, j: int| 0 <= i < s.len() && 0 <= j < s.len() ==> s[i] == s[j]
}

/// The layout tokens of a line's indentation are all alike.
pub proof fn lemma_indentation_uniform(chars: Seq<char>, st: LexState)
    ensures
        uniform(indentation(chars, st).0),
{
}


// ---------------------------------------------------------------------------
// Laws of the lexer

/// How many tokens of kind `k` the sequence holds.
pub open spec fn count_kind(ts: Seq<TokenView>, k: TokenType) -> nat
    decreases ts.len(),
{
    if ts.len() == 0 {
        0
    } else {
        count_kind(ts.drop_last(), k) + (if ts.last().token_type == k { 1nat } else { 0nat })
    }
}

pub proof fn lemma_count_concat(a: Seq<TokenView>, b: Seq<TokenView>, k: TokenType)
    ensures
        count_kind(a + b, k) == count_kind(a, k) + count_kind(b, k),
    decreases b.len(),
{
    if b.len() > 0 {
        lemma_count_concat(a, b.drop_last(), k);
        assert((a + b).drop_last() =~= a + b.drop_last());
    } else {
        assert(a + b =~= a);
    }
}

pub proof fn lemma_count_copies(x: TokenView, n: nat, k: TokenType)
    ensures
        count_kind(copies(x, n), k) == (if x.token_type == k { n } else { 0 }),
    decreases n,
{
    if n > 0 {
        lemma_count_copies(x, (n - 1) as nat, k);
        assert(copies(x, n).drop_last() =~= copies(x, (n - 1) as nat));
    }
}

pub proof fn lemma_count_single(x: TokenView, k: TokenType)
    ensures
        count_kind(seq![x], k) == (if x.token_type == k { 1nat } else { 0nat }),
{
    assert(seq![x].drop_last() =~= Seq::<TokenView>::empty());
    assert(count_kind(Seq::<TokenView>::empty(), k) == 0);
}

/// A stack of indentation levels as the lexer keeps it: the bottom level 0 always stays.
pub open spec fn stack_ok(stack: Seq<nat>) -> bool {
    stack.len() >= 1 && stack[0] == 0
}

pub proof fn lemma_pop_levels(stack: Seq<nat>, level: nat)
    requires
        stack_ok(stack),
    ensures
        stack_ok(pop_levels(stack, level).0),
        pop_levels(stack, level).0.len() + pop_levels(stack, level).1 == stack.len(),
        pop_levels(stack, level).0[0] == stack[0],
    decreases stack.len(),
{
    if stack.len() > 0 && level < stack.last() {
        if stack.len() == 1 {
            assert(stack.last() == stack[0]);
        } else {
            lemma_pop_levels(stack.drop_last(), level);
        }
    }
}

/// No ordinary token is a layout or end-of-file token.
pub proof fn lemma_lex_token_kind(chars: Seq<char>, st: LexState)
    requires
        st.pos < chars.len(),
    ensures
        lex_token(chars, st).0.token_type != TokenType::Indent,
        lex_token(chars, st).0.token_type != TokenType::Dedent,
        lex_token(chars, st).0.token_type != TokenType::Eof,
        lex_token(chars, st).1.indent_stack == st.indent_stack,
{
    let ch = chars[st.pos as int];
    let (w, s) = ident_body(chars, st);
    let (c, s_) = string_body(chars, advanced(chars, st), ch);
    let (d, f, s__) = number_body(chars, st, false);
    lemma_string_body_stack(chars, advanced(chars, st), ch);
    lemma_number_body_stack(chars, st, false);
    lemma_ident_body_stack(chars, st);
}

pub proof fn lemma_string_body_stack(chars: Seq<char>, st: LexState, q: char)
    ensures
        string_body(chars, st, q).1.indent_stack == st.indent_stack,
    decreases chars.len() - st.pos,
{
    if let Some(c) = char_at(chars, st.pos) {
        if c != q {
            lemma_string_body_stack(chars, advanced(chars, st), q);
        }
    }
}

pub proof fn lemma_number_body_stack(chars: Seq<char>, st: LexState, f: bool)
    ensures
        number_body(chars, st, f).2.indent_stack == st.indent_stack,
    decreases chars.len() - st.pos,
{
    if let Some(c) = char_at(chars, st.pos) {
        if is_digit_char(c) {
            lemma_number_body_stack(chars, advanced(chars, st), f);
        } else if c == '.' && !f && (match char_at(chars, st.pos + 1) {
            Some(d) => is_digit_char(d),
            None => false,
        }) {
            lemma_number_body_stack(chars, advanced(chars, st), true);
        }
    }
}

pub proof fn lemma_ident_body_stack(chars: Seq<char>, st: LexState)
    ensures
        ident_body(chars, st).1.indent_stack == st.indent_stack,
    decreases chars.len() - st.pos,
{
    if let Some(c) = char_at(chars, st.pos) {
        if is_ident_char(c) {
            lemma_ident_body_stack(chars, advanced(chars, st));
        }
    }
}

pub proof fn lemma_skip_blank_stack(chars: Seq<char>, st: LexState)
    ensures
        skip_blank(chars, st).indent_stack == st.indent_stack,
    decreases chars.len() - st.pos,
{
    if let Some(c) = char_at(chars, st.pos) {
        if c == ' ' || c == '\t' || c == '\r' {
            lemma_skip_blank_stack(chars, advanced(chars, st));
        } else if c == '#' {
            lemma_skip_comment_pos(chars, advanced(chars, st));
        }
    }
}

pub proof fn lemma_scan_indent_stack(chars: Seq<char>, st: LexState, level: nat)
    ensures
        scan_indent(chars, st, level).0.indent_stack == st.indent_stack,
    decreases chars.len() - st.pos,
{
    if let Some(c) = char_at(chars, st.pos) {
        if c == ' ' {
            lemma_scan_indent_stack(chars, advanced(chars, st), level + 1);
        } else if c == '\t' {
            lemma_scan_indent_stack(chars, advanced(chars, st), level + 4);
        }
    }
}

/// The layout tokens of one line: as many dedents as levels popped, as many indents as
/// levels pushed, and no end of file.
pub proof fn lemma_indentation_counts(chars: Seq<char>, st: LexState)
    requires
        stack_ok(st.indent_stack),
    ensures
        ({
            let (layout, s) = indentation(chars, st);
            &&& stack_ok(s.indent_stack)
            &&& count_kind(layout, TokenType::Dedent) + s.indent_stack.len() == count_kind(
                layout,
                TokenType::Indent,
            ) + st.indent_stack.len()
            &&& count_kind(layout, TokenType::Eof) == 0
        }),
{
    let (st1, level) = scan_indent(chars, st, 0);
    lemma_scan_indent_stack(chars, st, 0);
    let (layout, s) = indentation(chars, st);
    if st.brace_level > 0 {
    } else if level > st.indent_stack.last() {
        lemma_count_copies(tok(TokenType::Indent, st1.line, 1, repeat_char(' ', level)), 1, TokenType::Dedent);
        lemma_count_copies(tok(TokenType::Indent, st1.line, 1, repeat_char(' ', level)), 1, TokenType::Indent);
        lemma_count_copies(tok(TokenType::Indent, st1.line, 1, repeat_char(' ', level)), 1, TokenType::Eof);
    } else if level < st.indent_stack.last() {
        lemma_pop_levels(st.indent_stack, level);
        let n = pop_levels(st.indent_stack, level).1;
        lemma_count_copies(dedent_tok(st1.line), n, TokenType::Dedent);
        lemma_count_copies(dedent_tok(st1.line), n, TokenType::Indent);
        lemma_count_copies(dedent_tok(st1.line), n, TokenType::Eof);
    }
}

pub proof fn lemma_closing_counts(st: LexState)
    requires
        stack_ok(st.indent_stack),
    ensures
        count_kind(closing(st), TokenType::Dedent) + 1 == st.indent_stack.len(),
        count_kind(closing(st), TokenType::Indent) == 0,
        count_kind(closing(st), TokenType::Eof) == 1,
        closing(st).len() > 0,
        closing(st).last().token_type == TokenType::Eof,
{
    let n = (st.indent_stack.len() - 1) as nat;
    let c = copies(dedent_tok(st.line), n);
    let e = tok(TokenType::Eof, st.line, 1, Seq::empty());
    assert(closing(st).drop_last() =~= c);
    lemma_count_copies(dedent_tok(st.line), n, TokenType::Dedent);
    lemma_count_copies(dedent_tok(st.line), n, TokenType::Indent);
    lemma_count_copies(dedent_tok(st.line), n, TokenType::Eof);
}

/// From any state, the dedents still to come outnumber the indents by the levels open.
pub proof fn lemma_lex_from_counts(chars: Seq<char>, st: LexState)
    requires
        stack_ok(st.indent_stack),
    ensures
        count_kind(lex_from(chars, st), TokenType::Dedent) + 1 == count_kind(lex_from(chars, st), TokenType::Indent)
            + st.indent_stack.len(),
        count_kind(lex_from(chars, st), TokenType::Eof) == 1,
        lex_from(chars, st).len() > 0,
        lex_from(chars, st).last().token_type == TokenType::Eof,
    decreases chars.len() - st.pos,
{
    if st.pos >= chars.len() {
        lemma_closing_counts(st);
    } else {
        let (layout, s1) = if st.at_line_start {
            indentation(chars, st)
        } else {
            (Seq::empty(), st)
        };
        if st.at_line_start {
            lemma_indentation_counts(chars, st);
        }
        let s2 = skip_blank(chars, s1);
        lemma_skip_blank_stack(chars, s1);
        if s2.pos >= chars.len() {
            lemma_closing_counts(s2);
            lemma_count_concat(layout, closing(s2), TokenType::Dedent);
            lemma_count_concat(layout, closing(s2), TokenType::Indent);
            lemma_count_concat(layout, closing(s2), TokenType::Eof);
        } else {
            let (t, s3) = lex_token(chars, s2);
            lemma_lex_token_kind(chars, s2);
            let rest = if st.pos < s3.pos && s3.pos <= chars.len() {
                lemma_lex_from_counts(chars, s3);
                lex_from(chars, s3)
            } else {
                lemma_closing_counts(s3);
                closing(s3)
            };
            assert(lex_from(chars, st) == layout + seq![t] + rest);
            lemma_count_single(t, TokenType::Dedent);
            lemma_count_single(t, TokenType::Indent);
            lemma_count_single(t, TokenType::Eof);
            lemma_count_concat(layout, seq![t], TokenType::Dedent);
            lemma_count_concat(layout, seq![t], TokenType::Indent);
            lemma_count_concat(layout, seq![t], TokenType::Eof);
            lemma_count_concat(layout + seq![t], rest, TokenType::Dedent);
            lemma_count_concat(layout + seq![t], rest, TokenType::Indent);
            lemma_count_concat(layout + seq![t], rest, TokenType::Eof);
        }
    }
}

/// Every indent token the lexer emits is closed by a dedent token: over a whole input
/// they are equally many.
pub proof fn law_layout_balanced(chars: Seq<char>)
    ensures
        count_kind(lex(chars), TokenType::Indent) == count_kind(lex(chars), TokenType::Dedent),
{
    lemma_lex_from_counts(chars, initial_state());
}

/// The token stream of any input ends with the end-of-file token, and holds no other.
pub proof fn law_single_eof_at_end(chars: Seq<char>)
    ensures
        lex(chars).len() > 0,
        lex(chars).last().token_type == TokenType::Eof,
        count_kind(lex(chars), TokenType::Eof) == 1,
{
    lemma_lex_from_counts(chars, initial_state());
}

/// Each reserved word has a token kind of its own: two words read as the same keyword are the
/// same word, but for `fn` and its synonym `def`.
pub proof fn law_keywords_distinct(a: Seq<char>, b: Seq<char>)
    requires
        keyword_type(a) is Some,
        keyword_type(a) == keyword_type(b),
    ensures
        a == b || ((a == "fn"@ || a == "def"@) && (b == "fn"@ || b == "def"@)),
{
}

} // verus!
