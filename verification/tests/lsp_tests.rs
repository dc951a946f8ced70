use coral::lsp::{
    diagnostics, format_coral_code, get_completions, get_hover_info, levels_ok, semantic_tokens, split_lines, CompletionKind,
    ErrorRecord,
};
use coral::token::{Token, TokenType};

#[test]
fn format_indents_blocks() {
    let text = "fn add with a, b\nx is a + b\n\nif x\nlog x\nelse\nlog 0";
    let out = format_coral_code(text);
    assert_eq!(out, "fn add with a, b\n    x is a + b\n\n    if x\n        log x\n    else\n        log 0");
}

#[test]
fn format_trims_lines_and_drops_crlf() {
    assert_eq!(format_coral_code("   object Point  \r\n\tx is 1\r\n"), "object Point\n    x is 1");
    assert_eq!(format_coral_code(""), "");
}

#[test]
fn lines_follow_str_lines() {
    for text in ["a\nb", "a\r\nb\r\n", "\n\nx", "a\rb\n", "end\r"] {
        let ours: Vec<String> = split_lines(text).iter().map(|l| l.iter().collect()).collect();
        let std: Vec<String> = text.lines().map(|l| l.to_string()).collect();
        assert_eq!(ours, std, "on {:?}", text);
    }
}

#[test]
fn hover_on_keyword() {
    let h = get_hover_info("x is 1\nfn add with a", 1, 1).unwrap();
    assert!(h.contents.starts_with("**fn**"));
    assert_eq!((h.line, h.start, h.end), (1, 0, 2));
    // a cursor on a space finds the word before it
    let h = get_hover_info("x is 1", 0, 4).unwrap();
    assert!(h.contents.starts_with("**is**"));
    assert_eq!((h.start, h.end), (2, 4));
}

#[test]
fn hover_elsewhere_is_none() {
    assert!(get_hover_info("x is 1", 0, 0).is_none());
    assert!(get_hover_info("x is 1", 3, 0).is_none());
    assert!(get_hover_info("x is 1", 0, 9).is_none());
    assert!(get_hover_info("  fn", 0, 1).is_none());
}

#[test]
fn completions_table() {
    let c = get_completions();
    let labels: Vec<&str> = c.iter().map(|c| c.label.as_str()).collect();
    assert_eq!(labels[..9].to_vec(), vec!["fn", "object", "store", "if", "for", "while", "log", "is", "make"]);
    assert_eq!(labels.len(), 30);
    for k in ["else", "return", "unless", "until", "iterate", "let", "and", "or", "across"] {
        assert!(c.iter().any(|x| x.label == k && x.kind == CompletionKind::Keyword && x.insert_text == k));
    }
    assert_eq!(c[0].kind, CompletionKind::Keyword);
    assert_eq!(c[6].kind, CompletionKind::Function);
    assert_eq!(c[7].kind, CompletionKind::Operator);
    assert_eq!(c[4].insert_text, "for ${1:item} in ${2:collection}\n    ${0}");
}

#[test]
fn levels_ok_matches_formatting_bounds() {
    assert!(levels_ok("fn add with a\nx is a"));
    assert!(levels_ok(""));
    assert!(!levels_ok("else\nx"));
    assert!(levels_ok("if x\nlog x\nelse\nlog y"));
}

fn tk(kind: TokenType, lexeme: &str, line: usize, col: usize) -> Token {
    Token::new(kind, lexeme.to_string(), line, col, 0, 0)
}

#[test]
fn semantic_tokens_are_delta_encoded() {
    let tokens = vec![
        tk(TokenType::Identifier("x".to_string()), "x", 1, 1),
        tk(TokenType::Is, "is", 1, 3),
        tk(TokenType::Integer("42".to_string()), "42", 1, 6),
        tk(TokenType::Newline, "\n", 1, 8),
        tk(TokenType::Log, "log", 2, 1),
        tk(TokenType::StringLiteral("h\u{e9}".to_string()), "h\u{e9}", 2, 5),
        tk(TokenType::Eof, "", 3, 1),
        tk(TokenType::Identifier("y".to_string()), "y", 4, 1),
    ];
    let r = semantic_tokens(&tokens);
    let got: Vec<(u32, u32, u32, u32, u32)> =
        r.iter().map(|t| (t.delta_line, t.delta_start, t.length, t.token_type, t.token_modifiers)).collect();
    assert_eq!(got, vec![(0, 0, 1, 3, 0), (0, 2, 2, 0, 0), (0, 3, 2, 2, 0), (1, 4, 3, 1, 0)]);
}

#[test]
fn diagnostics_mark_error_ranges() {
    let errors = vec![
        ErrorRecord { line: 3, col: 4, length: Some(5), message: "bad".to_string() },
        ErrorRecord { line: 0, col: 2, length: None, message: "worse".to_string() },
    ];
    let d = diagnostics(&errors);
    assert_eq!(d.len(), 2);
    assert_eq!((d[0].start_line, d[0].start_char, d[0].end_line, d[0].end_char), (2, 4, 2, 9));
    assert_eq!(d[0].message, "bad");
    assert_eq!((d[1].start_line, d[1].start_char, d[1].end_line, d[1].end_char), (0, 2, 0, 3));
    assert_eq!(d[1].message, "worse");
}
