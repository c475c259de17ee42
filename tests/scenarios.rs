use lexer::{parse, BodyMatcher, HeaderMatcher, LexerFactory, Token, TokenMatcher, Type};

fn kinds_and_texts(tokens: &[Token]) -> Vec<(Type, String)> {
    tokens.iter().map(|t| (t.token_type, t.token_value.clone())).collect()
}

fn pair(kind: Type, text: &str) -> (Type, String) {
    (kind, String::from(text))
}

#[test]
fn heading_whitespace_tolerance() {
    for line in ["#Test", " #Test", "#Test  "] {
        let l = String::from(line);
        assert!(HeaderMatcher.validate(&l));
        let result = HeaderMatcher.get_token(&l);
        assert_eq!(kinds_and_texts(&result), vec![pair(Type::HeaderH1, "Test")]);
    }
}

#[test]
fn h2_prefix_checked_before_h1() {
    let l = String::from("##Test");
    let result = HeaderMatcher.get_token(&l);
    assert_eq!(kinds_and_texts(&result), vec![pair(Type::HeaderH2, "Test")]);
    let tokens = parse(String::from(" ## Overview "));
    assert_eq!(kinds_and_texts(&tokens), vec![pair(Type::HeaderH2, "Overview")]);
}

#[test]
fn heading_strips_every_marker_occurrence() {
    let h1 = HeaderMatcher.get_token(&String::from("# a # b"));
    assert_eq!(kinds_and_texts(&h1), vec![pair(Type::HeaderH1, "a  b")]);
    let h2 = HeaderMatcher.get_token(&String::from("###Test"));
    assert_eq!(kinds_and_texts(&h2), vec![pair(Type::HeaderH2, "#Test")]);
    let h2b = HeaderMatcher.get_token(&String::from("## x ## y"));
    assert_eq!(kinds_and_texts(&h2b), vec![pair(Type::HeaderH2, "x  y")]);
    let only = HeaderMatcher.get_token(&String::from("#"));
    assert_eq!(kinds_and_texts(&only), vec![pair(Type::HeaderH1, "")]);
}

#[test]
fn header_matcher_rejects_non_headings() {
    for line in ["", "   ", "Test", "a # b"] {
        assert!(!HeaderMatcher.validate(&String::from(line)));
    }
    let result = HeaderMatcher.get_token(&String::from("plain"));
    assert_eq!(kinds_and_texts(&result), vec![pair(Type::Unknown, "")]);
}

#[test]
fn blank_line_rule() {
    for line in ["", "\n", "  \t "] {
        let result = BodyMatcher.get_token(&String::from(line));
        assert_eq!(kinds_and_texts(&result), vec![pair(Type::NewLine, "")]);
    }
    let tokens = parse(String::from("\n"));
    assert_eq!(kinds_and_texts(&tokens), vec![pair(Type::NewLine, "")]);
}

#[test]
fn empty_document_gives_no_tokens() {
    assert!(parse(String::new()).is_empty());
}

#[test]
fn plain_paragraph() {
    let tokens = parse(String::from("Hello World"));
    assert_eq!(kinds_and_texts(&tokens), vec![pair(Type::Paragraph, "Hello World")]);
}

#[test]
fn multi_line_composition() {
    let tokens = parse(String::from("Hello \nWorld \n"));
    assert_eq!(
        kinds_and_texts(&tokens),
        vec![pair(Type::Paragraph, "Hello "), pair(Type::Paragraph, "World ")]
    );
}

#[test]
fn document_level_scenario() {
    let tokens = parse(String::from("# Title\n\n## Section\n\nBody text"));
    assert_eq!(
        kinds_and_texts(&tokens),
        vec![
            pair(Type::HeaderH1, "Title"),
            pair(Type::NewLine, ""),
            pair(Type::HeaderH2, "Section"),
            pair(Type::NewLine, ""),
            pair(Type::Paragraph, "Body text"),
        ]
    );
}

#[test]
fn crlf_line_endings() {
    let tokens = parse(String::from("# Title\r\n\r\nBody\r\nend\r"));
    assert_eq!(
        kinds_and_texts(&tokens),
        vec![
            pair(Type::HeaderH1, "Title"),
            pair(Type::NewLine, ""),
            pair(Type::Paragraph, "Body"),
            pair(Type::Paragraph, "end\r"),
        ]
    );
}

#[test]
fn fence_markers_as_separate_words() {
    let line = "<code> Hello World </code>";
    let result = BodyMatcher.get_token(&String::from(line));
    assert_eq!(
        kinds_and_texts(&result),
        vec![
            pair(Type::CodeBlockOpen, line),
            pair(Type::CodeBlockClose, line),
            pair(Type::Paragraph, line),
        ]
    );
}

#[test]
fn fence_markers_in_document_order() {
    let tokens = parse(String::from("a </code> b <code>\n\t<code>"));
    let first = "a </code> b <code>";
    assert_eq!(
        kinds_and_texts(&tokens),
        vec![
            pair(Type::CodeBlockClose, first),
            pair(Type::CodeBlockOpen, first),
            pair(Type::Paragraph, first),
            pair(Type::CodeBlockOpen, "\t<code>"),
            pair(Type::Paragraph, "\t<code>"),
        ]
    );
}

#[test]
fn heading_precedence_over_paragraph() {
    for line in ["# Title", "  ## Sub", "#", "#<code>"] {
        let tokens = parse(String::from(line));
        assert!(!tokens.is_empty());
        assert!(tokens.iter().all(|t| t.token_type != Type::Paragraph));
    }
}

#[test]
fn at_least_one_token_per_line() {
    let doc = "# a\n\n<code> x </code>\nplain\n   \n## b";
    let tokens = parse(String::from(doc));
    assert!(tokens.len() >= doc.lines().count());
    assert_eq!(tokens.len(), 8);
}

#[test]
fn get_token_is_repeatable() {
    for matcher in LexerFactory::get_lexers() {
        let line = String::from("## <code> x");
        let a = kinds_and_texts(&matcher.get_token(&line));
        let b = kinds_and_texts(&matcher.get_token(&line));
        assert_eq!(a, b);
    }
}

#[test]
fn body_matcher_accepts_every_line() {
    for line in ["", " ", "# h", "text"] {
        assert!(BodyMatcher.validate(&String::from(line)));
    }
}

#[test]
fn registry_order_is_heading_then_body() {
    let matchers = LexerFactory::get_lexers();
    let heading = String::from("# x");
    assert!(matchers[0].validate(&heading));
    assert_eq!(matchers[0].get_token(&heading)[0].token_type, Type::HeaderH1);
    let plain = String::from("x");
    assert!(!matchers[0].validate(&plain));
    assert!(matchers[1].validate(&plain));
}

#[test]
fn display_names() {
    assert_eq!(Type::HeaderH1.to_string(), "H1");
    assert_eq!(Type::HeaderH2.to_string(), "H2");
    assert_eq!(Type::Unknown.to_string(), "Unknown");
    assert_eq!(Type::Paragraph.to_string(), "Paragraph");
    assert_eq!(Type::NewLine.to_string(), "NewLine");
    assert_eq!(Type::CodeBlockOpen.to_string(), "CodeBlockOpen");
    assert_eq!(Type::CodeBlockClose.to_string(), "CodeBlockClose");
    let t = &parse(String::from("Body"))[0];
    assert_eq!(t.to_string(), "Body");
}

#[test]
fn unicode_whitespace_is_trimmed() {
    let tokens = parse(String::from("\u{3000}#\u{a0}Title\u{2003}"));
    assert_eq!(kinds_and_texts(&tokens), vec![pair(Type::HeaderH1, "Title")]);
}
