use selvr::lexer::Lexer;
use selvr::token::Token;

fn lex(src: &str) -> Vec<Token> {
    let (toks, _errs) = Lexer::new(src, 0).tokenize();
    toks.into_iter().map(|s| s.node).filter(|t| !t.is_trivia()).collect()
}

#[test]
fn hello_world_tokens() {
    let src = r#"fn main(): void { return; }"#;
    let toks = lex(src);
    assert!(matches!(toks[0], Token::Fn));
    assert!(matches!(toks[1], Token::Ident(_)));
    assert!(matches!(toks[2], Token::LParen));
}

#[test]
fn integer_literals() {
    let src = "42 0xFF 0b1010 1_000";
    let toks = lex(src);
    assert_eq!(toks[0], Token::IntLit(42));
    assert_eq!(toks[1], Token::IntLit(255));
    assert_eq!(toks[2], Token::IntLit(10));
    assert_eq!(toks[3], Token::IntLit(1000));
}

#[test]
fn string_escape() {
    let (toks, errs) = Lexer::new(r#""hello\nworld""#, 0).tokenize();
    assert!(errs.is_empty());
    assert_eq!(toks[0].node, Token::StrLit("hello\nworld".to_string()));
}

#[test]
fn strict_equality_operators() {
    let src = "a === b !== c == d != e";
    let toks = lex(src);
    assert!(matches!(toks[1], Token::EqEq));
    assert!(matches!(toks[3], Token::BangEq));
    assert!(matches!(toks[5], Token::EqEqLoose));
    assert!(matches!(toks[7], Token::BangEqLoose));
}

#[test]
fn new_keywords() {
    let src = "import export this boolean string where";
    let toks = lex(src);
    assert!(matches!(toks[0], Token::Import));
    assert!(matches!(toks[1], Token::Export));
    assert!(matches!(toks[2], Token::This));
    assert!(matches!(toks[3], Token::KwBoolean));
    assert!(matches!(toks[4], Token::KwString));
    assert!(matches!(toks[5], Token::Where));
}

#[test]
fn template_literal_simple() {
    let src = "`hello world`";
    let toks = lex(src);
    // A template literal with no interpolation → TemplateLitEnd
    assert!(matches!(toks[0], Token::TemplateLitEnd(_)));
}

#[test]
fn fat_arrow_closure() {
    let src = "(x) => x * 2";
    let toks = lex(src);
    assert!(matches!(toks[0], Token::LParen));
    assert!(matches!(toks[1], Token::Ident(_)));
    assert!(matches!(toks[2], Token::RParen));
    assert!(matches!(toks[3], Token::FatArrow));
}

#[test]
fn template_literal_segments() {
    let toks = lex("`a${x}b`");
    assert_eq!(
        toks,
        vec![
            Token::TemplateLitStart("a".to_string()),
            Token::Ident("x".to_string()),
            Token::TemplateLitEnd("b".to_string()),
            Token::Eof,
        ]
    );
    let toks = lex("`Hello ${name}, you have ${count} messages!`");
    assert_eq!(
        toks,
        vec![
            Token::TemplateLitStart("Hello ".to_string()),
            Token::Ident("name".to_string()),
            Token::TemplateLitMid(", you have ".to_string()),
            Token::Ident("count".to_string()),
            Token::TemplateLitEnd(" messages!".to_string()),
            Token::Eof,
        ]
    );
    // Braces inside the interpolation do not close it.
    let toks = lex("`${ {} }!` x");
    assert_eq!(
        toks,
        vec![
            Token::TemplateLitStart(String::new()),
            Token::LBrace,
            Token::RBrace,
            Token::TemplateLitEnd("!".to_string()),
            Token::Ident("x".to_string()),
            Token::Eof,
        ]
    );
}
