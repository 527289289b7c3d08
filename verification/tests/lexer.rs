use crush_core::Lexer;
use crush_core::TokenType;

fn tokens(lexer: &mut Lexer) -> Vec<TokenType> {
    let mut res: Vec<TokenType> = Vec::new();
    loop {
        let t = lexer.pop().0;
        res.push(t);
        if t == TokenType::EOF || t == TokenType::Error {
            break;
        }
    }
    res
}

#[test]
fn blocks() {
    let mut l = Lexer::new(&String::from("echo `{foo}"));
    let tt = tokens(&mut l);
    assert_eq!(
        tt,
        vec![
            TokenType::String,
            TokenType::ModeStart,
            TokenType::String,
            TokenType::ModeEnd,
            TokenType::EOF
        ]
    );
}

#[test]
fn globs() {
    let mut l = Lexer::new(&String::from("echo foo.* abc??def"));
    let tt = tokens(&mut l);
    assert_eq!(
        tt,
        vec![TokenType::String, TokenType::Glob, TokenType::Glob, TokenType::EOF]
    );
}

#[test]
fn list() {
    let mut l = Lexer::new(&String::from("[a]"));
    let tt = tokens(&mut l);
    assert_eq!(
        tt,
        vec![
            TokenType::SubscriptStart,
            TokenType::String,
            TokenType::SubscriptEnd,
            TokenType::EOF
        ]
    );
}

#[test]
fn separators() {
    let mut l = Lexer::new(&String::from("a|b;c"));
    let tt = tokens(&mut l);
    assert_eq!(
        tt,
        vec![
            TokenType::String,
            TokenType::Pipe,
            TokenType::String,
            TokenType::Separator,
            TokenType::String,
            TokenType::EOF
        ]
    );
}

#[test]
fn comments() {
    let mut l = Lexer::new(&String::from("a # this is a comment"));
    let tt = tokens(&mut l);
    assert_eq!(tt, vec![TokenType::String, TokenType::EOF]);
}

#[test]
fn numbers() {
    let mut l = Lexer::new(&String::from("b 2 d"));
    let tt = tokens(&mut l);
    assert_eq!(
        tt,
        vec![TokenType::String, TokenType::Integer, TokenType::String, TokenType::EOF]
    );
}

#[test]
fn quoted_string() {
    let mut l = Lexer::new(&String::from(r##" "abc"  "\" ggg" "\d \\"  "##));
    let tt = tokens(&mut l);
    assert_eq!(
        tt,
        vec![
            TokenType::QuotedString,
            TokenType::QuotedString,
            TokenType::QuotedString,
            TokenType::EOF
        ]
    );
}

#[test]
fn assign() {
    let mut l = Lexer::new(&String::from("foo=bar baz = 7"));
    let tt = tokens(&mut l);
    assert_eq!(
        tt,
        vec![
            TokenType::String,
            TokenType::Assign,
            TokenType::String,
            TokenType::String,
            TokenType::Assign,
            TokenType::Integer,
            TokenType::EOF,
        ]
    );
}

#[test]
fn comparison_operators() {
    let mut l = Lexer::new(&String::from("== >= > < <= !="));
    let tt = tokens(&mut l);
    assert_eq!(
        tt,
        vec![
            TokenType::Equal,
            TokenType::GreaterThanOrEqual,
            TokenType::GreaterThan,
            TokenType::LessThan,
            TokenType::LessThanOrEqual,
            TokenType::NotEqual,
            TokenType::EOF
        ]
    );
}

#[test]
fn variables_and_fields() {
    let mut l = Lexer::new(&String::from("$foo %bar $foo.bar %baz.qux"));
    let tt = tokens(&mut l);
    assert_eq!(
        tt,
        vec![
            TokenType::Variable,
            TokenType::Field,
            TokenType::Variable,
            TokenType::Field,
            TokenType::EOF
        ]
    );
}

#[test]
fn regex() {
    let mut l = Lexer::new(&String::from(r"   r{^.$}   r{{foo\}}  "));
    let tt = tokens(&mut l);
    assert_eq!(tt, vec![TokenType::Regex, TokenType::Regex, TokenType::EOF]);
}

#[test]
fn end_is_terminal() {
    let mut l = Lexer::new(&String::from("a"));
    assert_eq!(l.pop().0, TokenType::String);
    for _ in 0..5 {
        let (t, lexeme) = l.pop();
        assert_eq!(t, TokenType::EOF);
        assert!(lexeme.is_empty());
    }
}

#[test]
fn ignored_kinds_never_surface() {
    let mut l = Lexer::new(&String::from("  a\tb # trailing\n c "));
    let tt = tokens(&mut l);
    for t in &tt {
        assert_ne!(*t, TokenType::Whitespace);
        assert_ne!(*t, TokenType::Comment);
    }
    assert_eq!(
        tt,
        vec![TokenType::String, TokenType::String, TokenType::String, TokenType::EOF]
    );
}

#[test]
fn maximal_munch_pairs() {
    let mut l = Lexer::new(&String::from("=~"));
    assert_eq!(l.pop().0, TokenType::Match);
    let mut l = Lexer::new(&String::from("!~"));
    assert_eq!(l.pop().0, TokenType::NotMatch);
    let mut l = Lexer::new(&String::from("=="));
    let (t, lexeme) = l.pop();
    assert_eq!(t, TokenType::Equal);
    assert_eq!(lexeme.len(), 2);
}

#[test]
fn lexeme_text() {
    let mut l = Lexer::new(&String::from("foo=17"));
    let (t, lexeme) = l.pop();
    assert_eq!(t, TokenType::String);
    assert_eq!(lexeme.iter().collect::<String>(), "foo");
    let (t, _) = l.pop();
    assert_eq!(t, TokenType::Assign);
    let (t, lexeme) = l.pop();
    assert_eq!(t, TokenType::Integer);
    assert_eq!(lexeme.iter().collect::<String>(), "17");
}

#[test]
fn error_token_on_unclassifiable() {
    let mut l = Lexer::new(&String::from("a \u{1F600}"));
    assert_eq!(l.pop().0, TokenType::String);
    assert_eq!(l.pop().0, TokenType::Error);
}
