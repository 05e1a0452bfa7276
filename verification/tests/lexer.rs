use arwen_elrond_ipc::ipc_assertion::{AssertionOp, Pred};
use arwen_elrond_ipc::lexer::{known_predicate, scan, tokenize, Token};

fn name(text: &str) -> Token {
    Token::Name(text.to_string())
}

#[test]
fn cuts_a_header_into_tokens() {
    assert_eq!(
        tokenize("let post (l1:Customstk.t) ="),
        Ok(vec![
            Token::Let,
            Token::Post,
            Token::LParen,
            name("l1"),
            Token::Colon,
            name("Customstk.t"),
            Token::RParen,
            Token::Compare(AssertionOp::Eq),
        ])
    );
}

#[test]
fn cuts_a_predicate_list_into_tokens() {
    assert_eq!(
        tokenize("let preds = [| \"mem\"; hd |]"),
        Ok(vec![
            Token::Let,
            Token::Preds,
            Token::Compare(AssertionOp::Eq),
            Token::ArrayOpen,
            Token::Quoted("mem".to_string()),
            Token::Semicolon,
            Token::Predicate(Pred::head),
            Token::ArrayClose,
        ])
    );
    assert_eq!(tokenize("[||]"), Ok(vec![Token::ArrayOpen, Token::ArrayClose]));
    assert_eq!(tokenize("\"\" \"a b\""), Ok(vec![
        Token::Quoted(String::new()),
        Token::Quoted("a b".to_string()),
    ]));
}

#[test]
fn reads_every_reserved_word() {
    assert_eq!(
        tokenize("let preds pre post int bool true implies iff"),
        Ok(vec![
            Token::Let,
            Token::Preds,
            Token::Pre,
            Token::Post,
            Token::Int,
            Token::Bool,
            Token::True,
            Token::Implies,
            Token::Iff,
        ])
    );
    assert_eq!(
        tokenize("len sorted mem hd ord once left right para ance root"),
        Ok(vec![
            Token::Predicate(Pred::length),
            Token::Predicate(Pred::sorted),
            Token::Predicate(Pred::member),
            Token::Predicate(Pred::head),
            Token::Predicate(Pred::order),
            Token::Predicate(Pred::once),
            Token::Predicate(Pred::left),
            Token::Predicate(Pred::right),
            Token::Predicate(Pred::para),
            Token::Predicate(Pred::ance),
            Token::Predicate(Pred::root),
        ])
    );
    assert_eq!(
        tokenize("Let lets member _ a.b c'"),
        Ok(vec![name("Let"), name("lets"), name("member"), name("_"), name("a.b"), name("c'")])
    );
}

#[test]
fn takes_the_longer_of_two_symbols() {
    assert_eq!(
        tokenize("<=<>=>!=!==&&||"),
        Ok(vec![
            Token::Compare(AssertionOp::Le),
            Token::Compare(AssertionOp::Lt),
            Token::Compare(AssertionOp::Ge),
            Token::Compare(AssertionOp::Gt),
            Token::Compare(AssertionOp::Ne),
            Token::Compare(AssertionOp::Ne),
            Token::Compare(AssertionOp::Eq),
            Token::And,
            Token::Or,
        ])
    );
    assert_eq!(tokenize("!x"), Ok(vec![Token::Not, name("x")]));
    assert_eq!(tokenize("( )"), Ok(vec![Token::LParen, Token::RParen]));
}

#[test]
fn leaves_out_white_space_and_comments() {
    assert_eq!(tokenize(""), Ok(vec![]));
    assert_eq!(tokenize(" \t\r\n"), Ok(vec![]));
    assert_eq!(tokenize("(* only a comment *)"), Ok(vec![]));
    assert_eq!(tokenize("(**)x(* a (* b *) c *)y"), Ok(vec![name("x"), name("y")]));
    assert_eq!(tokenize("(*)*)x"), Ok(vec![name("x")]));
    assert_eq!(tokenize("( *)"), Err(2));
}

#[test]
fn gives_the_offset_where_no_token_starts() {
    assert_eq!(tokenize("x (* y"), Err(2));
    assert_eq!(tokenize("x (* (* y *)"), Err(2));
    assert_eq!(tokenize("ab \"cd"), Err(3));
    assert_eq!(tokenize("a & b"), Err(2));
    assert_eq!(tokenize("a | b"), Err(2));
    assert_eq!(tokenize("a [ b"), Err(2));
    assert_eq!(tokenize("a ] b"), Err(2));
    assert_eq!(tokenize("7"), Err(0));
    assert_eq!(tokenize("\u{e9}t\u{e9} #"), Err(0));
    assert_eq!(tokenize("(* \u{e9}t\u{e9} *) x #"), Err(12));
    assert_eq!(tokenize("x'"), Ok(vec![name("x'")]));
    assert_eq!(tokenize("'x"), Err(0));
    assert_eq!(tokenize(".x"), Err(0));
}

#[test]
fn knows_the_predicate_symbols() {
    assert_eq!(known_predicate("len"), Some(Pred::length));
    assert_eq!(known_predicate("sorted"), Some(Pred::sorted));
    assert_eq!(known_predicate("mem"), Some(Pred::member));
    assert_eq!(known_predicate("hd"), Some(Pred::head));
    assert_eq!(known_predicate("ord"), Some(Pred::order));
    assert_eq!(known_predicate("once"), Some(Pred::once));
    assert_eq!(known_predicate("left"), Some(Pred::left));
    assert_eq!(known_predicate("right"), Some(Pred::right));
    assert_eq!(known_predicate("para"), Some(Pred::para));
    assert_eq!(known_predicate("ance"), Some(Pred::ance));
    assert_eq!(known_predicate("root"), Some(Pred::root));
    assert_eq!(known_predicate("member"), None);
    assert_eq!(known_predicate(""), None);
    assert_eq!(known_predicate("Mem"), None);
}

#[test]
fn notes_where_each_token_starts() {
    let scanned = scan("  mem (* \u{e9} *) l1\n<= u").unwrap();
    assert_eq!(
        scanned.tokens,
        vec![
            Token::Predicate(Pred::member),
            name("l1"),
            Token::Compare(AssertionOp::Le),
            name("u"),
        ]
    );
    assert_eq!(scanned.offsets, vec![2, 14, 17, 20]);
    assert_eq!(scanned.length, 21);
    let scanned = scan(" ").unwrap();
    assert_eq!(scanned.tokens, vec![]);
    assert_eq!(scanned.offsets, vec![]);
    assert_eq!(scanned.length, 1);
    assert_eq!(scan("x #").map(|scanned| scanned.length), Err(2));
}
