use arwen_elrond_ipc::assertion_parser::{
    parse_assertion, parse_assertion_file, parse_post_spec, parse_pre_spec, parse_type, ParseError,
};
use arwen_elrond_ipc::ipc::{
    ElrondForallFormula, ElrondKnownPredicate, ElrondPred, ElrondPredicates, ElrondSimpleExpr,
    ElrondSpec, ElrondTpedvar, ElrondType,
};
use arwen_elrond_ipc::ipc_assertion::{
    Assertion, AssertionOp, AssertionPredicates, AssertionType, Pred, Spec, Tpedvar,
};

fn names(items: &[&str]) -> Vec<String> {
    items.iter().map(|s| s.to_string()).collect()
}

fn atom(pred: Pred, args: &[&str]) -> Assertion {
    Assertion::Predicate(pred, names(args))
}

fn stack_args() -> Vec<Tpedvar> {
    let stack = AssertionType::Generic("Customstk.t".to_string());
    vec![
        Tpedvar(stack.clone(), "l1".to_string()),
        Tpedvar(stack.clone(), "l2".to_string()),
        Tpedvar(stack, "l3".to_string()),
        Tpedvar(AssertionType::Int, "u".to_string()),
    ]
}

fn stack_body() -> Assertion {
    Assertion::And(vec![
        Assertion::Iff(
            Box::new(atom(Pred::member, &["l3", "u"])),
            Box::new(Assertion::Or(vec![
                atom(Pred::member, &["l1", "u"]),
                atom(Pred::member, &["l2", "u"]),
            ])),
        ),
        Assertion::Implies(
            Box::new(atom(Pred::head, &["l3", "u"])),
            Box::new(Assertion::Or(vec![
                atom(Pred::head, &["l1", "u"]),
                atom(Pred::head, &["l2", "u"]),
            ])),
        ),
    ])
}

#[test]
fn test_type_int() {
    let parsed = parse_type("int").unwrap();
    assert_eq!(parsed, AssertionType::Int);
    assert_eq!(parsed.to_string(), "int");
}

#[test]
fn test_type_bool() {
    let parsed = parse_type("bool").unwrap();
    assert_eq!(parsed, AssertionType::Bool);
    assert_eq!(parsed.to_string(), "bool");
}

#[test]
fn test_type_generic() {
    let parsed = parse_type("T").unwrap();
    assert_eq!(parsed, AssertionType::Generic("T".to_string()));
    assert_eq!(parsed.to_string(), "T");
}

#[test]
fn test_type_custom_stk() {
    let parsed = parse_type("Customstk.t").unwrap();
    assert_eq!(parsed, AssertionType::Generic("Customstk.t".to_string()));
    assert_eq!(parsed.to_string(), "Customstk.t");
}

#[test]
fn test_assertion_parser_1() {
    let parsed = parse_assertion("mem l1 u").unwrap();
    assert_eq!(parsed, atom(Pred::member, &["l1", "u"]));
    assert_eq!(parsed.to_string(), "mem l1 u");
}

#[test]
fn test_assertion_parser_2() {
    let parsed = parse_assertion("mem l1 u || mem l2 u").unwrap();
    assert_eq!(
        parsed,
        Assertion::Or(vec![atom(Pred::member, &["l1", "u"]), atom(Pred::member, &["l2", "u"])])
    );
    assert_eq!(parsed.to_string(), "mem l1 u || mem l2 u");
}

#[test]
fn test_assertion_parser_3() {
    let text = "iff (mem l3 u) (mem l1 u || mem l2 u)";
    let parsed = parse_assertion(text).unwrap();
    assert_eq!(
        parsed,
        Assertion::Iff(
            Box::new(atom(Pred::member, &["l3", "u"])),
            Box::new(Assertion::Or(vec![
                atom(Pred::member, &["l1", "u"]),
                atom(Pred::member, &["l2", "u"]),
            ])),
        )
    );
    assert_eq!(parsed.to_string(), text);
}

#[test]
fn test_assertion_parser_4() {
    let text = "implies (hd l3 u) (hd l1 u || hd l2 u)";
    let parsed = parse_assertion(text).unwrap();
    assert_eq!(
        parsed,
        Assertion::Implies(
            Box::new(atom(Pred::head, &["l3", "u"])),
            Box::new(Assertion::Or(vec![
                atom(Pred::head, &["l1", "u"]),
                atom(Pred::head, &["l2", "u"]),
            ])),
        )
    );
    assert_eq!(parsed.to_string(), text);
}

#[test]
fn test_assertion_parser_5() {
    let text =
        "iff (mem l3 u) (mem l1 u || mem l2 u) && implies (hd l3 u) (hd l1 u || hd l2 u)";
    let parsed = parse_assertion(text).unwrap();
    assert_eq!(parsed, stack_body());
    assert_eq!(parsed.to_string(), text);
}

#[test]
fn test_post_spec_parser() {
    let parsed = parse_post_spec(
        "let post (l1 : Customstk.t) (l2 : Customstk.t) (l3 : Customstk.t) (u : int) =
iff (mem l3 u) (mem l1 u || mem l2 u) && implies (hd l3 u) (hd l1 u || hd l2 u)",
    )
    .unwrap();
    assert_eq!(parsed, Spec(stack_args(), stack_body()));
    assert_eq!(
        parsed.to_string(),
        "(l1 : Customstk.t) (l2 : Customstk.t) (l3 : Customstk.t) (u : int) \u{22a2} \
         iff (mem l3 u) (mem l1 u || mem l2 u) && implies (hd l3 u) (hd l1 u || hd l2 u)"
    );
}

#[test]
fn test_customstk_assertion1_parser() {
    let text = "let preds = [| \"mem\"; \"hd\" |]\n\
                let post (l1:Customstk.t) (l2:Customstk.t) (l3:Customstk.t) (u:int) =\n  \
                iff (mem l3 u) (mem l1 u || mem l2 u) && implies (hd l3 u) (hd l1 u || hd l2 u)\n";
    let parsed = parse_assertion_file(text).unwrap();
    assert_eq!(parsed.preds, AssertionPredicates(vec![Pred::member, Pred::head]));
    assert_eq!(parsed.pre_spec, None);
    assert_eq!(parsed.post_spec, Spec(stack_args(), stack_body()));
    assert_eq!(
        parsed.to_string(),
        "let preds = [| \"mem\"; \"hd\" |]\n\n\
         let post (l1 : Customstk.t) (l2 : Customstk.t) (l3 : Customstk.t) (u : int) =\n  \
         iff (mem l3 u) (mem l1 u || mem l2 u) && implies (hd l3 u) (hd l1 u || hd l2 u)\n"
    );
}

#[test]
fn parses_a_file_with_a_precondition() {
    let text = "(* stack with a bound *)\n\
                let preds = [| \"mem\" |]\n\
                let pre (l : Customstk.t) (u : int) = !mem l u\n\
                let post (l : Customstk.t) (u : int) = mem l u\n";
    let parsed = parse_assertion_file(text).unwrap();
    let args = || {
        vec![
            Tpedvar(AssertionType::Generic("Customstk.t".to_string()), "l".to_string()),
            Tpedvar(AssertionType::Int, "u".to_string()),
        ]
    };
    assert_eq!(parsed.preds, AssertionPredicates(vec![Pred::member]));
    assert_eq!(
        parsed.pre_spec,
        Some(Spec(args(), Assertion::Not(Box::new(atom(Pred::member, &["l", "u"])))))
    );
    assert_eq!(parsed.post_spec, Spec(args(), atom(Pred::member, &["l", "u"])));
}

#[test]
fn and_binds_tighter_than_or_and_both_associate_to_the_left() {
    let a = || atom(Pred::member, &["a"]);
    let b = || atom(Pred::member, &["b"]);
    let c = || atom(Pred::member, &["c"]);
    assert_eq!(
        parse_assertion("mem a || mem b && mem c").unwrap(),
        Assertion::Or(vec![a(), Assertion::And(vec![b(), c()])])
    );
    assert_eq!(
        parse_assertion("mem a && mem b || mem c").unwrap(),
        Assertion::Or(vec![Assertion::And(vec![a(), b()]), c()])
    );
    assert_eq!(
        parse_assertion("mem a || mem b || mem c").unwrap(),
        Assertion::Or(vec![Assertion::Or(vec![a(), b()]), c()])
    );
    assert_eq!(
        parse_assertion("mem a && mem b && mem c").unwrap(),
        Assertion::And(vec![Assertion::And(vec![a(), b()]), c()])
    );
    assert_eq!(
        parse_assertion("(mem a || mem b) && mem c").unwrap(),
        Assertion::And(vec![Assertion::Or(vec![a(), b()]), c()])
    );
}

#[test]
fn not_binds_tighter_than_and() {
    let a = || atom(Pred::member, &["a"]);
    let b = || atom(Pred::member, &["b"]);
    assert_eq!(
        parse_assertion("!mem a && mem b").unwrap(),
        Assertion::And(vec![Assertion::Not(Box::new(a())), b()])
    );
    assert_eq!(
        parse_assertion("!!mem a").unwrap(),
        Assertion::Not(Box::new(Assertion::Not(Box::new(a()))))
    );
    assert_eq!(
        parse_assertion("!(mem a && mem b)").unwrap(),
        Assertion::Not(Box::new(Assertion::And(vec![a(), b()])))
    );
}

#[test]
fn parses_every_comparison() {
    let cases = [
        ("x = y", AssertionOp::Eq),
        ("x != y", AssertionOp::Ne),
        ("x <= y", AssertionOp::Le),
        ("x >= y", AssertionOp::Ge),
        ("x < y", AssertionOp::Lt),
        ("x > y", AssertionOp::Gt),
    ];
    for (text, op) in cases {
        let parsed = parse_assertion(text).unwrap();
        assert_eq!(parsed, Assertion::Op(op, "x".to_string(), "y".to_string()));
        assert_eq!(parsed.to_string(), text);
    }
    assert_eq!(
        parse_assertion("x<=y").unwrap(),
        Assertion::Op(AssertionOp::Le, "x".to_string(), "y".to_string())
    );
}

#[test]
fn parses_true_and_every_predicate_symbol() {
    assert_eq!(parse_assertion("true").unwrap(), Assertion::True);
    let cases = [
        ("len", Pred::length),
        ("sorted", Pred::sorted),
        ("mem", Pred::member),
        ("hd", Pred::head),
        ("ord", Pred::order),
        ("once", Pred::once),
        ("left", Pred::left),
        ("right", Pred::right),
        ("para", Pred::para),
        ("ance", Pred::ance),
        ("root", Pred::root),
    ];
    for (symbol, pred) in cases {
        let text = format!("{} t x", symbol);
        let parsed = parse_assertion(&text).unwrap();
        assert_eq!(parsed, atom(pred, &["t", "x"]));
        assert_eq!(parsed.to_string(), text);
    }
    assert_eq!(parse_assertion("sorted").unwrap(), atom(Pred::sorted, &[]));
}

#[test]
fn skips_white_space_and_nested_comments() {
    let parsed =
        parse_assertion("\t(* outer (* inner *) still outer *) mem\r\n l1 (**) u ").unwrap();
    assert_eq!(parsed, atom(Pred::member, &["l1", "u"]));
}

#[test]
fn reports_where_no_token_starts() {
    assert_eq!(parse_assertion("mem l1 # u"), Err(ParseError::Lexical { offset: 7 }));
    assert_eq!(parse_assertion("mem l1 & u"), Err(ParseError::Lexical { offset: 7 }));
    assert_eq!(parse_assertion("mem (* never closed"), Err(ParseError::Lexical { offset: 4 }));
    assert_eq!(parse_assertion("mem \"l1"), Err(ParseError::Lexical { offset: 4 }));
    assert_eq!(parse_assertion("mem 1"), Err(ParseError::Lexical { offset: 4 }));
}

#[test]
fn reports_the_token_that_cannot_be_accepted() {
    assert_eq!(parse_assertion(""), Err(ParseError::Syntax { index: 0, offset: 0 }));
    assert_eq!(parse_assertion("mem l1 u )"), Err(ParseError::Syntax { index: 3, offset: 9 }));
    assert_eq!(parse_assertion("mem l1 ||"), Err(ParseError::Syntax { index: 3, offset: 9 }));
    assert_eq!(parse_assertion("x y"), Err(ParseError::Syntax { index: 1, offset: 2 }));
    assert_eq!(parse_assertion("x <= mem"), Err(ParseError::Syntax { index: 2, offset: 5 }));
    assert_eq!(
        parse_assertion("implies (true) true"),
        Err(ParseError::Syntax { index: 4, offset: 15 })
    );
    assert_eq!(parse_assertion("iff (true)"), Err(ParseError::Syntax { index: 4, offset: 10 }));
    assert_eq!(parse_assertion("(mem l1 u"), Err(ParseError::Syntax { index: 4, offset: 9 }));
    assert_eq!(
        parse_assertion("mem l1 u mem l2 u"),
        Err(ParseError::Syntax { index: 3, offset: 9 })
    );
    assert_eq!(parse_type("int int"), Err(ParseError::Syntax { index: 1, offset: 4 }));
    assert_eq!(parse_type("mem"), Err(ParseError::Syntax { index: 0, offset: 0 }));
    assert_eq!(parse_post_spec("let pre = true"), Err(ParseError::Syntax { index: 1, offset: 4 }));
    assert_eq!(
        parse_pre_spec("let pre (x int) = true"),
        Err(ParseError::Syntax { index: 4, offset: 11 })
    );
    assert_eq!(
        parse_assertion_file("let preds = [| \"mem\"; \"tl\" |]\nlet post = true")
            .map(|file| file.to_string()),
        Err(ParseError::Syntax { index: 6, offset: 22 })
    );
    assert_eq!(
        parse_assertion_file("let preds = [| |]").map(|file| file.to_string()),
        Err(ParseError::Syntax { index: 5, offset: 17 })
    );
}

#[test]
fn keeps_the_order_of_members_and_arguments() {
    let args = stack_args();
    let parsed = parse_assertion("mem l1 u || mem l2 u").unwrap();
    let stack = ElrondType::Generic("Customstk.t".to_string());
    let mem = |list: &str| {
        ElrondPred::Atom(ElrondSimpleExpr::Op(
            ElrondType::Bool,
            "mem".to_string(),
            vec![
                ElrondSimpleExpr::Var(stack.clone(), list.to_string()),
                ElrondSimpleExpr::Var(ElrondType::Int, "u".to_string()),
            ],
        ))
    };
    assert_eq!(parsed.to_elrond(&args), Some(ElrondPred::Or(vec![mem("l1"), mem("l2")])));
}

#[test]
fn parses_an_equivalence_and_writes_it_back() {
    let text = "iff (mem l3 u) (mem l1 u || mem l2 u)";
    let parsed = parse_assertion(text).unwrap();
    let stack = ElrondType::Generic("Customstk.t".to_string());
    let mem = |list: &str| {
        ElrondPred::Atom(ElrondSimpleExpr::Op(
            ElrondType::Bool,
            "mem".to_string(),
            vec![
                ElrondSimpleExpr::Var(stack.clone(), list.to_string()),
                ElrondSimpleExpr::Var(ElrondType::Int, "u".to_string()),
            ],
        ))
    };
    let typed = parsed.to_elrond(&stack_args()).unwrap();
    assert_eq!(
        typed,
        ElrondPred::Iff(
            Box::new(mem("l3")),
            Box::new(ElrondPred::Or(vec![mem("l1"), mem("l2")])),
        )
    );
    assert_eq!(parsed.to_string(), text);
    assert_eq!(typed.to_string(), "iff (mem l3 u) ((mem l1 u || mem l2 u))");
    assert_eq!(parse_assertion(&typed.to_string()).unwrap(), parsed);
}

#[test]
fn parses_a_file_into_the_model_of_the_engine() {
    let text = "let preds = [| \"mem\"; \"hd\" |]\n\
                let post (l1:Customstk.t) (l2:Customstk.t) (l3:Customstk.t) (u:int) =\n  \
                iff (mem l3 u) (mem l1 u || mem l2 u) && implies (hd l3 u) (hd l1 u || hd l2 u)\n";
    let file = parse_assertion_file(text).unwrap().to_elrond().unwrap();
    let stack = ElrondType::Generic("Customstk.t".to_string());
    let stack_arg = || AssertionType::Generic("Customstk.t".to_string());
    let applied = |name: &str, list: &str| {
        ElrondPred::Atom(ElrondSimpleExpr::Op(
            ElrondType::Bool,
            name.to_string(),
            vec![
                ElrondSimpleExpr::Var(stack.clone(), list.to_string()),
                ElrondSimpleExpr::Var(ElrondType::Int, "u".to_string()),
            ],
        ))
    };
    assert_eq!(
        file.preds,
        ElrondPredicates(vec![ElrondKnownPredicate::member, ElrondKnownPredicate::head])
    );
    assert_eq!(file.pre_spec, None);
    assert_eq!(
        file.post_spec,
        ElrondSpec(
            vec![
                ElrondTpedvar(stack_arg(), "l1".to_string()),
                ElrondTpedvar(stack_arg(), "l2".to_string()),
                ElrondTpedvar(stack_arg(), "l3".to_string()),
                ElrondTpedvar(AssertionType::Int, "u".to_string()),
            ],
            ElrondForallFormula(
                vec![],
                ElrondPred::And(vec![
                    ElrondPred::Iff(
                        Box::new(applied("mem", "l3")),
                        Box::new(ElrondPred::Or(vec![applied("mem", "l1"), applied("mem", "l2")])),
                    ),
                    ElrondPred::Implies(
                        Box::new(applied("hd", "l3")),
                        Box::new(ElrondPred::Or(vec![applied("hd", "l1"), applied("hd", "l2")])),
                    ),
                ]),
            ),
        )
    );
}

#[test]
fn lists_predicates_with_or_without_quotes() {
    let quoted = parse_assertion_file("let preds = [| \"len\"; \"sorted\" |] let post = true")
        .unwrap();
    let bare = parse_assertion_file("let preds = [| len; sorted |] let post = true").unwrap();
    let none = parse_assertion_file("let preds = [||] let post = true").unwrap();
    assert_eq!(quoted.preds, AssertionPredicates(vec![Pred::length, Pred::sorted]));
    assert_eq!(bare.preds, AssertionPredicates(vec![Pred::length, Pred::sorted]));
    assert_eq!(none.preds, AssertionPredicates(vec![]));
    assert_eq!(none.post_spec, Spec(vec![], Assertion::True));
}

#[test]
fn takes_reserved_words_for_no_name() {
    assert_eq!(parse_assertion("x <= let"), Err(ParseError::Syntax { index: 2, offset: 5 }));
    assert_eq!(parse_assertion("int <= x"), Err(ParseError::Syntax { index: 0, offset: 0 }));
    assert_eq!(parse_assertion("mem pre"), Err(ParseError::Syntax { index: 1, offset: 4 }));
    assert_eq!(
        parse_assertion("mem preds' lets true_ iffy").unwrap(),
        atom(Pred::member, &["preds'", "lets", "true_", "iffy"])
    );
    assert_eq!(parse_type("pre"), Err(ParseError::Syntax { index: 0, offset: 0 }));
    assert_eq!(parse_type("_t'.u2").unwrap(), AssertionType::Generic("_t'.u2".to_string()));
}

#[test]
fn counts_offsets_in_characters() {
    assert_eq!(
        parse_assertion("(* \u{e9}t\u{e9} *) mem l )"),
        Err(ParseError::Syntax { index: 2, offset: 16 })
    );
    assert_eq!(
        parse_assertion("mem\n  l\n  )\n"),
        Err(ParseError::Syntax { index: 2, offset: 10 })
    );
}
