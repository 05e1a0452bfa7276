use arwen_elrond_ipc::ipc::{
    ElrondAssertion, ElrondForallFormula, ElrondKnownPredicate, ElrondLiteral, ElrondMessage,
    ElrondPred, ElrondPredicates, ElrondResult, ElrondSimpleExpr, ElrondSpec, ElrondTpedvar,
    ElrondType, ElrondValue, FreeVar,
};
use arwen_elrond_ipc::ipc_assertion::{AssertionType, SpecKind};

fn variable(name: &str) -> ElrondSimpleExpr {
    ElrondSimpleExpr::Var(ElrondType::Int, name.to_string())
}

fn plain(name: &str) -> ElrondPred {
    ElrondPred::Atom(variable(name))
}

fn number(i: i64) -> ElrondSimpleExpr {
    ElrondSimpleExpr::Literal(ElrondType::Int, ElrondLiteral::Int(i))
}

fn op(name: &str, args: Vec<ElrondSimpleExpr>) -> ElrondSimpleExpr {
    ElrondSimpleExpr::Op(ElrondType::Bool, name.to_string(), args)
}

fn applied(name: &str, args: &[(&ElrondType, &str)]) -> ElrondPred {
    ElrondPred::Atom(op(
        name,
        args.iter().map(|(ty, x)| ElrondSimpleExpr::Var((*ty).clone(), x.to_string())).collect(),
    ))
}

#[test]
fn renders_values() {
    assert_eq!(ElrondValue::L(vec![]).to_string(), "[]");
    assert_eq!(ElrondValue::L(vec![1]).to_string(), "[1]");
    assert_eq!(ElrondValue::L(vec![1, -2, 30]).to_string(), "[1, -2, 30]");
    assert_eq!(ElrondValue::I(0).to_string(), "0");
    assert_eq!(ElrondValue::I(-7).to_string(), "-7");
    assert_eq!(ElrondValue::I(1234567890).to_string(), "1234567890");
    assert_eq!(ElrondValue::I(i64::MAX).to_string(), "9223372036854775807");
    assert_eq!(ElrondValue::I(i64::MIN).to_string(), "-9223372036854775808");
    assert_eq!(ElrondValue::B(true).to_string(), "true");
    assert_eq!(ElrondValue::B(false).to_string(), "false");
    assert_eq!(ElrondValue::NotADt.to_string(), "NotADt");
}

#[test]
fn renders_literals() {
    assert_eq!(ElrondLiteral::Int(1).to_string(), "1");
    assert_eq!(ElrondLiteral::Int(-1).to_string(), "-1");
    assert_eq!(ElrondLiteral::Int(100).to_string(), "100");
    assert_eq!(ElrondLiteral::Bool(true).to_string(), "true");
    assert_eq!(ElrondLiteral::Bool(false).to_string(), "false");
    assert_eq!(ElrondLiteral::IntList(vec![]).to_string(), "[]");
    assert_eq!(ElrondLiteral::IntList(vec![1, 0]).to_string(), "[1, 0]");
}

#[test]
fn renders_types() {
    assert_eq!(ElrondType::Bool.to_string(), "bool");
    assert_eq!(ElrondType::Int.to_string(), "int");
    assert_eq!(ElrondType::IntList.to_string(), "int list");
    assert_eq!(ElrondType::IntTree.to_string(), "int tree");
    assert_eq!(ElrondType::IntTreeI.to_string(), "int treei");
    assert_eq!(ElrondType::IntTreeB.to_string(), "int treeb");
    assert_eq!(ElrondType::Generic("Customstk.t".to_string()).to_string(), "Customstk.t");
    assert_eq!(ElrondType::Tuple(vec![]).to_string(), "()");
    assert_eq!(ElrondType::Tuple(vec![ElrondType::Int, ElrondType::Bool]).to_string(), "(int, bool)");
    assert_eq!(
        ElrondType::Arrow(
            Box::new(ElrondType::Tuple(vec![ElrondType::Int, ElrondType::IntList])),
            Box::new(ElrondType::Arrow(Box::new(ElrondType::Int), Box::new(ElrondType::Bool))),
        )
        .to_string(),
        "((int, int list) -> (int -> bool))"
    );
}

#[test]
fn clones_types() {
    let ty = ElrondType::Arrow(
        Box::new(ElrondType::Tuple(vec![ElrondType::Generic("T".to_string()), ElrondType::Int])),
        Box::new(ElrondType::IntTreeB),
    );
    assert_eq!(ty.clone(), ty);
    let ty = AssertionType::Generic("T".to_string());
    assert_eq!(ty.clone(), ty);
}

#[test]
fn renders_expressions() {
    assert_eq!(number(1).to_string(), "1");
    assert_eq!(
        ElrondSimpleExpr::Literal(ElrondType::IntList, ElrondLiteral::IntList(vec![1, 2]))
            .to_string(),
        "[1, 2]"
    );
    assert_eq!(variable("x").to_string(), "x");
    assert_eq!(op("<=", vec![variable("x"), variable("y")]).to_string(), "(x <= y)");
    assert_eq!(op(">=", vec![variable("x"), number(0)]).to_string(), "(x >= 0)");
    assert_eq!(op(">=", vec![variable("x"), variable("y"), variable("z")]).to_string(), "(x >= y)");
    assert_eq!(op("+", vec![number(1), number(2)]).to_string(), "+ 1 2");
    assert_eq!(op("=", vec![variable("x"), variable("y")]).to_string(), "(x = y)");
    assert_eq!(op("!=", vec![variable("x"), variable("y")]).to_string(), "(x != y)");
    assert_eq!(op("<", vec![variable("x"), number(1)]).to_string(), "(x < 1)");
    assert_eq!(op(">", vec![variable("x"), variable("y")]).to_string(), "(x > y)");
    assert_eq!(op("==", vec![variable("x"), variable("y")]).to_string(), "== x y");
    assert_eq!(op("mem", vec![variable("l"), variable("u")]).to_string(), "mem l u");
    assert_eq!(op("t", vec![]).to_string(), "t ");
    assert_eq!(ElrondSimpleExpr::Tuple(vec![variable("x"), number(1)]).to_string(), "(x, 1)");
    assert_eq!(ElrondSimpleExpr::Tuple(vec![]).to_string(), "()");
}

#[test]
fn renders_a_comparison_that_lacks_arguments_in_front_of_them() {
    assert_eq!(op("<=", vec![variable("x")]).to_string(), "<= x");
    assert_eq!(op(">=", vec![]).to_string(), ">= ");
    assert_eq!(op("=", vec![variable("x")]).to_string(), "= x");
}

#[test]
fn renders_predicates() {
    assert_eq!(ElrondPred::True.to_string(), "true");
    assert_eq!(plain("a").to_string(), "a");
    assert_eq!(
        ElrondPred::Implies(Box::new(plain("a")), Box::new(plain("b"))).to_string(),
        "implies (a) (b)"
    );
    assert_eq!(
        ElrondPred::Iff(Box::new(plain("a")), Box::new(plain("b"))).to_string(),
        "iff (a) (b)"
    );
    assert_eq!(
        ElrondPred::Ite(Box::new(plain("c")), Box::new(plain("t")), Box::new(plain("e"))).to_string(),
        "(if c then t else e)"
    );
    assert_eq!(ElrondPred::Not(Box::new(plain("a"))).to_string(), "(!a)");
    assert_eq!(ElrondPred::And(vec![plain("a"), plain("b"), plain("c")]).to_string(), "(a && b && c)");
    assert_eq!(ElrondPred::Or(vec![plain("a"), plain("b")]).to_string(), "(a || b)");
    assert_eq!(
        ElrondPred::Not(Box::new(ElrondPred::And(vec![
            ElrondPred::Or(vec![plain("a"), plain("b")]),
            ElrondPred::True,
        ])))
        .to_string(),
        "(!((a || b) && true))"
    );
}

#[test]
fn renders_degenerate_conjunctions() {
    assert_eq!(ElrondPred::And(vec![]).to_string(), "()");
    assert_eq!(ElrondPred::Or(vec![plain("a")]).to_string(), "(a)");
}

#[test]
fn rendering_twice_gives_the_same_text() {
    let pred = ElrondPred::Iff(
        Box::new(ElrondPred::Or(vec![plain("a"), plain("b")])),
        Box::new(ElrondPred::Not(Box::new(plain("c")))),
    );
    assert_eq!(pred.to_string(), pred.to_string());
    let same = ElrondPred::Iff(
        Box::new(ElrondPred::Or(vec![plain("a"), plain("b")])),
        Box::new(ElrondPred::Not(Box::new(plain("c")))),
    );
    assert_eq!(pred.to_string(), same.to_string());
    assert_eq!(pred.to_string(), "iff ((a || b)) ((!c))");
}

#[test]
fn counts_the_nodes_of_a_predicate() {
    assert_eq!(ElrondPred::True.size(), 1);
    assert_eq!(plain("x").size(), 1);
    assert_eq!(ElrondPred::Atom(op("+", vec![number(1), number(2)])).size(), 1);
    assert_eq!(ElrondPred::Not(Box::new(plain("x"))).size(), 2);
    assert_eq!(ElrondPred::Implies(Box::new(plain("a")), Box::new(plain("b"))).size(), 3);
    assert_eq!(ElrondPred::Iff(Box::new(plain("a")), Box::new(plain("b"))).size(), 3);
    assert_eq!(
        ElrondPred::Ite(Box::new(plain("c")), Box::new(plain("t")), Box::new(plain("e"))).size(),
        4
    );
    assert_eq!(ElrondPred::And(vec![]).size(), 1);
    assert_eq!(ElrondPred::Or(vec![plain("a")]).size(), 2);
    let first = || ElrondPred::Not(Box::new(plain("x")));
    let second = || ElrondPred::True;
    let third = || ElrondPred::Or(vec![plain("a"), plain("b"), ElrondPred::Not(Box::new(plain("c")))]);
    assert_eq!(third().size(), 5);
    assert_eq!(
        ElrondPred::And(vec![first(), second(), third()]).size(),
        1 + first().size() + second().size() + third().size()
    );
    assert_eq!(ElrondPred::And(vec![first(), second(), third()]).size(), 9);
    assert_eq!(ElrondPred::And(vec![first(), second(), third()]).checked_size(), Some(9));
    assert_eq!(ElrondPred::True.checked_size(), Some(1));
    assert_eq!(
        ElrondPred::Ite(Box::new(plain("c")), Box::new(first()), Box::new(third())).checked_size(),
        Some(9)
    );
}

#[test]
fn renders_variables() {
    assert_eq!(FreeVar(ElrondType::Int, "x".to_string()).to_string(), "x : int");
    assert_eq!(FreeVar(ElrondType::IntList, "l".to_string()).to_string(), "l : int list");
    assert_eq!(
        ElrondTpedvar(AssertionType::Generic("T".to_string()), "l".to_string()).to_string(),
        "l : T"
    );
    assert_eq!(ElrondTpedvar(AssertionType::Bool, "b".to_string()).to_string(), "b : bool");
}

#[test]
fn renders_a_formula_without_quantified_variables_as_its_body() {
    let formula = ElrondForallFormula(vec![], ElrondPred::Not(Box::new(plain("a"))));
    assert_eq!(formula.to_string(), "(!a)");
}

#[test]
fn renders_quantified_variables_behind_forall() {
    let formula = ElrondForallFormula(vec![FreeVar(ElrondType::Int, "x".to_string())], plain("a"));
    assert_eq!(formula.to_string(), "forall x : int . a");
    let formula = ElrondForallFormula(
        vec![
            FreeVar(ElrondType::Int, "x".to_string()),
            FreeVar(ElrondType::Bool, "y".to_string()),
            FreeVar(ElrondType::IntTree, "t".to_string()),
        ],
        ElrondPred::True,
    );
    assert_eq!(formula.to_string(), "forall x : int,y : bool,t : int tree . true");
}

#[test]
fn renders_specifications() {
    let bare = ElrondSpec(vec![], ElrondForallFormula(vec![], ElrondPred::True));
    assert_eq!(bare.to_string(), "true");
    let spec = ElrondSpec(
        vec![
            ElrondTpedvar(AssertionType::Int, "u".to_string()),
            ElrondTpedvar(AssertionType::Generic("T".to_string()), "l".to_string()),
        ],
        ElrondForallFormula(vec![FreeVar(ElrondType::Int, "x".to_string())], plain("a")),
    );
    assert_eq!(spec.to_string(), "u : int,l : T \u{22a2} forall x : int . a");
    assert_eq!(
        spec.spec_writer_for_file(SpecKind::Pre),
        "let pre (u : int) (l : T) =\n  forall x : int . a\n"
    );
    assert_eq!(bare.spec_writer_for_file(SpecKind::Post), "let post  =\n  true\n");
}

#[test]
fn renders_results() {
    let cex = ElrondResult::Cex(vec![
        vec![
            (ElrondValue::L(vec![1, 2]), "x".to_string()),
            (ElrondValue::I(3), "y".to_string()),
        ],
        vec![],
        vec![(ElrondValue::NotADt, "z".to_string())],
    ]);
    assert_eq!(cex.to_string(), "Cex 0:\n\tx -> [1, 2]\n\ty -> 3\nCex 1:\nCex 2:\n\tz -> NotADt\n");
    assert_eq!(ElrondResult::Cex(vec![]).to_string(), "");
    let found = ElrondResult::Result(vec![
        (
            ElrondSpec(
                vec![ElrondTpedvar(AssertionType::Int, "x".to_string())],
                ElrondForallFormula(vec![], ElrondPred::True),
            ),
            "push".to_string(),
        ),
        (ElrondSpec(vec![], ElrondForallFormula(vec![], plain("a"))), "pop".to_string()),
    ]);
    assert_eq!(found.to_string(), "\tpush : x : int \u{22a2} true\n\tpop : a\n");
    assert_eq!(ElrondResult::Result(vec![]).to_string(), "");
}

#[test]
fn numbers_many_counterexamples() {
    let cex = ElrondResult::Cex((0..12).map(|_| vec![]).collect());
    let text = cex.to_string();
    assert!(text.starts_with("Cex 0:\nCex 1:\n"));
    assert!(text.ends_with("Cex 9:\nCex 10:\nCex 11:\n"));
}

#[test]
fn renders_messages() {
    assert_eq!(
        ElrondMessage::Message("hello World!".to_string()).to_string(),
        "Message: hello World!"
    );
    assert_eq!(
        ElrondMessage::Result(ElrondResult::Cex(vec![vec![(
            ElrondValue::B(true),
            "b".to_string()
        )]]))
        .to_string(),
        "Result:\nCex 0:\n\tb -> true\n"
    );
}

#[test]
fn renders_known_predicates() {
    assert_eq!(ElrondKnownPredicate::length.to_string(), "\"len\"");
    assert_eq!(ElrondKnownPredicate::sorted.to_string(), "\"sorted\"");
    assert_eq!(ElrondKnownPredicate::member.to_string(), "\"mem\"");
    assert_eq!(ElrondKnownPredicate::head.to_string(), "\"hd\"");
    assert_eq!(ElrondKnownPredicate::order.to_string(), "\"ord\"");
    assert_eq!(ElrondKnownPredicate::once.to_string(), "\"once\"");
    assert_eq!(ElrondKnownPredicate::left.to_string(), "\"left\"");
    assert_eq!(ElrondKnownPredicate::right.to_string(), "\"right\"");
    assert_eq!(ElrondKnownPredicate::para.to_string(), "\"para\"");
    assert_eq!(ElrondKnownPredicate::ance.to_string(), "\"ance\"");
    assert_eq!(ElrondKnownPredicate::root.to_string(), "\"root\"");
    assert_eq!(
        ElrondPredicates(vec![ElrondKnownPredicate::member, ElrondKnownPredicate::head])
            .to_string(),
        "let preds = [| \"mem\"; \"hd\" |]"
    );
    assert_eq!(ElrondPredicates(vec![]).to_string(), "let preds = [|  |]");
    assert_eq!(
        ElrondPredicates(vec![ElrondKnownPredicate::length]).to_string(),
        "let preds = [| \"len\" |]"
    );
}

#[test]
fn test_customstk_assertion1() {
    let stack = ElrondType::Generic("Customstk.t".to_string());
    let stack_arg = || AssertionType::Generic("Customstk.t".to_string());
    let whole = ElrondType::Int;
    let my_assertion = ElrondAssertion {
        preds: ElrondPredicates(vec![ElrondKnownPredicate::member, ElrondKnownPredicate::head]),
        pre_spec: None,
        post_spec: ElrondSpec(
            vec![
                ElrondTpedvar(stack_arg(), "l1".to_string()),
                ElrondTpedvar(stack_arg(), "l2".to_string()),
                ElrondTpedvar(stack_arg(), "l3".to_string()),
                ElrondTpedvar(AssertionType::Int, "u".to_string()),
            ],
            ElrondForallFormula(
                vec![],
                ElrondPred::And(vec![
                    ElrondPred::Iff(
                        Box::new(applied("mem", &[(&stack, "l3"), (&whole, "u")])),
                        Box::new(ElrondPred::Or(vec![
                            applied("mem", &[(&stack, "l1"), (&whole, "u")]),
                            applied("mem", &[(&stack, "l2"), (&whole, "u")]),
                        ])),
                    ),
                    ElrondPred::Implies(
                        Box::new(applied("hd", &[(&stack, "l3"), (&whole, "u")])),
                        Box::new(ElrondPred::Or(vec![
                            applied("hd", &[(&stack, "l1"), (&whole, "u")]),
                            applied("hd", &[(&stack, "l2"), (&whole, "u")]),
                        ])),
                    ),
                ]),
            ),
        ),
    };
    assert_eq!(
        my_assertion.to_string(),
        "let preds = [| \"mem\"; \"hd\" |]\n\
         \n\
         let post (l1 : Customstk.t) (l2 : Customstk.t) (l3 : Customstk.t) (u : int) =\n  \
         (iff (mem l3 u) ((mem l1 u || mem l2 u)) && implies (hd l3 u) ((hd l1 u || hd l2 u)))\n"
    );
}

#[test]
fn renders_a_file_with_a_precondition() {
    let spec = |body: ElrondPred| {
        ElrondSpec(
            vec![ElrondTpedvar(AssertionType::Int, "u".to_string())],
            ElrondForallFormula(vec![], body),
        )
    };
    let file = ElrondAssertion {
        preds: ElrondPredicates(vec![ElrondKnownPredicate::sorted]),
        pre_spec: Some(spec(ElrondPred::True)),
        post_spec: spec(ElrondPred::Not(Box::new(ElrondPred::True))),
    };
    assert_eq!(
        file.to_string(),
        "let preds = [| \"sorted\" |]\nlet pre (u : int) =\n  true\n\nlet post (u : int) =\n  (!true)\n"
    );
}
