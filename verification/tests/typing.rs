use arwen_elrond_ipc::ipc::{
    ElrondAssertion, ElrondForallFormula, ElrondKnownPredicate, ElrondPred, ElrondPredicates,
    ElrondSimpleExpr, ElrondSpec, ElrondTpedvar, ElrondType,
};
use arwen_elrond_ipc::ipc_assertion::{
    Assertion, AssertionFile, AssertionOp, AssertionPredicates, AssertionType, Pred, Spec, Tpedvar,
};

fn typing_args() -> Vec<Tpedvar> {
    vec![
        Tpedvar(AssertionType::Generic("T".to_string()), "l".to_string()),
        Tpedvar(AssertionType::Int, "u".to_string()),
        Tpedvar(AssertionType::Bool, "b".to_string()),
        Tpedvar(AssertionType::Int, "l".to_string()),
    ]
}

fn typed_var(ty: ElrondType, name: &str) -> ElrondSimpleExpr {
    ElrondSimpleExpr::Var(ty, name.to_string())
}

fn generic() -> ElrondType {
    ElrondType::Generic("T".to_string())
}

#[test]
fn types_and_symbols_keep_their_meaning() {
    assert_eq!(AssertionType::Bool.to_elrond(), ElrondType::Bool);
    assert_eq!(AssertionType::Int.to_elrond(), ElrondType::Int);
    assert_eq!(AssertionType::Generic("T".to_string()).to_elrond(), generic());
    assert_eq!(Pred::length.to_elrond(), ElrondKnownPredicate::length);
    assert_eq!(Pred::sorted.to_elrond(), ElrondKnownPredicate::sorted);
    assert_eq!(Pred::member.to_elrond(), ElrondKnownPredicate::member);
    assert_eq!(Pred::head.to_elrond(), ElrondKnownPredicate::head);
    assert_eq!(Pred::order.to_elrond(), ElrondKnownPredicate::order);
    assert_eq!(Pred::once.to_elrond(), ElrondKnownPredicate::once);
    assert_eq!(Pred::left.to_elrond(), ElrondKnownPredicate::left);
    assert_eq!(Pred::right.to_elrond(), ElrondKnownPredicate::right);
    assert_eq!(Pred::para.to_elrond(), ElrondKnownPredicate::para);
    assert_eq!(Pred::ance.to_elrond(), ElrondKnownPredicate::ance);
    assert_eq!(Pred::root.to_elrond(), ElrondKnownPredicate::root);
}

#[test]
fn a_predicate_becomes_an_atom_over_typed_variables() {
    let formula =
        Assertion::Predicate(Pred::head, vec!["l".to_string(), "u".to_string(), "b".to_string()]);
    assert_eq!(
        formula.to_elrond(&typing_args()),
        Some(ElrondPred::Atom(ElrondSimpleExpr::Op(
            ElrondType::Bool,
            "hd".to_string(),
            vec![typed_var(generic(), "l"), typed_var(ElrondType::Int, "u"), typed_var(ElrondType::Bool, "b")],
        )))
    );
    assert_eq!(
        Assertion::Predicate(Pred::sorted, vec![]).to_elrond(&vec![]),
        Some(ElrondPred::Atom(ElrondSimpleExpr::Op(
            ElrondType::Bool,
            "sorted".to_string(),
            vec![]
        )))
    );
}

#[test]
fn a_comparison_becomes_an_atom_over_its_symbol() {
    let cases = [
        (AssertionOp::Eq, "="),
        (AssertionOp::Ne, "!="),
        (AssertionOp::Le, "<="),
        (AssertionOp::Ge, ">="),
        (AssertionOp::Lt, "<"),
        (AssertionOp::Gt, ">"),
    ];
    for (op, symbol) in cases {
        assert_eq!(
            Assertion::Op(op, "u".to_string(), "l".to_string()).to_elrond(&typing_args()),
            Some(ElrondPred::Atom(ElrondSimpleExpr::Op(
                ElrondType::Bool,
                symbol.to_string(),
                vec![typed_var(ElrondType::Int, "u"), typed_var(generic(), "l")],
            )))
        );
    }
}

#[test]
fn connectives_stay_and_keep_their_order() {
    let u = || Assertion::Predicate(Pred::once, vec!["u".to_string()]);
    let b = || Assertion::Predicate(Pred::root, vec!["b".to_string()]);
    let typed_u = || {
        ElrondPred::Atom(ElrondSimpleExpr::Op(
            ElrondType::Bool,
            "once".to_string(),
            vec![typed_var(ElrondType::Int, "u")],
        ))
    };
    let typed_b = || {
        ElrondPred::Atom(ElrondSimpleExpr::Op(
            ElrondType::Bool,
            "root".to_string(),
            vec![typed_var(ElrondType::Bool, "b")],
        ))
    };
    let formula = Assertion::And(vec![
        Assertion::True,
        Assertion::Not(Box::new(u())),
        Assertion::Or(vec![b(), u(), b()]),
        Assertion::Implies(Box::new(u()), Box::new(b())),
        Assertion::Iff(Box::new(b()), Box::new(u())),
    ]);
    assert_eq!(
        formula.to_elrond(&typing_args()),
        Some(ElrondPred::And(vec![
            ElrondPred::True,
            ElrondPred::Not(Box::new(typed_u())),
            ElrondPred::Or(vec![typed_b(), typed_u(), typed_b()]),
            ElrondPred::Implies(Box::new(typed_u()), Box::new(typed_b())),
            ElrondPred::Iff(Box::new(typed_b()), Box::new(typed_u())),
        ]))
    );
    assert_eq!(Assertion::And(vec![]).to_elrond(&vec![]), Some(ElrondPred::And(vec![])));
}

#[test]
fn a_variable_that_no_argument_declares_gives_nothing() {
    let x = || Assertion::Predicate(Pred::member, vec!["u".to_string(), "x".to_string()]);
    assert_eq!(x().to_elrond(&typing_args()), None);
    assert_eq!(Assertion::Op(AssertionOp::Lt, "x".to_string(), "u".to_string()).to_elrond(&typing_args()), None);
    assert_eq!(Assertion::Op(AssertionOp::Lt, "u".to_string(), "x".to_string()).to_elrond(&typing_args()), None);
    assert_eq!(Assertion::Not(Box::new(x())).to_elrond(&typing_args()), None);
    assert_eq!(Assertion::Implies(Box::new(Assertion::True), Box::new(x())).to_elrond(&typing_args()), None);
    assert_eq!(Assertion::Iff(Box::new(x()), Box::new(Assertion::True)).to_elrond(&typing_args()), None);
    assert_eq!(Assertion::And(vec![Assertion::True, x()]).to_elrond(&typing_args()), None);
    assert_eq!(Assertion::Or(vec![x(), Assertion::True]).to_elrond(&typing_args()), None);
    assert_eq!(Spec(vec![], x()).to_elrond(), None);
}

#[test]
fn a_specification_stands_under_an_empty_prefix() {
    let spec = Spec(
        vec![Tpedvar(AssertionType::Int, "u".to_string())],
        Assertion::Predicate(Pred::once, vec!["u".to_string()]),
    );
    let typed = spec.to_elrond().unwrap();
    assert_eq!(
        typed,
        ElrondSpec(
            vec![ElrondTpedvar(AssertionType::Int, "u".to_string())],
            ElrondForallFormula(
                vec![],
                ElrondPred::Atom(ElrondSimpleExpr::Op(
                    ElrondType::Bool,
                    "once".to_string(),
                    vec![typed_var(ElrondType::Int, "u")],
                )),
            ),
        )
    );
    assert_eq!(typed.1.to_string(), "once u");
}

#[test]
fn a_file_keeps_its_parts() {
    let spec = |body: Assertion| Spec(vec![Tpedvar(AssertionType::Int, "u".to_string())], body);
    let typed = |body: ElrondPred| {
        ElrondSpec(
            vec![ElrondTpedvar(AssertionType::Int, "u".to_string())],
            ElrondForallFormula(vec![], body),
        )
    };
    let file = AssertionFile {
        preds: AssertionPredicates(vec![Pred::once, Pred::length]),
        pre_spec: Some(spec(Assertion::True)),
        post_spec: spec(Assertion::Not(Box::new(Assertion::True))),
    };
    let ElrondAssertion { preds, pre_spec, post_spec } = file.to_elrond().unwrap();
    assert_eq!(
        preds,
        ElrondPredicates(vec![ElrondKnownPredicate::once, ElrondKnownPredicate::length])
    );
    assert_eq!(pre_spec, Some(typed(ElrondPred::True)));
    assert_eq!(post_spec, typed(ElrondPred::Not(Box::new(ElrondPred::True))));
    let open = AssertionFile {
        preds: AssertionPredicates(vec![]),
        pre_spec: Some(spec(Assertion::Predicate(Pred::once, vec!["v".to_string()]))),
        post_spec: spec(Assertion::True),
    };
    assert!(open.to_elrond().is_none());
    let open = AssertionFile {
        preds: AssertionPredicates(vec![]),
        pre_spec: None,
        post_spec: spec(Assertion::Predicate(Pred::once, vec!["v".to_string()])),
    };
    assert!(open.to_elrond().is_none());
}
