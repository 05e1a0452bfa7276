use arwen_elrond_ipc::assertion_parser::{
    parse_assertion, parse_assertion_file, parse_post_spec, parse_pre_spec, parse_type,
    ParseError,
};
use arwen_elrond_ipc::ipc_assertion::{
    Assertion, AssertionFile, AssertionOp, AssertionPredicates, AssertionType, Pred, Spec,
    SpecKind, Tpedvar,
};

fn member_of(args: &[&str]) -> Assertion {
    Assertion::Predicate(Pred::member, args.iter().map(|s| s.to_string()).collect())
}

fn compare(op: AssertionOp, lhs: &str, rhs: &str) -> Assertion {
    Assertion::Op(op, lhs.to_string(), rhs.to_string())
}

fn both(lhs: Assertion, rhs: Assertion) -> Assertion {
    Assertion::And(vec![lhs, rhs])
}

fn either(lhs: Assertion, rhs: Assertion) -> Assertion {
    Assertion::Or(vec![lhs, rhs])
}

fn negated(inner: Assertion) -> Assertion {
    Assertion::Not(Box::new(inner))
}

fn declared() -> Vec<Tpedvar> {
    vec![
        Tpedvar(AssertionType::Generic("Customstk.t".to_string()), "l".to_string()),
        Tpedvar(AssertionType::Int, "u".to_string()),
        Tpedvar(AssertionType::Bool, "v".to_string()),
    ]
}

fn parsed_forms() -> Vec<Assertion> {
    let l = || member_of(&["l"]);
    let u = || member_of(&["u"]);
    let v = || member_of(&["v"]);
    vec![
        Assertion::True,
        member_of(&[]),
        member_of(&["l", "u"]),
        compare(AssertionOp::Eq, "u", "v"),
        compare(AssertionOp::Ne, "u", "v"),
        compare(AssertionOp::Le, "u", "v"),
        compare(AssertionOp::Ge, "u", "v"),
        compare(AssertionOp::Lt, "u", "v"),
        compare(AssertionOp::Gt, "u", "v"),
        negated(negated(l())),
        negated(compare(AssertionOp::Eq, "u", "v")),
        negated(either(l(), u())),
        negated(both(l(), u())),
        both(both(l(), compare(AssertionOp::Le, "u", "v")), Assertion::True),
        both(either(l(), u()), v()),
        both(l(), either(u(), v())),
        both(l(), both(u(), v())),
        either(l(), either(u(), v())),
        either(both(l(), u()), negated(either(v(), l()))),
        either(
            either(both(l(), u()), negated(v())),
            both(Assertion::True, member_of(&[])),
        ),
        both(either(l(), u()), negated(both(v(), compare(AssertionOp::Lt, "u", "v")))),
        Assertion::Implies(
            Box::new(either(l(), u())),
            Box::new(Assertion::Iff(Box::new(both(l(), u())), Box::new(negated(Assertion::True)))),
        ),
    ]
}

#[test]
fn a_formula_reads_back() {
    for formula in parsed_forms() {
        assert_eq!(parse_assertion(&formula.to_string()), Ok(formula));
    }
}

#[test]
fn a_negated_disjunction_reads_back() {
    let a = member_of(&["l1", "u"]);
    let b = member_of(&["l2", "u"]);
    let parsed = parse_assertion("(!(mem l1 u || mem l2 u))").unwrap();
    assert_eq!(parsed, negated(either(a, b)));
    assert_eq!(parsed.to_string(), "!(mem l1 u || mem l2 u)");
    assert_eq!(parse_assertion(&parsed.to_string()), Ok(parsed));
}

#[test]
fn a_conjunction_over_a_disjunction_reads_back() {
    let parsed = parse_assertion("(mem l1 u || mem l2 u) && mem l3 u").unwrap();
    assert_eq!(
        parsed,
        both(
            either(member_of(&["l1", "u"]), member_of(&["l2", "u"])),
            member_of(&["l3", "u"]),
        )
    );
    assert_eq!(parsed.to_string(), "(mem l1 u || mem l2 u) && mem l3 u");
    assert_eq!(parse_assertion(&parsed.to_string()), Ok(parsed));
}

#[test]
fn what_parses_reads_back() {
    let texts = [
        "true",
        "sorted",
        "mem l1 u || mem l2 u && !mem l3 u",
        "iff (mem l3 u) (mem l1 u || mem l2 u)",
        "((mem a))",
        "!(!(mem a))",
        "(mem a || mem b) && (mem c || (mem d && mem e))",
        "mem a || (mem b || mem c) || mem d",
        "mem a && (mem b && mem c) && mem d",
        "!(x = y) && !(x != y || x < y)",
        "implies ((mem a)) (iff (true) (!(mem b && x >= y)))",
    ];
    for text in texts {
        let parsed = parse_assertion(text).unwrap();
        assert_eq!(parse_assertion(&parsed.to_string()), Ok(parsed));
    }
}

#[test]
fn a_text_that_needs_no_parentheses_is_written_as_it_was() {
    for text in [
        "iff (mem l3 u) (mem l1 u || mem l2 u)",
        "mem l1 u || mem l2 u && !mem l3 u",
        "iff (mem l3 u) (mem l1 u || mem l2 u) && implies (hd l3 u) (hd l1 u || hd l2 u)",
    ] {
        assert_eq!(parse_assertion(text).unwrap().to_string(), text);
    }
}

#[test]
fn a_formula_of_another_form_does_not_read_back() {
    let flat = Assertion::Or(vec![member_of(&["l"]), member_of(&["u"]), member_of(&["v"])]);
    assert_eq!(
        parse_assertion(&flat.to_string()),
        Ok(either(either(member_of(&["l"]), member_of(&["u"])), member_of(&["v"])))
    );
    let reserved = member_of(&["l", "true"]);
    assert_eq!(
        parse_assertion(&reserved.to_string()),
        Err(ParseError::Syntax { index: 2, offset: 6 })
    );
}

#[test]
fn a_type_reads_back() {
    for ty in [
        AssertionType::Int,
        AssertionType::Bool,
        AssertionType::Generic("Customstk.t".to_string()),
        AssertionType::Generic("t'".to_string()),
    ] {
        assert_eq!(parse_type(&ty.to_string()), Ok(ty));
    }
    assert_eq!(
        parse_type(&AssertionType::Generic("int".to_string()).to_string()),
        Ok(AssertionType::Int)
    );
}

#[test]
fn a_specification_reads_back_from_its_let() {
    for formula in parsed_forms() {
        let spec = Spec(declared(), formula);
        assert_eq!(parse_pre_spec(&spec.spec_writer_for_file(SpecKind::Pre)), Ok(spec));
    }
    for formula in parsed_forms() {
        let spec = Spec(vec![], formula);
        assert_eq!(parse_post_spec(&spec.spec_writer_for_file(SpecKind::Post)), Ok(spec));
    }
}

#[test]
fn a_file_reads_back() {
    for formula in parsed_forms() {
        let file = AssertionFile {
            preds: AssertionPredicates(vec![Pred::member, Pred::head, Pred::root]),
            pre_spec: Some(Spec(declared(), formula)),
            post_spec: Spec(declared(), member_of(&["l", "u"])),
        };
        let read = parse_assertion_file(&file.to_string()).unwrap();
        assert_eq!(read.preds, file.preds);
        assert_eq!(read.pre_spec, file.pre_spec);
        assert_eq!(read.post_spec, file.post_spec);
    }
    let file = AssertionFile {
        preds: AssertionPredicates(vec![]),
        pre_spec: None,
        post_spec: Spec(vec![], Assertion::True),
    };
    let read = parse_assertion_file(&file.to_string()).unwrap();
    assert_eq!(read.preds, file.preds);
    assert_eq!(read.pre_spec, None);
    assert_eq!(read.post_spec, file.post_spec);
}

#[test]
fn a_parsed_file_reads_back() {
    let text = "let preds = [| \"mem\"; hd |]\n\
                let pre (l : Customstk.t) (u : int) = !(mem l u || hd l u)\n\
                let post (l : Customstk.t) (u : int) = (mem l u || hd l u) && u = u\n";
    let file = parse_assertion_file(text).unwrap();
    assert_eq!(
        file.to_string(),
        "let preds = [| \"mem\"; \"hd\" |]\n\
         let pre (l : Customstk.t) (u : int) =\n  !(mem l u || hd l u)\n\
         \n\
         let post (l : Customstk.t) (u : int) =\n  (mem l u || hd l u) && u = u\n"
    );
    let read = parse_assertion_file(&file.to_string()).unwrap();
    assert_eq!(read.preds, file.preds);
    assert_eq!(read.pre_spec, file.pre_spec);
    assert_eq!(read.post_spec, file.post_spec);
}

#[test]
fn a_predicate_of_the_engine_reads_back() {
    for formula in parsed_forms() {
        let typed = formula.to_elrond(&declared()).unwrap();
        let read = parse_assertion(&typed.to_string()).unwrap();
        assert_eq!(read, formula);
        assert_eq!(read.to_elrond(&declared()), Some(typed));
    }
}

#[test]
fn every_comparison_of_the_engine_reads_back() {
    let cases = [
        (AssertionOp::Eq, "(u = v)"),
        (AssertionOp::Ne, "(u != v)"),
        (AssertionOp::Le, "(u <= v)"),
        (AssertionOp::Ge, "(u >= v)"),
        (AssertionOp::Lt, "(u < v)"),
        (AssertionOp::Gt, "(u > v)"),
    ];
    for (op, text) in cases {
        let formula = compare(op, "u", "v");
        let typed = formula.to_elrond(&declared()).unwrap();
        assert_eq!(typed.to_string(), text);
        assert_eq!(parse_assertion(&typed.to_string()), Ok(formula));
    }
}

#[test]
fn a_specification_of_the_engine_reads_back() {
    for formula in parsed_forms() {
        let spec = Spec(declared(), formula);
        let typed = spec.to_elrond().unwrap();
        assert_eq!(parse_post_spec(&typed.spec_writer_for_file(SpecKind::Post)), Ok(spec));
    }
}

#[test]
fn a_file_of_the_engine_reads_back() {
    for formula in parsed_forms() {
        let file = AssertionFile {
            preds: AssertionPredicates(vec![Pred::member, Pred::length]),
            pre_spec: Some(Spec(declared(), Assertion::True)),
            post_spec: Spec(declared(), formula),
        };
        let typed = file.to_elrond().unwrap();
        let read = parse_assertion_file(&typed.to_string()).unwrap();
        assert_eq!(read.preds, file.preds);
        assert_eq!(read.pre_spec, file.pre_spec);
        assert_eq!(read.post_spec, file.post_spec);
        assert_eq!(read.to_elrond().unwrap().to_string(), typed.to_string());
    }
}
