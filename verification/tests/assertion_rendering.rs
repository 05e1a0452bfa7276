use arwen_elrond_ipc::ipc_assertion::{
    Assertion, AssertionFile, AssertionOp, AssertionPredicates, AssertionType, FreeVar, Pred,
    Spec, SpecKind, Tpedvar,
};

fn mem_of(args: &[&str]) -> Assertion {
    Assertion::Predicate(Pred::member, args.iter().map(|s| s.to_string()).collect())
}

#[test]
fn renders_assertion_types() {
    assert_eq!(AssertionType::Bool.to_string(), "bool");
    assert_eq!(AssertionType::Int.to_string(), "int");
    assert_eq!(AssertionType::Generic("Customstk.t".to_string()).to_string(), "Customstk.t");
}

#[test]
fn renders_comparison_symbols() {
    assert_eq!(AssertionOp::Eq.to_string(), "=");
    assert_eq!(AssertionOp::Le.to_string(), "<=");
    assert_eq!(AssertionOp::Ge.to_string(), ">=");
    assert_eq!(AssertionOp::Ne.to_string(), "!=");
    assert_eq!(AssertionOp::Lt.to_string(), "<");
    assert_eq!(AssertionOp::Gt.to_string(), ">");
}

#[test]
fn renders_predicate_symbols() {
    assert_eq!(Pred::length.to_string(), "len");
    assert_eq!(Pred::sorted.to_string(), "sorted");
    assert_eq!(Pred::member.to_string(), "mem");
    assert_eq!(Pred::head.to_string(), "hd");
    assert_eq!(Pred::order.to_string(), "ord");
    assert_eq!(Pred::once.to_string(), "once");
    assert_eq!(Pred::left.to_string(), "left");
    assert_eq!(Pred::right.to_string(), "right");
    assert_eq!(Pred::para.to_string(), "para");
    assert_eq!(Pred::ance.to_string(), "ance");
    assert_eq!(Pred::root.to_string(), "root");
    assert_eq!(SpecKind::Pre.to_string(), "pre");
    assert_eq!(SpecKind::Post.to_string(), "post");
}

#[test]
fn renders_assertions() {
    assert_eq!(Assertion::True.to_string(), "true");
    assert_eq!(mem_of(&["l1", "u"]).to_string(), "mem l1 u");
    assert_eq!(mem_of(&[]).to_string(), "mem ");
    assert_eq!(
        Assertion::Op(AssertionOp::Lt, "x".to_string(), "y".to_string()).to_string(),
        "x < y"
    );
    assert_eq!(
        Assertion::Implies(Box::new(mem_of(&["a"])), Box::new(Assertion::True)).to_string(),
        "implies (mem a) (true)"
    );
    assert_eq!(
        Assertion::Iff(Box::new(mem_of(&["a"])), Box::new(mem_of(&["b"]))).to_string(),
        "iff (mem a) (mem b)"
    );
    assert_eq!(Assertion::Not(Box::new(mem_of(&["a"]))).to_string(), "!mem a");
    assert_eq!(
        Assertion::And(vec![mem_of(&["a"]), mem_of(&["b"]), mem_of(&["c"])]).to_string(),
        "mem a && mem b && mem c"
    );
    assert_eq!(Assertion::Or(vec![mem_of(&["a"]), mem_of(&["b"])]).to_string(), "mem a || mem b");
    assert_eq!(Assertion::And(vec![]).to_string(), "");
    assert_eq!(Assertion::Or(vec![Assertion::True]).to_string(), "true");
}

#[test]
fn puts_parentheses_where_the_formula_needs_them() {
    let a = || mem_of(&["a"]);
    let b = || mem_of(&["b"]);
    let c = || mem_of(&["c"]);
    let or = |x: Assertion, y: Assertion| Assertion::Or(vec![x, y]);
    let and = |x: Assertion, y: Assertion| Assertion::And(vec![x, y]);
    let not = |x: Assertion| Assertion::Not(Box::new(x));
    assert_eq!(not(or(a(), b())).to_string(), "!(mem a || mem b)");
    assert_eq!(not(and(a(), b())).to_string(), "!(mem a && mem b)");
    assert_eq!(not(not(a())).to_string(), "!!mem a");
    assert_eq!(and(or(a(), b()), c()).to_string(), "(mem a || mem b) && mem c");
    assert_eq!(and(a(), or(b(), c())).to_string(), "mem a && (mem b || mem c)");
    assert_eq!(and(a(), and(b(), c())).to_string(), "mem a && (mem b && mem c)");
    assert_eq!(or(a(), or(b(), c())).to_string(), "mem a || (mem b || mem c)");
    assert_eq!(
        Assertion::And(vec![a(), or(b(), c()), and(a(), b()), not(c())]).to_string(),
        "mem a && (mem b || mem c) && (mem a && mem b) && !mem c"
    );
}

#[test]
fn puts_no_parentheses_where_the_formula_needs_none() {
    let a = || mem_of(&["a"]);
    let b = || mem_of(&["b"]);
    let c = || mem_of(&["c"]);
    let or = |x: Assertion, y: Assertion| Assertion::Or(vec![x, y]);
    let and = |x: Assertion, y: Assertion| Assertion::And(vec![x, y]);
    let not = |x: Assertion| Assertion::Not(Box::new(x));
    assert_eq!(and(and(a(), b()), c()).to_string(), "mem a && mem b && mem c");
    assert_eq!(or(or(a(), b()), c()).to_string(), "mem a || mem b || mem c");
    assert_eq!(or(and(a(), b()), c()).to_string(), "mem a && mem b || mem c");
    assert_eq!(or(a(), and(b(), not(c()))).to_string(), "mem a || mem b && !mem c");
    assert_eq!(
        Assertion::Iff(Box::new(a()), Box::new(or(b(), c()))).to_string(),
        "iff (mem a) (mem b || mem c)"
    );
    assert_eq!(
        not(Assertion::Implies(Box::new(and(a(), b())), Box::new(c()))).to_string(),
        "!implies (mem a && mem b) (mem c)"
    );
}

#[test]
fn renders_assertion_variables() {
    assert_eq!(FreeVar(AssertionType::Int, "x".to_string()).to_string(), "x : int");
    assert_eq!(Tpedvar(AssertionType::Int, "x".to_string()).to_string(), "(x : int)");
    assert_eq!(
        Tpedvar(AssertionType::Generic("T".to_string()), "l".to_string()).to_string(),
        "(l : T)"
    );
}

#[test]
fn renders_assertion_specifications() {
    let bare = Spec(vec![], mem_of(&["l"]));
    assert_eq!(bare.to_string(), "mem l");
    assert_eq!(bare.spec_writer_for_file(SpecKind::Pre), "let pre  =\n  mem l\n");
    let spec = Spec(
        vec![
            Tpedvar(AssertionType::Generic("T".to_string()), "l".to_string()),
            Tpedvar(AssertionType::Int, "u".to_string()),
        ],
        mem_of(&["l", "u"]),
    );
    assert_eq!(spec.to_string(), "(l : T) (u : int) \u{22a2} mem l u");
    assert_eq!(
        spec.spec_writer_for_file(SpecKind::Post),
        "let post (l : T) (u : int) =\n  mem l u\n"
    );
}

#[test]
fn renders_assertion_files() {
    assert_eq!(AssertionPredicates(vec![]).to_string(), "let preds = [|  |]");
    assert_eq!(
        AssertionPredicates(vec![Pred::member, Pred::head]).to_string(),
        "let preds = [| \"mem\"; \"hd\" |]"
    );
    assert_eq!(
        AssertionPredicates(vec![Pred::member, Pred::head, Pred::order]).to_string(),
        "let preds = [| \"mem\"; \"hd\"; \"ord\" |]"
    );
    let spec = |body: Assertion| Spec(vec![Tpedvar(AssertionType::Int, "u".to_string())], body);
    let file = AssertionFile {
        preds: AssertionPredicates(vec![Pred::member, Pred::head]),
        pre_spec: None,
        post_spec: spec(Assertion::True),
    };
    assert_eq!(
        file.to_string(),
        "let preds = [| \"mem\"; \"hd\" |]\n\nlet post (u : int) =\n  true\n"
    );
    let file = AssertionFile {
        preds: AssertionPredicates(vec![Pred::member]),
        pre_spec: None,
        post_spec: spec(Assertion::True),
    };
    assert_eq!(
        file.to_string(),
        "let preds = [| \"mem\" |]\n\nlet post (u : int) =\n  true\n"
    );
    let file = AssertionFile {
        preds: AssertionPredicates(vec![Pred::member]),
        pre_spec: Some(spec(mem_of(&["u"]))),
        post_spec: spec(Assertion::True),
    };
    assert_eq!(
        file.to_string(),
        "let preds = [| \"mem\" |]\nlet pre (u : int) =\n  mem u\n\nlet post (u : int) =\n  true\n"
    );
}
