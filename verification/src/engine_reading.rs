//! What the grammar makes of the tokens that spell a formula in the engine's
//! syntax, where every compound formula stands between parentheses.

use crate::grammar::{
    kind_token, parse_assertion, parse_conjunction, parse_conjunction_tail, parse_disjunction,
    parse_disjunction_tail, parse_enclosed, parse_file, parse_group, parse_primary, parse_spec,
    parse_unary,
};
use crate::ipc_assertion::{AssertionFileView, AssertionOp, AssertionView, SpecKind, SpecView};
use crate::lexer::TokenView;
use crate::reading::{
    args_onto, cons, ends_formula, ends_names, is_binary, lemma_cons, lemma_names_longer,
    lemma_parse_args, lemma_parse_names, lemma_parse_preds, names_onto, preds_onto,
};
use vstd::prelude::*;

verus! {

/// The tokens that spell a formula in the engine's syntax, in front of
/// `rest`: a comparison, a negation, a conjunction and a disjunction stand
/// between parentheses.
pub open spec fn engine_tokens_onto(formula: AssertionView, rest: Seq<TokenView>) -> Seq<
    TokenView,
>
    decreases formula, 0nat,
{
    match formula {
        AssertionView::True => cons(TokenView::True, rest),
        AssertionView::Predicate(pred, args) => cons(
            TokenView::Predicate(pred),
            names_onto(args, rest),
        ),
        AssertionView::Op(op, lhs, rhs) => cons(
            TokenView::LParen,
            cons(
                TokenView::Name(lhs),
                cons(
                    TokenView::Compare(op),
                    cons(TokenView::Name(rhs), cons(TokenView::RParen, rest)),
                ),
            ),
        ),
        AssertionView::Implies(lhs, rhs) => cons(
            TokenView::Implies,
            engine_group_onto(*lhs, engine_group_onto(*rhs, rest)),
        ),
        AssertionView::Iff(lhs, rhs) => cons(
            TokenView::Iff,
            engine_group_onto(*lhs, engine_group_onto(*rhs, rest)),
        ),
        AssertionView::Not(inner) => cons(
            TokenView::LParen,
            cons(TokenView::Not, engine_tokens_onto(*inner, cons(TokenView::RParen, rest))),
        ),
        AssertionView::And(items) => if items.len() == 2 {
            cons(
                TokenView::LParen,
                engine_tokens_onto(
                    items[0],
                    cons(
                        TokenView::And,
                        engine_tokens_onto(items[1], cons(TokenView::RParen, rest)),
                    ),
                ),
            )
        } else {
            rest
        },
        AssertionView::Or(items) => if items.len() == 2 {
            cons(
                TokenView::LParen,
                engine_tokens_onto(
                    items[0],
                    cons(
                        TokenView::Or,
                        engine_tokens_onto(items[1], cons(TokenView::RParen, rest)),
                    ),
                ),
            )
        } else {
            rest
        },
    }
}

/// The engine's tokens of a formula between `(` and `)`, in front of `rest`.
pub open spec fn engine_group_onto(formula: AssertionView, rest: Seq<TokenView>) -> Seq<
    TokenView,
>
    decreases formula, 1nat,
{
    cons(TokenView::LParen, engine_tokens_onto(formula, cons(TokenView::RParen, rest)))
}

/// The engine's tokens of a formula are at least one, and the first is not
/// `!`.
pub proof fn lemma_engine_front(formula: AssertionView, rest: Seq<TokenView>)
    requires
        is_binary(formula),
    ensures
        engine_tokens_onto(formula, rest).len() > rest.len(),
        engine_tokens_onto(formula, rest)[0] != TokenView::Not,
    decreases formula,
{
    let closing = cons(TokenView::RParen, rest);
    lemma_cons(TokenView::RParen, rest);
    match formula {
        AssertionView::True => {
            lemma_cons(TokenView::True, rest);
        },
        AssertionView::Predicate(pred, args) => {
            lemma_names_longer(args, rest);
            lemma_cons(TokenView::Predicate(pred), names_onto(args, rest));
        },
        AssertionView::Op(op, lhs, rhs) => {
            let fourth = cons(TokenView::Name(rhs), closing);
            let third = cons(TokenView::Compare(op), fourth);
            let second = cons(TokenView::Name(lhs), third);
            lemma_cons(TokenView::Name(rhs), closing);
            lemma_cons(TokenView::Compare(op), fourth);
            lemma_cons(TokenView::Name(lhs), third);
            lemma_cons(TokenView::LParen, second);
        },
        AssertionView::Implies(lhs, rhs) => {
            let second = engine_group_onto(*rhs, rest);
            lemma_engine_front(*rhs, closing);
            lemma_cons(TokenView::LParen, engine_tokens_onto(*rhs, closing));
            let middle = cons(TokenView::RParen, second);
            lemma_cons(TokenView::RParen, second);
            lemma_engine_front(*lhs, middle);
            lemma_cons(TokenView::LParen, engine_tokens_onto(*lhs, middle));
            lemma_cons(TokenView::Implies, engine_group_onto(*lhs, second));
        },
        AssertionView::Iff(lhs, rhs) => {
            let second = engine_group_onto(*rhs, rest);
            lemma_engine_front(*rhs, closing);
            lemma_cons(TokenView::LParen, engine_tokens_onto(*rhs, closing));
            let middle = cons(TokenView::RParen, second);
            lemma_cons(TokenView::RParen, second);
            lemma_engine_front(*lhs, middle);
            lemma_cons(TokenView::LParen, engine_tokens_onto(*lhs, middle));
            lemma_cons(TokenView::Iff, engine_group_onto(*lhs, second));
        },
        AssertionView::Not(inner) => {
            let inside = engine_tokens_onto(*inner, closing);
            lemma_engine_front(*inner, closing);
            lemma_cons(TokenView::Not, inside);
            lemma_cons(TokenView::LParen, cons(TokenView::Not, inside));
        },
        AssertionView::And(items) => {
            let second = engine_tokens_onto(items[1], closing);
            let behind = cons(TokenView::And, second);
            lemma_engine_front(items[1], closing);
            lemma_cons(TokenView::And, second);
            lemma_engine_front(items[0], behind);
            lemma_cons(TokenView::LParen, engine_tokens_onto(items[0], behind));
        },
        AssertionView::Or(items) => {
            let second = engine_tokens_onto(items[1], closing);
            let behind = cons(TokenView::Or, second);
            lemma_engine_front(items[1], closing);
            lemma_cons(TokenView::Or, second);
            lemma_engine_front(items[0], behind);
            lemma_cons(TokenView::LParen, engine_tokens_onto(items[0], behind));
        },
    }
}

/// A negation or atom that is read up to a token at which a formula ends is
/// a whole formula.
proof fn lemma_unary_is_formula(ts: Seq<TokenView>, formula: AssertionView, rest: Seq<TokenView>)
    requires
        parse_unary(ts) == Ok::<(AssertionView, Seq<TokenView>), nat>((formula, rest)),
        rest.len() <= ts.len(),
        ends_formula(rest),
    ensures
        parse_conjunction(ts) == Ok::<(AssertionView, Seq<TokenView>), nat>((formula, rest)),
        parse_assertion(ts) == Ok::<(AssertionView, Seq<TokenView>), nat>((formula, rest)),
{
    assert(parse_conjunction_tail(formula, rest) == Ok::<(AssertionView, Seq<TokenView>), nat>(
        (formula, rest),
    ));
    assert(parse_conjunction(ts) == Ok::<(AssertionView, Seq<TokenView>), nat>((formula, rest)));
    assert(parse_disjunction_tail(formula, rest) == Ok::<(AssertionView, Seq<TokenView>), nat>(
        (formula, rest),
    ));
    assert(parse_disjunction(ts) == Ok::<(AssertionView, Seq<TokenView>), nat>((formula, rest)));
}

/// A formula that is read up to `)` is what stands between the parentheses.
proof fn lemma_closed(ts: Seq<TokenView>, formula: AssertionView, rest: Seq<TokenView>)
    requires
        parse_assertion(ts) == Ok::<(AssertionView, Seq<TokenView>), nat>(
            (formula, cons(TokenView::RParen, rest)),
        ),
    ensures
        parse_enclosed(ts) == Ok::<(AssertionView, Seq<TokenView>), nat>((formula, rest)),
        parse_primary(cons(TokenView::LParen, ts)) == Ok::<(AssertionView, Seq<TokenView>), nat>(
            (formula, rest),
        ),
        parse_group(cons(TokenView::LParen, ts)) == Ok::<(AssertionView, Seq<TokenView>), nat>(
            (formula, rest),
        ),
{
    lemma_cons(TokenView::RParen, rest);
    lemma_cons(TokenView::LParen, ts);
}

/// The engine's tokens of a formula are read as an atom: the formula.
pub proof fn lemma_parse_engine_primary(formula: AssertionView, rest: Seq<TokenView>)
    requires
        is_binary(formula),
        ends_names(rest),
    ensures
        parse_primary(engine_tokens_onto(formula, rest)) == Ok::<
            (AssertionView, Seq<TokenView>),
            nat,
        >((formula, rest)),
    decreases formula, 1nat,
{
    let closing = cons(TokenView::RParen, rest);
    lemma_cons(TokenView::RParen, rest);
    match formula {
        AssertionView::True => {
            lemma_cons(TokenView::True, rest);
        },
        AssertionView::Predicate(pred, args) => {
            lemma_cons(TokenView::Predicate(pred), names_onto(args, rest));
            lemma_parse_names(args, rest);
        },
        AssertionView::Op(op, lhs, rhs) => {
            let third = cons(TokenView::Name(rhs), closing);
            let second = cons(TokenView::Compare(op), third);
            let inside = cons(TokenView::Name(lhs), second);
            lemma_cons(TokenView::Name(rhs), closing);
            lemma_cons(TokenView::Compare(op), third);
            lemma_cons(TokenView::Name(lhs), second);
            assert(inside[1] == second[0]);
            assert(inside[2] == third[0]);
            assert(inside.skip(3) =~= closing);
            assert(parse_primary(inside) == Ok::<(AssertionView, Seq<TokenView>), nat>(
                (formula, closing),
            ));
            assert(parse_unary(inside) == Ok::<(AssertionView, Seq<TokenView>), nat>(
                (formula, closing),
            ));
            lemma_unary_is_formula(inside, formula, closing);
            lemma_closed(inside, formula, rest);
        },
        AssertionView::Implies(lhs, rhs) => {
            let second = engine_group_onto(*rhs, rest);
            lemma_cons(TokenView::Implies, engine_group_onto(*lhs, second));
            lemma_parse_engine_group(*lhs, second);
            lemma_parse_engine_group(*rhs, rest);
            lemma_engine_front(*lhs, cons(TokenView::RParen, second));
            lemma_cons(
                TokenView::LParen,
                engine_tokens_onto(*lhs, cons(TokenView::RParen, second)),
            );
            lemma_cons(TokenView::RParen, second);
        },
        AssertionView::Iff(lhs, rhs) => {
            let second = engine_group_onto(*rhs, rest);
            lemma_cons(TokenView::Iff, engine_group_onto(*lhs, second));
            lemma_parse_engine_group(*lhs, second);
            lemma_parse_engine_group(*rhs, rest);
            lemma_engine_front(*lhs, cons(TokenView::RParen, second));
            lemma_cons(
                TokenView::LParen,
                engine_tokens_onto(*lhs, cons(TokenView::RParen, second)),
            );
            lemma_cons(TokenView::RParen, second);
        },
        AssertionView::Not(inner) => {
            let negated = engine_tokens_onto(*inner, closing);
            let inside = cons(TokenView::Not, negated);
            lemma_cons(TokenView::Not, negated);
            lemma_parse_engine_unary(*inner, closing);
            lemma_engine_front(*inner, closing);
            assert(parse_unary(inside) == Ok::<(AssertionView, Seq<TokenView>), nat>(
                (formula, closing),
            ));
            lemma_unary_is_formula(inside, formula, closing);
            lemma_closed(inside, formula, rest);
        },
        AssertionView::And(items) => {
            let second = engine_tokens_onto(items[1], closing);
            let behind = cons(TokenView::And, second);
            let inside = engine_tokens_onto(items[0], behind);
            lemma_cons(TokenView::And, second);
            lemma_parse_engine_unary(items[0], behind);
            lemma_parse_engine_unary(items[1], closing);
            lemma_engine_front(items[0], behind);
            lemma_engine_front(items[1], closing);
            assert(seq![items[0], items[1]] =~= items);
            assert(parse_conjunction_tail(formula, closing) == Ok::<
                (AssertionView, Seq<TokenView>),
                nat,
            >((formula, closing)));
            assert(parse_conjunction_tail(items[0], behind) == Ok::<
                (AssertionView, Seq<TokenView>),
                nat,
            >((formula, closing)));
            assert(parse_conjunction(inside) == Ok::<(AssertionView, Seq<TokenView>), nat>(
                (formula, closing),
            ));
            assert(parse_disjunction_tail(formula, closing) == Ok::<
                (AssertionView, Seq<TokenView>),
                nat,
            >((formula, closing)));
            assert(parse_disjunction(inside) == Ok::<(AssertionView, Seq<TokenView>), nat>(
                (formula, closing),
            ));
            lemma_closed(inside, formula, rest);
        },
        AssertionView::Or(items) => {
            let second = engine_tokens_onto(items[1], closing);
            let behind = cons(TokenView::Or, second);
            let inside = engine_tokens_onto(items[0], behind);
            lemma_cons(TokenView::Or, second);
            lemma_parse_engine_unary(items[0], behind);
            lemma_parse_engine_unary(items[1], closing);
            lemma_engine_front(items[0], behind);
            lemma_engine_front(items[1], closing);
            assert(seq![items[0], items[1]] =~= items);
            assert(parse_conjunction_tail(items[0], behind) == Ok::<
                (AssertionView, Seq<TokenView>),
                nat,
            >((items[0], behind)));
            assert(parse_conjunction(inside) == Ok::<(AssertionView, Seq<TokenView>), nat>(
                (items[0], behind),
            ));
            lemma_unary_is_formula(second, items[1], closing);
            assert(parse_disjunction_tail(formula, closing) == Ok::<
                (AssertionView, Seq<TokenView>),
                nat,
            >((formula, closing)));
            assert(parse_disjunction_tail(items[0], behind) == Ok::<
                (AssertionView, Seq<TokenView>),
                nat,
            >((formula, closing)));
            assert(parse_disjunction(inside) == Ok::<(AssertionView, Seq<TokenView>), nat>(
                (formula, closing),
            ));
            lemma_closed(inside, formula, rest);
        },
    }
}

/// The engine's tokens of a formula are read as a negation or atom: the
/// formula.
pub proof fn lemma_parse_engine_unary(formula: AssertionView, rest: Seq<TokenView>)
    requires
        is_binary(formula),
        ends_names(rest),
    ensures
        parse_unary(engine_tokens_onto(formula, rest)) == Ok::<
            (AssertionView, Seq<TokenView>),
            nat,
        >((formula, rest)),
    decreases formula, 2nat,
{
    lemma_parse_engine_primary(formula, rest);
    lemma_engine_front(formula, rest);
}

/// The engine's tokens of a formula between parentheses are read as the
/// formula.
pub proof fn lemma_parse_engine_group(formula: AssertionView, rest: Seq<TokenView>)
    requires
        is_binary(formula),
    ensures
        parse_group(engine_group_onto(formula, rest)) == Ok::<
            (AssertionView, Seq<TokenView>),
            nat,
        >((formula, rest)),
    decreases formula, 3nat,
{
    let closing = cons(TokenView::RParen, rest);
    let inside = engine_tokens_onto(formula, closing);
    lemma_cons(TokenView::RParen, rest);
    lemma_parse_engine_unary(formula, closing);
    lemma_engine_front(formula, closing);
    lemma_unary_is_formula(inside, formula, closing);
    lemma_closed(inside, formula, rest);
}

/// The engine's tokens of a formula, in front of a token at which a formula
/// ends, are read as that formula.
pub proof fn lemma_parse_engine_assertion(formula: AssertionView, rest: Seq<TokenView>)
    requires
        is_binary(formula),
        ends_formula(rest),
    ensures
        parse_assertion(engine_tokens_onto(formula, rest)) == Ok::<
            (AssertionView, Seq<TokenView>),
            nat,
        >((formula, rest)),
{
    lemma_parse_engine_unary(formula, rest);
    lemma_engine_front(formula, rest);
    lemma_unary_is_formula(engine_tokens_onto(formula, rest), formula, rest);
}

/// The engine's tokens of a specification of the given kind, in front of
/// `rest`.
pub open spec fn engine_spec_onto(kind: SpecKind, spec: SpecView, rest: Seq<TokenView>) -> Seq<
    TokenView,
> {
    cons(
        TokenView::Let,
        cons(
            kind_token(kind),
            args_onto(
                spec.0,
                cons(TokenView::Compare(AssertionOp::Eq), engine_tokens_onto(spec.1, rest)),
            ),
        ),
    )
}

/// The engine's tokens of the two specifications of a file, the first of
/// which may be missing, in front of `rest`.
pub open spec fn engine_specs_onto(
    pre: Option<SpecView>,
    post: SpecView,
    rest: Seq<TokenView>,
) -> Seq<TokenView> {
    match pre {
        Some(pre) => engine_spec_onto(
            SpecKind::Pre,
            pre,
            engine_spec_onto(SpecKind::Post, post, rest),
        ),
        None => engine_spec_onto(SpecKind::Post, post, rest),
    }
}

/// The engine's tokens of a file, whose predicate symbols are quoted, in
/// front of `rest`.
pub open spec fn engine_file_onto(file: AssertionFileView, rest: Seq<TokenView>) -> Seq<
    TokenView,
> {
    preds_onto(true, file.preds, engine_specs_onto(file.pre_spec, file.post_spec, rest))
}

/// The engine's tokens of a specification, in front of a token at which a
/// formula ends, are read as that specification; they start with `let` and
/// the kind.
pub proof fn lemma_parse_engine_spec(kind: SpecKind, spec: SpecView, rest: Seq<TokenView>)
    requires
        is_binary(spec.1),
        ends_formula(rest),
    ensures
        parse_spec(kind, engine_spec_onto(kind, spec, rest)) == Ok::<
            (SpecView, Seq<TokenView>),
            nat,
        >((spec, rest)),
        engine_spec_onto(kind, spec, rest).len() > 1,
        engine_spec_onto(kind, spec, rest)[0] == TokenView::Let,
        engine_spec_onto(kind, spec, rest)[1] == kind_token(kind),
{
    let body = engine_tokens_onto(spec.1, rest);
    let equals = cons(TokenView::Compare(AssertionOp::Eq), body);
    let args = args_onto(spec.0, equals);
    let second = cons(kind_token(kind), args);
    let ts = cons(TokenView::Let, second);
    lemma_cons(TokenView::Compare(AssertionOp::Eq), body);
    lemma_cons(kind_token(kind), args);
    lemma_cons(TokenView::Let, second);
    assert(ts[1] == second[0]);
    assert(ts.skip(2) =~= args);
    lemma_parse_args(spec.0, equals);
    lemma_parse_engine_assertion(spec.1, rest);
}

/// The engine's tokens of a file are read as that file.
pub proof fn lemma_parse_engine_file(file: AssertionFileView, rest: Seq<TokenView>)
    requires
        file.pre_spec matches Some(spec) ==> is_binary(spec.1),
        is_binary(file.post_spec.1),
        ends_formula(rest),
    ensures
        parse_file(engine_file_onto(file, rest)) == Ok::<(AssertionFileView, Seq<TokenView>), nat>(
            (file, rest),
        ),
{
    let last = engine_spec_onto(SpecKind::Post, file.post_spec, rest);
    let specs = engine_specs_onto(file.pre_spec, file.post_spec, rest);
    lemma_parse_preds(true, file.preds, specs);
    lemma_parse_engine_spec(SpecKind::Post, file.post_spec, rest);
    match file.pre_spec {
        Some(spec) => {
            lemma_parse_engine_spec(SpecKind::Pre, spec, last);
        },
        None => {},
    }
}

} // verus!
