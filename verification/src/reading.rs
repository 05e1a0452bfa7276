//! What the grammar makes of the tokens that spell a formula, a
//! specification or a file: the value that was spelled.

use crate::grammar::{
    kind_token, parse_arg, parse_args, parse_assertion, parse_conjunction, parse_conjunction_tail,
    parse_disjunction, parse_disjunction_tail, parse_file, parse_group, parse_names,
    parse_pred_items, parse_preds, parse_primary, parse_spec, parse_unary, starts_pre,
};
use crate::ipc_assertion::{
    AssertionFileView, AssertionOp, AssertionTypeView, AssertionView, Pred, SpecKind, SpecView,
    TpedvarView,
};
use crate::lexer::{predicate_named, TokenView};
use vstd::prelude::*;

verus! {

/// `token` in front of `rest`.
pub open spec fn cons(token: TokenView, rest: Seq<TokenView>) -> Seq<TokenView> {
    seq![token] + rest
}

/// What stands at the front of a sequence that was put together by `cons`.
pub proof fn lemma_cons(token: TokenView, rest: Seq<TokenView>)
    ensures
        cons(token, rest).len() == rest.len() + 1,
        cons(token, rest)[0] == token,
        cons(token, rest).drop_first() == rest,
{
    assert(cons(token, rest).drop_first() =~= rest);
}

/// One name token for each name, in order, in front of `rest`.
pub open spec fn names_onto(names: Seq<Seq<char>>, rest: Seq<TokenView>) -> Seq<TokenView>
    decreases names.len(),
{
    if names.len() == 0 {
        rest
    } else {
        cons(TokenView::Name(names[0]), names_onto(names.drop_first(), rest))
    }
}

/// Whether every conjunction and disjunction of `formula` has two members.
pub open spec fn is_binary(formula: AssertionView) -> bool
    decreases formula,
{
    match formula {
        AssertionView::True => true,
        AssertionView::Predicate(_, _) => true,
        AssertionView::Op(_, _, _) => true,
        AssertionView::Implies(lhs, rhs) => is_binary(*lhs) && is_binary(*rhs),
        AssertionView::Iff(lhs, rhs) => is_binary(*lhs) && is_binary(*rhs),
        AssertionView::Not(inner) => is_binary(*inner),
        AssertionView::And(items) => items.len() == 2 && is_binary(items[0]) && is_binary(
            items[1],
        ),
        AssertionView::Or(items) => items.len() == 2 && is_binary(items[0]) && is_binary(items[1]),
    }
}

/// The tokens that spell a formula in annotation-file syntax, in front of
/// `rest`: parentheses stand where the text of the formula has them.
pub open spec fn tokens_onto(formula: AssertionView, rest: Seq<TokenView>) -> Seq<TokenView>
    decreases formula, 0nat,
{
    match formula {
        AssertionView::True => cons(TokenView::True, rest),
        AssertionView::Predicate(pred, args) => cons(
            TokenView::Predicate(pred),
            names_onto(args, rest),
        ),
        AssertionView::Op(op, lhs, rhs) => cons(
            TokenView::Name(lhs),
            cons(TokenView::Compare(op), cons(TokenView::Name(rhs), rest)),
        ),
        AssertionView::Implies(lhs, rhs) => cons(
            TokenView::Implies,
            group_onto(*lhs, group_onto(*rhs, rest)),
        ),
        AssertionView::Iff(lhs, rhs) => cons(
            TokenView::Iff,
            group_onto(*lhs, group_onto(*rhs, rest)),
        ),
        AssertionView::Not(inner) => cons(TokenView::Not, member_onto(*inner, true, false, rest)),
        AssertionView::And(items) => if items.len() == 2 {
            member_onto(
                items[0],
                true,
                true,
                cons(TokenView::And, member_onto(items[1], true, false, rest)),
            )
        } else {
            rest
        },
        AssertionView::Or(items) => if items.len() == 2 {
            member_onto(
                items[0],
                false,
                true,
                cons(TokenView::Or, member_onto(items[1], false, false, rest)),
            )
        } else {
            rest
        },
    }
}

/// The tokens of a formula between `(` and `)`, in front of `rest`.
pub open spec fn group_onto(formula: AssertionView, rest: Seq<TokenView>) -> Seq<TokenView>
    decreases formula, 1nat,
{
    cons(TokenView::LParen, tokens_onto(formula, cons(TokenView::RParen, rest)))
}

/// The tokens of a formula as a member of a conjunction (`conj`) or of a
/// disjunction, in front of `rest`: between parentheses where it needs them.
pub open spec fn member_onto(
    formula: AssertionView,
    conj: bool,
    first: bool,
    rest: Seq<TokenView>,
) -> Seq<TokenView>
    decreases formula, 2nat,
{
    if formula.needs_group(conj, first) {
        group_onto(formula, rest)
    } else {
        tokens_onto(formula, rest)
    }
}

/// Whether a run of names that stands in front of `rest` ends there.
pub open spec fn ends_names(rest: Seq<TokenView>) -> bool {
    rest.len() == 0 || !(rest[0] is Name)
}

/// Whether a conjunction that stands in front of `rest` ends there.
pub open spec fn ends_conjunction(rest: Seq<TokenView>) -> bool {
    rest.len() == 0 || !(rest[0] is Name || rest[0] == TokenView::And)
}

/// Whether a formula that stands in front of `rest` ends there.
pub open spec fn ends_formula(rest: Seq<TokenView>) -> bool {
    rest.len() == 0 || !(rest[0] is Name || rest[0] == TokenView::And || rest[0]
        == TokenView::Or)
}

/// Name tokens in front of a token that is no name are read as those names.
pub proof fn lemma_parse_names(names: Seq<Seq<char>>, rest: Seq<TokenView>)
    requires
        ends_names(rest),
    ensures
        parse_names(names_onto(names, rest)) == (names, rest),
    decreases names.len(),
{
    if names.len() == 0 {
        assert(names =~= Seq::<Seq<char>>::empty());
    } else {
        lemma_cons(TokenView::Name(names[0]), names_onto(names.drop_first(), rest));
        lemma_parse_names(names.drop_first(), rest);
        assert(seq![names[0]] + names.drop_first() =~= names);
    }
}

/// Names put in front make a sequence no shorter.
pub proof fn lemma_names_longer(names: Seq<Seq<char>>, rest: Seq<TokenView>)
    ensures
        names_onto(names, rest).len() >= rest.len(),
    decreases names.len(),
{
    if names.len() > 0 {
        lemma_names_longer(names.drop_first(), rest);
        lemma_cons(TokenView::Name(names[0]), names_onto(names.drop_first(), rest));
    }
}

/// The tokens of a formula make a sequence no shorter; those of a formula
/// that is no conjunction or disjunction are one at least, and the first is
/// `!` only for a negation.
proof fn lemma_onto_longer(formula: AssertionView, rest: Seq<TokenView>)
    ensures
        tokens_onto(formula, rest).len() >= rest.len(),
        !(formula is And || formula is Or) ==> tokens_onto(formula, rest).len() > rest.len(),
        !(formula is And || formula is Or || formula is Not) ==> tokens_onto(formula, rest)[0]
            != TokenView::Not,
    decreases formula, 0nat,
{
    match formula {
        AssertionView::True => {
            lemma_cons(TokenView::True, rest);
        },
        AssertionView::Predicate(pred, args) => {
            lemma_names_longer(args, rest);
            lemma_cons(TokenView::Predicate(pred), names_onto(args, rest));
        },
        AssertionView::Op(op, lhs, rhs) => {
            let third = cons(TokenView::Name(rhs), rest);
            let second = cons(TokenView::Compare(op), third);
            lemma_cons(TokenView::Name(rhs), rest);
            lemma_cons(TokenView::Compare(op), third);
            lemma_cons(TokenView::Name(lhs), second);
        },
        AssertionView::Implies(lhs, rhs) => {
            lemma_group_longer(*rhs, rest);
            lemma_group_longer(*lhs, group_onto(*rhs, rest));
            lemma_cons(TokenView::Implies, group_onto(*lhs, group_onto(*rhs, rest)));
        },
        AssertionView::Iff(lhs, rhs) => {
            lemma_group_longer(*rhs, rest);
            lemma_group_longer(*lhs, group_onto(*rhs, rest));
            lemma_cons(TokenView::Iff, group_onto(*lhs, group_onto(*rhs, rest)));
        },
        AssertionView::Not(inner) => {
            lemma_member_longer(*inner, true, false, rest);
            lemma_cons(TokenView::Not, member_onto(*inner, true, false, rest));
        },
        AssertionView::And(items) => {
            if items.len() == 2 {
                let second = member_onto(items[1], true, false, rest);
                lemma_member_longer(items[1], true, false, rest);
                lemma_cons(TokenView::And, second);
                lemma_member_longer(items[0], true, true, cons(TokenView::And, second));
            }
        },
        AssertionView::Or(items) => {
            if items.len() == 2 {
                let second = member_onto(items[1], false, false, rest);
                lemma_member_longer(items[1], false, false, rest);
                lemma_cons(TokenView::Or, second);
                lemma_member_longer(items[0], false, true, cons(TokenView::Or, second));
            }
        },
    }
}

/// A parenthesised formula takes more tokens than follow it, and `(` is the
/// first.
proof fn lemma_group_longer(formula: AssertionView, rest: Seq<TokenView>)
    ensures
        group_onto(formula, rest).len() > rest.len(),
        group_onto(formula, rest)[0] == TokenView::LParen,
    decreases formula, 1nat,
{
    let closing = cons(TokenView::RParen, rest);
    lemma_cons(TokenView::RParen, rest);
    lemma_onto_longer(formula, closing);
    lemma_cons(TokenView::LParen, tokens_onto(formula, closing));
}

/// The tokens of a member make a sequence no shorter.
proof fn lemma_member_longer(
    formula: AssertionView,
    conj: bool,
    first: bool,
    rest: Seq<TokenView>,
)
    ensures
        member_onto(formula, conj, first, rest).len() >= rest.len(),
    decreases formula, 2nat,
{
    if formula.needs_group(conj, first) {
        lemma_group_longer(formula, rest);
    } else {
        lemma_onto_longer(formula, rest);
    }
}

/// The tokens of an atom are read as that atom.
pub proof fn lemma_parse_primary(formula: AssertionView, rest: Seq<TokenView>)
    requires
        is_binary(formula),
        !(formula is Not || formula is And || formula is Or),
        ends_names(rest),
    ensures
        parse_primary(tokens_onto(formula, rest)) == Ok::<(AssertionView, Seq<TokenView>), nat>(
            (formula, rest),
        ),
    decreases formula, 1nat,
{
    match formula {
        AssertionView::True => {
            lemma_cons(TokenView::True, rest);
        },
        AssertionView::Predicate(pred, args) => {
            lemma_cons(TokenView::Predicate(pred), names_onto(args, rest));
            lemma_parse_names(args, rest);
        },
        AssertionView::Op(op, lhs, rhs) => {
            let third = cons(TokenView::Name(rhs), rest);
            let second = cons(TokenView::Compare(op), third);
            let ts = cons(TokenView::Name(lhs), second);
            lemma_cons(TokenView::Name(rhs), rest);
            lemma_cons(TokenView::Compare(op), third);
            lemma_cons(TokenView::Name(lhs), second);
            assert(ts[1] == second[0]);
            assert(ts[2] == third[0]);
            assert(ts.skip(3) =~= rest);
        },
        AssertionView::Implies(lhs, rhs) => {
            let second = group_onto(*rhs, rest);
            lemma_cons(TokenView::Implies, group_onto(*lhs, second));
            lemma_parse_group(*lhs, second);
            lemma_parse_group(*rhs, rest);
            lemma_group_longer(*lhs, second);
        },
        AssertionView::Iff(lhs, rhs) => {
            let second = group_onto(*rhs, rest);
            lemma_cons(TokenView::Iff, group_onto(*lhs, second));
            lemma_parse_group(*lhs, second);
            lemma_parse_group(*rhs, rest);
            lemma_group_longer(*lhs, second);
        },
        _ => {},
    }
}

/// A parenthesised formula is read as the formula: as a group, as an atom,
/// as a negation or atom, and as the first member of a conjunction.
pub proof fn lemma_parse_group(formula: AssertionView, rest: Seq<TokenView>)
    requires
        is_binary(formula),
    ensures
        parse_group(group_onto(formula, rest)) == Ok::<(AssertionView, Seq<TokenView>), nat>(
            (formula, rest),
        ),
        parse_unary(group_onto(formula, rest)) == Ok::<(AssertionView, Seq<TokenView>), nat>(
            (formula, rest),
        ),
        parse_conjunction(group_onto(formula, rest)) == parse_conjunction_tail(formula, rest),
    decreases formula, 6nat,
{
    let closing = cons(TokenView::RParen, rest);
    let inside = tokens_onto(formula, closing);
    lemma_cons(TokenView::LParen, inside);
    lemma_cons(TokenView::RParen, rest);
    lemma_parse_assertion(formula, closing);
    lemma_onto_longer(formula, closing);
    assert(parse_primary(group_onto(formula, rest)) == Ok::<(AssertionView, Seq<TokenView>), nat>(
        (formula, rest),
    ));
}

/// The tokens of a negation or atom are read as that formula.
pub proof fn lemma_parse_unary(formula: AssertionView, rest: Seq<TokenView>)
    requires
        is_binary(formula),
        !(formula is And || formula is Or),
        ends_names(rest),
    ensures
        parse_unary(tokens_onto(formula, rest)) == Ok::<(AssertionView, Seq<TokenView>), nat>(
            (formula, rest),
        ),
    decreases formula, 2nat,
{
    match formula {
        AssertionView::Not(inner) => {
            lemma_cons(TokenView::Not, member_onto(*inner, true, false, rest));
            lemma_parse_operand(*inner, rest);
        },
        _ => {
            lemma_parse_primary(formula, rest);
            lemma_onto_longer(formula, rest);
        },
    }
}

/// The tokens of what is negated, and of a later member of a conjunction,
/// are read as a negation or atom: the formula.
pub proof fn lemma_parse_operand(formula: AssertionView, rest: Seq<TokenView>)
    requires
        is_binary(formula),
        ends_names(rest),
    ensures
        parse_unary(member_onto(formula, true, false, rest)) == Ok::<
            (AssertionView, Seq<TokenView>),
            nat,
        >((formula, rest)),
    decreases formula, 7nat,
{
    if formula.needs_group(true, false) {
        lemma_parse_group(formula, rest);
    } else {
        lemma_parse_unary(formula, rest);
    }
}

/// Reading the tokens of a formula that is no disjunction as a conjunction
/// comes to where all its members have been read and joined.
pub proof fn lemma_parse_conjunction(formula: AssertionView, rest: Seq<TokenView>)
    requires
        is_binary(formula),
        !(formula is Or),
        ends_names(rest),
    ensures
        parse_conjunction(tokens_onto(formula, rest)) == parse_conjunction_tail(formula, rest),
    decreases formula, 3nat,
{
    match formula {
        AssertionView::And(items) => {
            let second = member_onto(items[1], true, false, rest);
            let behind = cons(TokenView::And, second);
            lemma_cons(TokenView::And, second);
            lemma_parse_first(items[0], behind);
            lemma_parse_operand(items[1], rest);
            lemma_member_longer(items[1], true, false, rest);
            assert(seq![items[0], items[1]] =~= items);
        },
        _ => {
            lemma_parse_unary(formula, rest);
            lemma_onto_longer(formula, rest);
        },
    }
}

/// Reading the tokens of the first member of a conjunction comes to where
/// the conjunction goes on.
pub proof fn lemma_parse_first(formula: AssertionView, rest: Seq<TokenView>)
    requires
        is_binary(formula),
        ends_names(rest),
    ensures
        parse_conjunction(member_onto(formula, true, true, rest)) == parse_conjunction_tail(
            formula,
            rest,
        ),
    decreases formula, 8nat,
{
    if formula.needs_group(true, true) {
        lemma_parse_group(formula, rest);
    } else {
        lemma_parse_conjunction(formula, rest);
    }
}

/// The tokens of a later member of a disjunction, in front of a token at
/// which a conjunction ends, are read as a conjunction: the formula.
pub proof fn lemma_parse_later(formula: AssertionView, rest: Seq<TokenView>)
    requires
        is_binary(formula),
        ends_conjunction(rest),
    ensures
        parse_conjunction(member_onto(formula, false, false, rest)) == Ok::<
            (AssertionView, Seq<TokenView>),
            nat,
        >((formula, rest)),
    decreases formula, 9nat,
{
    if formula.needs_group(false, false) {
        lemma_parse_group(formula, rest);
    } else {
        lemma_parse_conjunction(formula, rest);
    }
}

/// Reading the tokens of a formula as a disjunction comes to where all its
/// members have been read and joined.
pub proof fn lemma_parse_disjunction(formula: AssertionView, rest: Seq<TokenView>)
    requires
        is_binary(formula),
        ends_conjunction(rest),
    ensures
        parse_disjunction(tokens_onto(formula, rest)) == parse_disjunction_tail(formula, rest),
    decreases formula, 4nat,
{
    match formula {
        AssertionView::Or(items) => {
            let second = member_onto(items[1], false, false, rest);
            let behind = cons(TokenView::Or, second);
            lemma_cons(TokenView::Or, second);
            lemma_parse_disjunction(items[0], behind);
            lemma_parse_later(items[1], rest);
            lemma_member_longer(items[1], false, false, rest);
            assert(seq![items[0], items[1]] =~= items);
        },
        _ => {
            lemma_parse_conjunction(formula, rest);
            lemma_onto_longer(formula, rest);
        },
    }
}

/// The tokens of a formula, in front of a token at which a formula ends,
/// are read as that formula.
pub proof fn lemma_parse_assertion(formula: AssertionView, rest: Seq<TokenView>)
    requires
        is_binary(formula),
        ends_formula(rest),
    ensures
        parse_assertion(tokens_onto(formula, rest)) == Ok::<(AssertionView, Seq<TokenView>), nat>(
            (formula, rest),
        ),
    decreases formula, 5nat,
{
    lemma_parse_disjunction(formula, rest);
}

/// The token that names a type.
pub open spec fn type_token(ty: AssertionTypeView) -> TokenView {
    match ty {
        AssertionTypeView::Int => TokenView::Int,
        AssertionTypeView::Bool => TokenView::Bool,
        AssertionTypeView::Generic(name) => TokenView::Name(name),
    }
}

/// The five tokens that spell a typed argument, in front of `rest`.
pub open spec fn arg_onto(arg: TpedvarView, rest: Seq<TokenView>) -> Seq<TokenView> {
    cons(
        TokenView::LParen,
        cons(
            TokenView::Name(arg.1),
            cons(TokenView::Colon, cons(type_token(arg.0), cons(TokenView::RParen, rest))),
        ),
    )
}

/// The tokens that spell typed arguments, in front of `rest`.
pub open spec fn args_onto(args: Seq<TpedvarView>, rest: Seq<TokenView>) -> Seq<TokenView>
    decreases args.len(),
{
    if args.len() == 0 {
        rest
    } else {
        arg_onto(args[0], args_onto(args.drop_first(), rest))
    }
}

/// The tokens that spell a specification of the given kind, in front of
/// `rest`.
pub open spec fn spec_onto(kind: SpecKind, spec: SpecView, rest: Seq<TokenView>) -> Seq<
    TokenView,
> {
    cons(
        TokenView::Let,
        cons(
            kind_token(kind),
            args_onto(spec.0, cons(TokenView::Compare(AssertionOp::Eq), tokens_onto(spec.1, rest))),
        ),
    )
}

/// The tokens of a typed argument are read as that argument.
pub proof fn lemma_parse_arg(arg: TpedvarView, rest: Seq<TokenView>)
    ensures
        arg_onto(arg, rest).len() == rest.len() + 5,
        arg_onto(arg, rest)[0] == TokenView::LParen,
        arg_onto(arg, rest).skip(5) == rest,
        parse_arg(arg_onto(arg, rest)) == Ok::<(TpedvarView, Seq<TokenView>), nat>((arg, rest)),
{
    let fifth = cons(TokenView::RParen, rest);
    let fourth = cons(type_token(arg.0), fifth);
    let third = cons(TokenView::Colon, fourth);
    let second = cons(TokenView::Name(arg.1), third);
    let ts = cons(TokenView::LParen, second);
    lemma_cons(TokenView::RParen, rest);
    lemma_cons(type_token(arg.0), fifth);
    lemma_cons(TokenView::Colon, fourth);
    lemma_cons(TokenView::Name(arg.1), third);
    lemma_cons(TokenView::LParen, second);
    assert(ts[1] == second[0]);
    assert(ts[2] == third[0]);
    assert(ts[3] == fourth[0]);
    assert(ts[4] == fifth[0]);
    assert(ts.skip(5) =~= rest);
}

/// The tokens of typed arguments, in front of a token other than `(`, are
/// read as those arguments.
pub proof fn lemma_parse_args(args: Seq<TpedvarView>, rest: Seq<TokenView>)
    requires
        rest.len() == 0 || rest[0] != TokenView::LParen,
    ensures
        parse_args(args_onto(args, rest)) == Ok::<(Seq<TpedvarView>, Seq<TokenView>), nat>(
            (args, rest),
        ),
    decreases args.len(),
{
    if args.len() == 0 {
        assert(args =~= Seq::<TpedvarView>::empty());
    } else {
        let behind = args_onto(args.drop_first(), rest);
        lemma_parse_arg(args[0], behind);
        lemma_parse_args(args.drop_first(), rest);
        assert(seq![args[0]] + args.drop_first() =~= args);
    }
}

/// The tokens of a specification, in front of a token at which a formula
/// ends, are read as that specification.
pub proof fn lemma_parse_spec(kind: SpecKind, spec: SpecView, rest: Seq<TokenView>)
    requires
        is_binary(spec.1),
        ends_formula(rest),
    ensures
        parse_spec(kind, spec_onto(kind, spec, rest)) == Ok::<(SpecView, Seq<TokenView>), nat>(
            (spec, rest),
        ),
{
    let body = tokens_onto(spec.1, rest);
    let equals = cons(TokenView::Compare(AssertionOp::Eq), body);
    let args = args_onto(spec.0, equals);
    let second = cons(kind_token(kind), args);
    let ts = cons(TokenView::Let, second);
    lemma_cons(TokenView::Compare(AssertionOp::Eq), body);
    lemma_cons(kind_token(kind), args);
    lemma_cons(TokenView::Let, second);
    assert(ts[1] == second[0]);
    assert(ts.skip(2) =~= args);
    lemma_parse_args(spec.0, equals);
    lemma_parse_assertion(spec.1, rest);
}

/// The token that lists a predicate symbol: the symbol itself, or its
/// spelling between double quotes.
pub open spec fn pred_token(quoted: bool, pred: Pred) -> TokenView {
    if quoted {
        TokenView::Quoted(pred.render())
    } else {
        TokenView::Predicate(pred)
    }
}

/// The spelling of a predicate symbol names that symbol.
pub proof fn lemma_predicate_named(pred: Pred)
    ensures
        predicate_named(pred.render()) == Some(pred),
{
    crate::lexing::lemma_predicate_words(pred);
}

/// The tokens that list predicate symbols with `;` between them, in front of
/// `rest`.
pub open spec fn items_onto(quoted: bool, preds: Seq<Pred>, rest: Seq<TokenView>) -> Seq<
    TokenView,
>
    decreases preds.len(),
{
    if preds.len() == 0 {
        rest
    } else if preds.len() == 1 {
        cons(pred_token(quoted, preds[0]), rest)
    } else {
        cons(
            pred_token(quoted, preds[0]),
            cons(TokenView::Semicolon, items_onto(quoted, preds.drop_first(), rest)),
        )
    }
}

/// The tokens that spell the declaration of predicate symbols, in front of
/// `rest`.
pub open spec fn preds_onto(quoted: bool, preds: Seq<Pred>, rest: Seq<TokenView>) -> Seq<
    TokenView,
> {
    cons(
        TokenView::Let,
        cons(
            TokenView::Preds,
            cons(
                TokenView::Compare(AssertionOp::Eq),
                cons(
                    TokenView::ArrayOpen,
                    items_onto(quoted, preds, cons(TokenView::ArrayClose, rest)),
                ),
            ),
        ),
    )
}

/// The tokens that spell the two specifications of a file, the first of
/// which may be missing, in front of `rest`.
pub open spec fn specs_onto(pre: Option<SpecView>, post: SpecView, rest: Seq<TokenView>) -> Seq<
    TokenView,
> {
    match pre {
        Some(pre) => spec_onto(SpecKind::Pre, pre, spec_onto(SpecKind::Post, post, rest)),
        None => spec_onto(SpecKind::Post, post, rest),
    }
}

/// The tokens that spell a file, in front of `rest`.
pub open spec fn file_onto(file: AssertionFileView, rest: Seq<TokenView>) -> Seq<TokenView> {
    preds_onto(true, file.preds, specs_onto(file.pre_spec, file.post_spec, rest))
}

/// The tokens of a list of predicate symbols, in front of a token other than
/// `;`, are read as those symbols.
pub proof fn lemma_parse_pred_items(quoted: bool, preds: Seq<Pred>, rest: Seq<TokenView>)
    requires
        preds.len() > 0,
        rest.len() == 0 || rest[0] != TokenView::Semicolon,
    ensures
        parse_pred_items(items_onto(quoted, preds, rest)) == Ok::<
            (Seq<Pred>, Seq<TokenView>),
            nat,
        >((preds, rest)),
        items_onto(quoted, preds, rest).len() > 0,
        items_onto(quoted, preds, rest)[0] == pred_token(quoted, preds[0]),
    decreases preds.len(),
{
    lemma_predicate_named(preds[0]);
    if preds.len() == 1 {
        lemma_cons(pred_token(quoted, preds[0]), rest);
        assert(seq![preds[0]] =~= preds);
    } else {
        let behind = items_onto(quoted, preds.drop_first(), rest);
        let second = cons(TokenView::Semicolon, behind);
        let ts = cons(pred_token(quoted, preds[0]), second);
        lemma_cons(TokenView::Semicolon, behind);
        lemma_cons(pred_token(quoted, preds[0]), second);
        assert(ts[1] == second[0]);
        assert(ts.skip(2) =~= behind);
        lemma_parse_pred_items(quoted, preds.drop_first(), rest);
        assert(seq![preds[0]] + preds.drop_first() =~= preds);
    }
}

/// The tokens of a declaration of predicate symbols are read as those
/// symbols.
pub proof fn lemma_parse_preds(quoted: bool, preds: Seq<Pred>, rest: Seq<TokenView>)
    ensures
        parse_preds(preds_onto(quoted, preds, rest)) == Ok::<(Seq<Pred>, Seq<TokenView>), nat>(
            (preds, rest),
        ),
{
    let closing = cons(TokenView::ArrayClose, rest);
    let items = items_onto(quoted, preds, closing);
    let fourth = cons(TokenView::ArrayOpen, items);
    let third = cons(TokenView::Compare(AssertionOp::Eq), fourth);
    let second = cons(TokenView::Preds, third);
    let ts = cons(TokenView::Let, second);
    lemma_cons(TokenView::ArrayClose, rest);
    lemma_cons(TokenView::ArrayOpen, items);
    lemma_cons(TokenView::Compare(AssertionOp::Eq), fourth);
    lemma_cons(TokenView::Preds, third);
    lemma_cons(TokenView::Let, second);
    assert(ts[1] == second[0]);
    assert(ts[2] == third[0]);
    assert(ts[3] == fourth[0]);
    assert(ts.skip(4) =~= items);
    if preds.len() == 0 {
        assert(ts[4] == closing[0]);
        assert(ts.skip(5) =~= rest);
        assert(preds =~= Seq::<Pred>::empty());
    } else {
        lemma_parse_pred_items(quoted, preds, closing);
        assert(ts[4] == items[0]);
    }
}

/// What stands at the front of the tokens of a specification.
proof fn lemma_spec_front(kind: SpecKind, spec: SpecView, rest: Seq<TokenView>)
    ensures
        spec_onto(kind, spec, rest).len() > 1,
        spec_onto(kind, spec, rest)[0] == TokenView::Let,
        spec_onto(kind, spec, rest)[1] == kind_token(kind),
{
    let body = tokens_onto(spec.1, rest);
    let equals = cons(TokenView::Compare(AssertionOp::Eq), body);
    let args = args_onto(spec.0, equals);
    let second = cons(kind_token(kind), args);
    lemma_cons(kind_token(kind), args);
    lemma_cons(TokenView::Let, second);
    assert(spec_onto(kind, spec, rest)[1] == second[0]);
}

/// The tokens of the specifications of a file are read as those
/// specifications.
pub proof fn lemma_parse_specs(pre: Option<SpecView>, post: SpecView, rest: Seq<TokenView>)
    requires
        pre matches Some(spec) ==> is_binary(spec.1),
        is_binary(post.1),
        ends_formula(rest),
    ensures
        starts_pre(specs_onto(pre, post, rest)) == (pre is Some),
        pre matches Some(spec) ==> parse_spec(SpecKind::Pre, specs_onto(pre, post, rest)) == Ok::<
            (SpecView, Seq<TokenView>),
            nat,
        >((spec, spec_onto(SpecKind::Post, post, rest))),
        parse_spec(SpecKind::Post, spec_onto(SpecKind::Post, post, rest)) == Ok::<
            (SpecView, Seq<TokenView>),
            nat,
        >((post, rest)),
{
    let last = spec_onto(SpecKind::Post, post, rest);
    lemma_spec_front(SpecKind::Post, post, rest);
    lemma_parse_spec(SpecKind::Post, post, rest);
    match pre {
        Some(spec) => {
            lemma_spec_front(SpecKind::Pre, spec, last);
            lemma_parse_spec(SpecKind::Pre, spec, last);
        },
        None => {},
    }
}

/// The tokens of a file are read as that file.
pub proof fn lemma_parse_file(file: AssertionFileView, rest: Seq<TokenView>)
    requires
        file.pre_spec matches Some(spec) ==> is_binary(spec.1),
        is_binary(file.post_spec.1),
        ends_formula(rest),
    ensures
        parse_file(file_onto(file, rest)) == Ok::<(AssertionFileView, Seq<TokenView>), nat>(
            (file, rest),
        ),
{
    let specs = specs_onto(file.pre_spec, file.post_spec, rest);
    lemma_parse_preds(true, file.preds, specs);
    lemma_parse_specs(file.pre_spec, file.post_spec, rest);
}

} // verus!
