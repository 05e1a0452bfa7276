//! What the parser yields: formulas whose conjunctions and disjunctions have
//! two members and whose variables are names. Along the way: whatever the
//! grammar reads takes tokens and leaves no more than there were, so that the
//! comparisons of lengths in its definition always hold.

use crate::grammar::{
    parse_arg, parse_args, parse_assertion, parse_conjunction, parse_conjunction_tail,
    parse_disjunction, parse_disjunction_tail, parse_enclosed, parse_file, parse_group,
    parse_names, parse_pair, parse_pred_items, parse_preds, parse_primary, parse_spec, parse_unary,
    starts_pre,
};
use crate::ipc_assertion::{AssertionFileView, AssertionView, SpecKind, SpecView};
use crate::lexer::TokenView;
use crate::lexing::{is_name, names_are_names};
use crate::reading::is_binary;
use crate::spelling::{all_names, arg_has_names, args_have_names, has_names};
use vstd::prelude::*;

verus! {

/// Whether `formula` has the form of what the parser yields.
pub open spec fn is_parsed_form(formula: AssertionView) -> bool {
    is_binary(formula) && has_names(formula)
}

/// Whether `spec` has the form of what the parser yields.
pub open spec fn is_parsed_spec(spec: SpecView) -> bool {
    args_have_names(spec.0) && is_parsed_form(spec.1)
}

/// Names stay names behind the first tokens.
proof fn lemma_names_behind(ts: Seq<TokenView>, k: int)
    requires
        0 <= k <= ts.len(),
    ensures
        names_are_names(ts) ==> names_are_names(ts.skip(k)),
        names_are_names(ts) && k == 1 ==> names_are_names(ts.drop_first()),
{
    if names_are_names(ts) {
        assert forall|i: int| 0 <= i < ts.skip(k).len() implies ((#[trigger] ts.skip(
            k,
        )[i]) matches TokenView::Name(text) ==> is_name(text)) by {
            assert(ts.skip(k)[i] == ts[i + k]);
        }
        if k == 1 {
            assert(ts.drop_first() =~= ts.skip(1));
        }
    }
}

/// The names that are read off tokens are names.
proof fn lemma_names_form(ts: Seq<TokenView>)
    ensures
        parse_names(ts).1.len() <= ts.len(),
        names_are_names(ts) ==> all_names(parse_names(ts).0) && names_are_names(
            parse_names(ts).1,
        ),
    decreases ts.len(),
{
    if ts.len() > 0 && ts[0] is Name {
        lemma_names_behind(ts, 1);
        lemma_names_form(ts.drop_first());
        if names_are_names(ts) {
            let (names, rest) = parse_names(ts.drop_first());
            let all = seq![ts[0]->Name_0] + names;
            assert forall|i: int| 0 <= i < all.len() implies is_name(#[trigger] all[i]) by {
                if i > 0 {
                    assert(all[i] == names[i - 1]);
                }
            }
        }
    }
}

/// What holds of a formula that was read off `ts` with `rest` left over: no
/// more tokens are left than there were; and if the names among `ts` are
/// names, the formula has the parsed form and the names among `rest` are
/// names.
pub open spec fn formed(
    ts: Seq<TokenView>,
    read: Result<(AssertionView, Seq<TokenView>), nat>,
) -> bool {
    read matches Ok((formula, rest)) ==> rest.len() <= ts.len() && (names_are_names(ts)
        ==> is_parsed_form(formula) && names_are_names(rest))
}

/// An atom that is read off tokens has the parsed form.
proof fn lemma_primary_form(ts: Seq<TokenView>)
    ensures
        formed(ts, parse_primary(ts)),
        parse_primary(ts) matches Ok((_, rest)) ==> rest.len() < ts.len(),
    decreases ts.len(), 0nat,
{
    if ts.len() > 0 {
        lemma_names_behind(ts, 1);
        match ts[0] {
            TokenView::Predicate(pred) => {
                lemma_names_form(ts.drop_first());
            },
            TokenView::Name(lhs) => {
                if ts.len() > 2 {
                    lemma_names_behind(ts, 3);
                }
            },
            TokenView::Implies => {
                lemma_pair_form(ts.drop_first());
            },
            TokenView::Iff => {
                lemma_pair_form(ts.drop_first());
            },
            TokenView::LParen => {
                lemma_enclosed_form(ts.drop_first());
            },
            _ => {},
        }
    }
}

/// Two groups that are read off tokens have the parsed form.
proof fn lemma_pair_form(ts: Seq<TokenView>)
    ensures
        parse_pair(ts) matches Ok(((lhs, rhs), rest)) ==> rest.len() <= ts.len() && (
        names_are_names(ts) ==> is_parsed_form(lhs) && is_parsed_form(rhs) && names_are_names(
            rest,
        )),
    decreases ts.len(), 8nat,
{
    lemma_group_form(ts);
    match parse_group(ts) {
        Ok((lhs, rest)) => {
            if rest.len() < ts.len() {
                lemma_group_form(rest);
            }
        },
        Err(_) => {},
    }
}

/// A group that is read off tokens has the parsed form.
proof fn lemma_group_form(ts: Seq<TokenView>)
    ensures
        formed(ts, parse_group(ts)),
    decreases ts.len(), 7nat,
{
    if ts.len() > 0 && ts[0] == TokenView::LParen {
        lemma_names_behind(ts, 1);
        lemma_enclosed_form(ts.drop_first());
    }
}

/// A formula that is read off tokens up to `)` has the parsed form.
proof fn lemma_enclosed_form(ts: Seq<TokenView>)
    ensures
        formed(ts, parse_enclosed(ts)),
    decreases ts.len(), 9nat,
{
    lemma_assertion_form(ts);
    match parse_assertion(ts) {
        Ok((inner, rest)) => {
            if rest.len() > 0 {
                lemma_names_behind(rest, 1);
            }
        },
        Err(_) => {},
    }
}

/// A negation or atom that is read off tokens has the parsed form.
proof fn lemma_unary_form(ts: Seq<TokenView>)
    ensures
        formed(ts, parse_unary(ts)),
        parse_unary(ts) matches Ok((_, rest)) ==> rest.len() < ts.len(),
    decreases ts.len(), 1nat,
{
    if ts.len() > 0 && ts[0] == TokenView::Not {
        lemma_names_behind(ts, 1);
        lemma_unary_form(ts.drop_first());
    } else {
        lemma_primary_form(ts);
    }
}

/// What follows the first member of a conjunction keeps the parsed form.
proof fn lemma_conjunction_tail_form(so_far: AssertionView, ts: Seq<TokenView>)
    ensures
        parse_conjunction_tail(so_far, ts) matches Ok((formula, rest)) ==> rest.len() <= ts.len()
            && (is_parsed_form(so_far) && names_are_names(ts) ==> is_parsed_form(formula)
            && names_are_names(rest)),
    decreases ts.len(), 2nat,
{
    if ts.len() > 0 && ts[0] == TokenView::And {
        lemma_names_behind(ts, 1);
        lemma_unary_form(ts.drop_first());
        match parse_unary(ts.drop_first()) {
            Ok((next, rest)) => {
                if rest.len() < ts.len() {
                    let both = AssertionView::And(seq![so_far, next]);
                    if is_parsed_form(so_far) && names_are_names(ts) {
                        assert(is_parsed_form(both));
                    }
                    lemma_conjunction_tail_form(both, rest);
                }
            },
            Err(_) => {},
        }
    }
}

/// A conjunction that is read off tokens has the parsed form.
proof fn lemma_conjunction_form(ts: Seq<TokenView>)
    ensures
        formed(ts, parse_conjunction(ts)),
        parse_conjunction(ts) matches Ok((_, rest)) ==> rest.len() < ts.len(),
    decreases ts.len(), 3nat,
{
    lemma_unary_form(ts);
    match parse_unary(ts) {
        Ok((first, rest)) => {
            if rest.len() <= ts.len() {
                lemma_conjunction_tail_form(first, rest);
            }
        },
        Err(_) => {},
    }
}

/// What follows the first member of a disjunction keeps the parsed form.
proof fn lemma_disjunction_tail_form(so_far: AssertionView, ts: Seq<TokenView>)
    ensures
        parse_disjunction_tail(so_far, ts) matches Ok((formula, rest)) ==> rest.len() <= ts.len()
            && (is_parsed_form(so_far) && names_are_names(ts) ==> is_parsed_form(formula)
            && names_are_names(rest)),
    decreases ts.len(), 4nat,
{
    if ts.len() > 0 && ts[0] == TokenView::Or {
        lemma_names_behind(ts, 1);
        lemma_conjunction_form(ts.drop_first());
        match parse_conjunction(ts.drop_first()) {
            Ok((next, rest)) => {
                if rest.len() < ts.len() {
                    let both = AssertionView::Or(seq![so_far, next]);
                    if is_parsed_form(so_far) && names_are_names(ts) {
                        assert(is_parsed_form(both));
                    }
                    lemma_disjunction_tail_form(both, rest);
                }
            },
            Err(_) => {},
        }
    }
}

/// A disjunction that is read off tokens has the parsed form.
proof fn lemma_disjunction_form(ts: Seq<TokenView>)
    ensures
        formed(ts, parse_disjunction(ts)),
        parse_disjunction(ts) matches Ok((_, rest)) ==> rest.len() < ts.len(),
    decreases ts.len(), 5nat,
{
    lemma_conjunction_form(ts);
    match parse_conjunction(ts) {
        Ok((first, rest)) => {
            if rest.len() <= ts.len() {
                lemma_disjunction_tail_form(first, rest);
            }
        },
        Err(_) => {},
    }
}

/// A formula that is read off tokens takes one token at least; if the names
/// among the tokens are names, it has the parsed form, and names stay names
/// behind it.
pub proof fn lemma_assertion_form(ts: Seq<TokenView>)
    ensures
        formed(ts, parse_assertion(ts)),
        parse_assertion(ts) matches Ok((_, rest)) ==> rest.len() < ts.len(),
    decreases ts.len(), 6nat,
{
    lemma_disjunction_form(ts);
}

/// The arguments that are read off tokens have names for their names and
/// for their types.
proof fn lemma_args_form(ts: Seq<TokenView>)
    requires
        names_are_names(ts),
    ensures
        parse_args(ts) matches Ok((args, rest)) ==> args_have_names(args) && names_are_names(rest),
    decreases ts.len(),
{
    if ts.len() > 0 && ts[0] == TokenView::LParen {
        match parse_arg(ts) {
            Ok((arg, _)) => {
                lemma_names_behind(ts, 5);
                lemma_args_form(ts.skip(5));
                match parse_args(ts.skip(5)) {
                    Ok((args, rest)) => {
                        let all = seq![arg] + args;
                        assert(arg_has_names(arg));
                        assert forall|i: int| 0 <= i < all.len() implies arg_has_names(
                            #[trigger] all[i],
                        ) by {
                            if i > 0 {
                                assert(all[i] == args[i - 1]);
                            }
                        }
                    },
                    Err(_) => {},
                }
            },
            Err(_) => {},
        }
    }
}

/// A specification that is read off tokens whose names are names has the
/// parsed form.
pub proof fn lemma_spec_form(kind: SpecKind, ts: Seq<TokenView>)
    requires
        names_are_names(ts),
    ensures
        parse_spec(kind, ts) matches Ok((spec, rest)) ==> is_parsed_spec(spec) && names_are_names(
            rest,
        ),
{
    if ts.len() > 1 {
        lemma_names_behind(ts, 2);
        lemma_args_form(ts.skip(2));
        match parse_args(ts.skip(2)) {
            Ok((args, rest)) => {
                if rest.len() > 0 {
                    lemma_names_behind(rest, 1);
                    lemma_assertion_form(rest.drop_first());
                }
            },
            Err(_) => {},
        }
    }
}

/// Whether `file` has the form of what the parser yields.
pub open spec fn is_parsed_file(file: AssertionFileView) -> bool {
    &&& file.pre_spec matches Some(spec) ==> is_parsed_spec(spec)
    &&& is_parsed_spec(file.post_spec)
}

/// Names stay names behind a list of predicate symbols.
proof fn lemma_pred_items_form(ts: Seq<TokenView>)
    requires
        names_are_names(ts),
    ensures
        parse_pred_items(ts) matches Ok((_, rest)) ==> names_are_names(rest),
    decreases ts.len(),
{
    if ts.len() > 0 {
        lemma_names_behind(ts, 1);
        if ts.len() > 1 && ts[1] == TokenView::Semicolon {
            lemma_names_behind(ts, 2);
            lemma_pred_items_form(ts.skip(2));
        }
    }
}

/// Names stay names behind a declaration of predicate symbols.
proof fn lemma_preds_form(ts: Seq<TokenView>)
    requires
        names_are_names(ts),
    ensures
        parse_preds(ts) matches Ok((_, rest)) ==> names_are_names(rest),
{
    if ts.len() > 4 {
        lemma_names_behind(ts, 5);
        lemma_names_behind(ts, 4);
        lemma_pred_items_form(ts.skip(4));
        match parse_pred_items(ts.skip(4)) {
            Ok((_, rest)) => {
                if rest.len() > 0 {
                    lemma_names_behind(rest, 1);
                }
            },
            Err(_) => {},
        }
    }
}

/// A file that is read off tokens whose names are names has the parsed form.
pub proof fn lemma_file_form(ts: Seq<TokenView>)
    requires
        names_are_names(ts),
    ensures
        parse_file(ts) matches Ok((file, _)) ==> is_parsed_file(file),
{
    lemma_preds_form(ts);
    match parse_preds(ts) {
        Ok((_, rest)) => {
            lemma_spec_form(SpecKind::Post, rest);
            if starts_pre(rest) {
                lemma_spec_form(SpecKind::Pre, rest);
                match parse_spec(SpecKind::Pre, rest) {
                    Ok((_, behind)) => {
                        lemma_spec_form(SpecKind::Post, behind);
                    },
                    Err(_) => {},
                }
            }
        },
        Err(_) => {},
    }
}

} // verus!
