//! The grammar of annotation files over tokens, and the parser that follows it.
//!
//! Every parsing function takes the tokens that are still to be read. It
//! gives back what it read together with the tokens behind it, or the number
//! of tokens that were left at the token it could not accept.

use crate::ipc_assertion::{
    Assertion, AssertionFile, AssertionFileView, AssertionOp, AssertionPredicates, AssertionType,
    AssertionTypeView, AssertionView, Pred, Spec, SpecKind, SpecView, Tpedvar, TpedvarView,
};
use crate::lexer::{known_predicate, predicate_named, token_views, Token, TokenView};
use crate::text::texts;
use vstd::prelude::*;
use vstd::string::*;

verus! {

/// The number of tokens left behind the first `taken` of `ts`.
pub open spec fn left(ts: Seq<TokenView>, taken: nat) -> nat {
    (ts.len() - taken) as nat
}

/// The type that a token names: `int`, `bool`, or a generic type by its name.
pub open spec fn type_named(token: TokenView) -> Option<AssertionTypeView> {
    match token {
        TokenView::Int => Some(AssertionTypeView::Int),
        TokenView::Bool => Some(AssertionTypeView::Bool),
        TokenView::Name(name) => Some(AssertionTypeView::Generic(name)),
        _ => None,
    }
}

/// A type: one token.
pub open spec fn parse_type(ts: Seq<TokenView>) -> Result<(AssertionTypeView, Seq<TokenView>), nat> {
    if ts.len() > 0 && type_named(ts[0]) is Some {
        Ok((type_named(ts[0])->0, ts.drop_first()))
    } else {
        Err(ts.len())
    }
}

/// A typed argument: `(`, a name, `:`, a type, `)`.
pub open spec fn parse_arg(ts: Seq<TokenView>) -> Result<(TpedvarView, Seq<TokenView>), nat> {
    if !(ts.len() > 0 && ts[0] == TokenView::LParen) {
        Err(ts.len())
    } else if !(ts.len() > 1 && ts[1] is Name) {
        Err(left(ts, 1))
    } else if !(ts.len() > 2 && ts[2] == TokenView::Colon) {
        Err(left(ts, 2))
    } else if !(ts.len() > 3 && type_named(ts[3]) is Some) {
        Err(left(ts, 3))
    } else if !(ts.len() > 4 && ts[4] == TokenView::RParen) {
        Err(left(ts, 4))
    } else {
        Ok((TpedvarView(type_named(ts[3])->0, ts[1]->Name_0), ts.skip(5)))
    }
}

/// Typed arguments, as many as open with `(`.
pub open spec fn parse_args(ts: Seq<TokenView>) -> Result<(Seq<TpedvarView>, Seq<TokenView>), nat>
    decreases ts.len(),
{
    if ts.len() > 0 && ts[0] == TokenView::LParen {
        match parse_arg(ts) {
            Err(at) => Err(at),
            Ok((arg, _)) => match parse_args(ts.skip(5)) {
                Err(at) => Err(at),
                Ok((args, rest)) => Ok((seq![arg] + args, rest)),
            },
        }
    } else {
        Ok((Seq::empty(), ts))
    }
}

/// The names at the front of `ts`, as many as follow one another, and the
/// tokens behind them.
pub open spec fn parse_names(ts: Seq<TokenView>) -> (Seq<Seq<char>>, Seq<TokenView>)
    decreases ts.len(),
{
    if ts.len() > 0 && ts[0] is Name {
        let (names, rest) = parse_names(ts.drop_first());
        (seq![ts[0]->Name_0] + names, rest)
    } else {
        (Seq::empty(), ts)
    }
}

/// A formula: a disjunction.
pub open spec fn parse_assertion(ts: Seq<TokenView>) -> Result<(AssertionView, Seq<TokenView>), nat>
    decreases ts.len(), 6nat,
{
    parse_disjunction(ts)
}

/// One conjunction, or several with `||` between them. `||` associates to
/// the left: each further conjunction makes a disjunction of two members,
/// the first of which is all that was read before.
pub open spec fn parse_disjunction(ts: Seq<TokenView>) -> Result<
    (AssertionView, Seq<TokenView>),
    nat,
>
    decreases ts.len(), 5nat,
{
    match parse_conjunction(ts) {
        Err(at) => Err(at),
        // the comparison always holds; it shows that the definition ends
        Ok((first, rest)) => if rest.len() <= ts.len() {
            parse_disjunction_tail(first, rest)
        } else {
            Err(0)
        },
    }
}

/// What follows the first conjunction of a disjunction.
pub open spec fn parse_disjunction_tail(so_far: AssertionView, ts: Seq<TokenView>) -> Result<
    (AssertionView, Seq<TokenView>),
    nat,
>
    decreases ts.len(), 4nat,
{
    if ts.len() > 0 && ts[0] == TokenView::Or {
        match parse_conjunction(ts.drop_first()) {
            Err(at) => Err(at),
            // the comparison always holds; it shows that the definition ends
            Ok((next, rest)) => if rest.len() < ts.len() {
                parse_disjunction_tail(AssertionView::Or(seq![so_far, next]), rest)
            } else {
                Err(0)
            },
        }
    } else {
        Ok((so_far, ts))
    }
}

/// One negation or atom, or several with `&&` between them. `&&` associates
/// to the left, as `||` does.
pub open spec fn parse_conjunction(ts: Seq<TokenView>) -> Result<
    (AssertionView, Seq<TokenView>),
    nat,
>
    decreases ts.len(), 3nat,
{
    match parse_unary(ts) {
        Err(at) => Err(at),
        // the comparison always holds; it shows that the definition ends
        Ok((first, rest)) => if rest.len() <= ts.len() {
            parse_conjunction_tail(first, rest)
        } else {
            Err(0)
        },
    }
}

/// What follows the first member of a conjunction.
pub open spec fn parse_conjunction_tail(so_far: AssertionView, ts: Seq<TokenView>) -> Result<
    (AssertionView, Seq<TokenView>),
    nat,
>
    decreases ts.len(), 2nat,
{
    if ts.len() > 0 && ts[0] == TokenView::And {
        match parse_unary(ts.drop_first()) {
            Err(at) => Err(at),
            // the comparison always holds; it shows that the definition ends
            Ok((next, rest)) => if rest.len() < ts.len() {
                parse_conjunction_tail(AssertionView::And(seq![so_far, next]), rest)
            } else {
                Err(0)
            },
        }
    } else {
        Ok((so_far, ts))
    }
}

/// Any number of `!` in front of an atom.
pub open spec fn parse_unary(ts: Seq<TokenView>) -> Result<(AssertionView, Seq<TokenView>), nat>
    decreases ts.len(), 1nat,
{
    if ts.len() > 0 && ts[0] == TokenView::Not {
        match parse_unary(ts.drop_first()) {
            Err(at) => Err(at),
            Ok((inner, rest)) => Ok((AssertionView::Not(Box::new(inner)), rest)),
        }
    } else {
        parse_primary(ts)
    }
}

/// An atom: `true`; a predicate symbol and the names behind it; a name, a
/// comparison and a name; `implies` or `iff` and two parenthesised formulas;
/// or a parenthesised formula.
pub open spec fn parse_primary(ts: Seq<TokenView>) -> Result<(AssertionView, Seq<TokenView>), nat>
    decreases ts.len(), 0nat,
{
    if ts.len() == 0 {
        Err(0)
    } else {
        match ts[0] {
            TokenView::True => Ok((AssertionView::True, ts.drop_first())),
            TokenView::Predicate(pred) => {
                let (names, rest) = parse_names(ts.drop_first());
                Ok((AssertionView::Predicate(pred, names), rest))
            },
            TokenView::Name(lhs) => if !(ts.len() > 1 && ts[1] is Compare) {
                Err(left(ts, 1))
            } else if !(ts.len() > 2 && ts[2] is Name) {
                Err(left(ts, 2))
            } else {
                Ok((AssertionView::Op(ts[1]->Compare_0, lhs, ts[2]->Name_0), ts.skip(3)))
            },
            TokenView::Implies => match parse_pair(ts.drop_first()) {
                Err(at) => Err(at),
                Ok(((lhs, rhs), rest)) => Ok(
                    (AssertionView::Implies(Box::new(lhs), Box::new(rhs)), rest),
                ),
            },
            TokenView::Iff => match parse_pair(ts.drop_first()) {
                Err(at) => Err(at),
                Ok(((lhs, rhs), rest)) => Ok(
                    (AssertionView::Iff(Box::new(lhs), Box::new(rhs)), rest),
                ),
            },
            TokenView::LParen => parse_enclosed(ts.drop_first()),
            _ => Err(ts.len()),
        }
    }
}

/// Two parenthesised formulas, one behind the other.
pub open spec fn parse_pair(ts: Seq<TokenView>) -> Result<
    ((AssertionView, AssertionView), Seq<TokenView>),
    nat,
>
    decreases ts.len(), 8nat,
{
    match parse_group(ts) {
        Err(at) => Err(at),
        // the comparison always holds; it shows that the definition ends
        Ok((lhs, rest)) => if rest.len() < ts.len() {
            match parse_group(rest) {
                Err(at) => Err(at),
                Ok((rhs, rest)) => Ok(((lhs, rhs), rest)),
            }
        } else {
            Err(0)
        },
    }
}

/// A formula between `(` and `)`.
pub open spec fn parse_group(ts: Seq<TokenView>) -> Result<(AssertionView, Seq<TokenView>), nat>
    decreases ts.len(), 7nat,
{
    if ts.len() > 0 && ts[0] == TokenView::LParen {
        parse_enclosed(ts.drop_first())
    } else {
        Err(ts.len())
    }
}

/// A formula and the `)` that closes it.
pub open spec fn parse_enclosed(ts: Seq<TokenView>) -> Result<(AssertionView, Seq<TokenView>), nat>
    decreases ts.len(), 9nat,
{
    match parse_assertion(ts) {
        Err(at) => Err(at),
        Ok((inner, rest)) => if rest.len() > 0 && rest[0] == TokenView::RParen {
            Ok((inner, rest.drop_first()))
        } else {
            Err(rest.len())
        },
    }
}

/// The reserved word that introduces a specification of the given kind.
pub open spec fn kind_token(kind: SpecKind) -> TokenView {
    match kind {
        SpecKind::Pre => TokenView::Pre,
        SpecKind::Post => TokenView::Post,
    }
}

/// A specification: `let`, `pre` or `post`, typed arguments, `=`, a formula.
pub open spec fn parse_spec(kind: SpecKind, ts: Seq<TokenView>) -> Result<
    (SpecView, Seq<TokenView>),
    nat,
> {
    if !(ts.len() > 0 && ts[0] == TokenView::Let) {
        Err(ts.len())
    } else if !(ts.len() > 1 && ts[1] == kind_token(kind)) {
        Err(left(ts, 1))
    } else {
        match parse_args(ts.skip(2)) {
            Err(at) => Err(at),
            Ok((args, rest)) => if !(rest.len() > 0 && rest[0] == TokenView::Compare(
                AssertionOp::Eq,
            )) {
                Err(rest.len())
            } else {
                match parse_assertion(rest.drop_first()) {
                    Err(at) => Err(at),
                    Ok((body, rest)) => Ok((SpecView(args, body), rest)),
                }
            },
        }
    }
}

/// The predicate symbol that a token of a predicate list names: the symbol
/// itself, or a quoted text that spells one.
pub open spec fn listed_predicate(token: TokenView) -> Option<Pred> {
    match token {
        TokenView::Predicate(pred) => Some(pred),
        TokenView::Quoted(text) => predicate_named(text),
        _ => None,
    }
}

/// One predicate symbol, or several with `;` between them.
pub open spec fn parse_pred_items(ts: Seq<TokenView>) -> Result<(Seq<Pred>, Seq<TokenView>), nat>
    decreases ts.len(),
{
    if !(ts.len() > 0 && listed_predicate(ts[0]) is Some) {
        Err(ts.len())
    } else if ts.len() > 1 && ts[1] == TokenView::Semicolon {
        match parse_pred_items(ts.skip(2)) {
            Err(at) => Err(at),
            Ok((more, rest)) => Ok((seq![listed_predicate(ts[0])->0] + more, rest)),
        }
    } else {
        Ok((seq![listed_predicate(ts[0])->0], ts.drop_first()))
    }
}

/// The declaration of the predicate symbols: `let preds = [|`, the symbols
/// separated by `;` (or none), and `|]`.
pub open spec fn parse_preds(ts: Seq<TokenView>) -> Result<(Seq<Pred>, Seq<TokenView>), nat> {
    if !(ts.len() > 0 && ts[0] == TokenView::Let) {
        Err(ts.len())
    } else if !(ts.len() > 1 && ts[1] == TokenView::Preds) {
        Err(left(ts, 1))
    } else if !(ts.len() > 2 && ts[2] == TokenView::Compare(AssertionOp::Eq)) {
        Err(left(ts, 2))
    } else if !(ts.len() > 3 && ts[3] == TokenView::ArrayOpen) {
        Err(left(ts, 3))
    } else if ts.len() > 4 && ts[4] == TokenView::ArrayClose {
        Ok((Seq::empty(), ts.skip(5)))
    } else {
        match parse_pred_items(ts.skip(4)) {
            Err(at) => Err(at),
            Ok((preds, rest)) => if rest.len() > 0 && rest[0] == TokenView::ArrayClose {
                Ok((preds, rest.drop_first()))
            } else {
                Err(rest.len())
            },
        }
    }
}

/// Whether a precondition starts at the front of `ts`.
pub open spec fn starts_pre(ts: Seq<TokenView>) -> bool {
    ts.len() > 1 && ts[0] == TokenView::Let && ts[1] == TokenView::Pre
}

/// A file: the predicate declaration, a precondition if one follows, and the
/// postcondition.
pub open spec fn parse_file(ts: Seq<TokenView>) -> Result<(AssertionFileView, Seq<TokenView>), nat> {
    match parse_preds(ts) {
        Err(at) => Err(at),
        Ok((preds, rest)) => if starts_pre(rest) {
            match parse_spec(SpecKind::Pre, rest) {
                Err(at) => Err(at),
                Ok((pre, rest)) => match parse_spec(SpecKind::Post, rest) {
                    Err(at) => Err(at),
                    Ok((post, rest)) => Ok(
                        (AssertionFileView { preds, pre_spec: Some(pre), post_spec: post }, rest),
                    ),
                },
            }
        } else {
            match parse_spec(SpecKind::Post, rest) {
                Err(at) => Err(at),
                Ok((post, rest)) => Ok(
                    (AssertionFileView { preds, pre_spec: None, post_spec: post }, rest),
                ),
            }
        },
    }
}

/// What was read when nothing is left behind it; otherwise the first token
/// left over is the one that cannot be accepted.
pub open spec fn complete<T>(parsed: Result<(T, Seq<TokenView>), nat>) -> Result<T, nat> {
    match parsed {
        Err(at) => Err(at),
        Ok((value, rest)) => if rest.len() == 0 {
            Ok(value)
        } else {
            Err(rest.len())
        },
    }
}

/// Whether `outcome`, reached on `tokens` from position `pos`, is what the
/// grammar gives for the tokens from `pos` on: the same value with the tokens
/// from the new position on left over, or the same stopping place.
pub open spec fn reads<T: View>(
    tokens: Seq<Token>,
    pos: usize,
    outcome: Result<(T, usize), usize>,
    expected: Result<(T::V, Seq<TokenView>), nat>,
) -> bool {
    match outcome {
        Ok((value, next)) => pos <= next <= tokens.len() && expected == Ok::<
            (T::V, Seq<TokenView>),
            nat,
        >((value@, token_views(tokens).skip(next as int))),
        Err(at) => pos <= at <= tokens.len() && expected == Err::<(T::V, Seq<TokenView>), nat>(
            (tokens.len() - at) as nat,
        ),
    }
}

/// The tokens from `pos` on: how many they are, which is the first, and what
/// is behind the first.
proof fn lemma_front(ts: Seq<TokenView>, pos: int)
    requires
        0 <= pos <= ts.len(),
    ensures
        ts.skip(pos).len() == ts.len() - pos,
        pos < ts.len() ==> ts.skip(pos)[0] == ts[pos],
        pos < ts.len() ==> ts.skip(pos).drop_first() == ts.skip(pos + 1),
{
    if pos < ts.len() {
        assert(ts.skip(pos).drop_first() =~= ts.skip(pos + 1));
    }
}

/// Skipping `pos` tokens and then `k` more is skipping `pos + k`.
proof fn lemma_skip_more(ts: Seq<TokenView>, pos: int, k: int)
    requires
        0 <= pos,
        0 <= k,
        pos + k <= ts.len(),
    ensures
        ts.skip(pos).skip(k) == ts.skip(pos + k),
        k == 1 ==> ts.skip(pos).drop_first() == ts.skip(pos + 1),
{
    assert(ts.skip(pos).skip(k) =~= ts.skip(pos + k));
    if k == 1 {
        assert(ts.skip(pos).drop_first() =~= ts.skip(pos + 1));
    }
}

pub(crate) fn type_at(tokens: &Vec<Token>, pos: usize) -> (outcome: Result<(AssertionType, usize), usize>)
    requires
        pos <= tokens.len(),
    ensures
        reads(tokens@, pos, outcome, parse_type(token_views(tokens@).skip(pos as int))),
{
    proof {
        lemma_front(token_views(tokens@), pos as int);
    }
    if pos < tokens.len() {
        match &tokens[pos] {
            Token::Int => Ok((AssertionType::Int, pos + 1)),
            Token::Bool => Ok((AssertionType::Bool, pos + 1)),
            Token::Name(name) => Ok((AssertionType::Generic(name.clone()), pos + 1)),
            _ => Err(pos),
        }
    } else {
        Err(pos)
    }
}

fn arg_at(tokens: &Vec<Token>, pos: usize) -> (outcome: Result<(Tpedvar, usize), usize>)
    requires
        pos <= tokens.len(),
    ensures
        reads(tokens@, pos, outcome, parse_arg(token_views(tokens@).skip(pos as int))),
        outcome is Ok ==> outcome->Ok_0.1 == pos + 5,
{
    let ghost ts = token_views(tokens@);
    proof {
        lemma_front(ts, pos as int);
        if pos + 5 <= ts.len() {
            lemma_skip_more(ts, pos as int, 5);
        }
    }
    let len = tokens.len();
    if !(pos < len && matches!(tokens[pos], Token::LParen)) {
        return Err(pos);
    }
    if !(len - pos > 1) {
        return Err(pos + 1);
    }
    let name = match &tokens[pos + 1] {
        Token::Name(name) => name.clone(),
        _ => {
            return Err(pos + 1);
        },
    };
    if !(len - pos > 2 && matches!(tokens[pos + 2], Token::Colon)) {
        return Err(pos + 2);
    }
    if !(len - pos > 3) {
        return Err(pos + 3);
    }
    proof {
        lemma_front(ts, pos + 3);
    }
    let ty = match type_at(tokens, pos + 3) {
        Ok((ty, _)) => ty,
        Err(_) => {
            return Err(pos + 3);
        },
    };
    if !(len - pos > 4 && matches!(tokens[pos + 4], Token::RParen)) {
        return Err(pos + 4);
    }
    Ok((Tpedvar(ty, name), pos + 5))
}

/// Whether `outcome` is what the grammar gives for the typed arguments at the
/// front of the tokens from `pos` on.
pub open spec fn reads_args(
    tokens: Seq<Token>,
    pos: usize,
    outcome: Result<(Vec<Tpedvar>, usize), usize>,
) -> bool {
    let expected = parse_args(token_views(tokens).skip(pos as int));
    match outcome {
        Ok((args, next)) => pos <= next <= tokens.len() && expected == Ok::<
            (Seq<TpedvarView>, Seq<TokenView>),
            nat,
        >((Tpedvar::models(args@), token_views(tokens).skip(next as int))),
        Err(at) => pos <= at <= tokens.len() && expected == Err::<
            (Seq<TpedvarView>, Seq<TokenView>),
            nat,
        >((tokens.len() - at) as nat),
    }
}

/// `args` in front of what reading the rest gave.
pub open spec fn args_after(
    args: Seq<TpedvarView>,
    rest: Result<(Seq<TpedvarView>, Seq<TokenView>), nat>,
) -> Result<(Seq<TpedvarView>, Seq<TokenView>), nat> {
    match rest {
        Ok((more, left)) => Ok((args + more, left)),
        Err(at) => Err(at),
    }
}

fn args_at(tokens: &Vec<Token>, pos: usize) -> (outcome: Result<(Vec<Tpedvar>, usize), usize>)
    requires
        pos <= tokens.len(),
    ensures
        reads_args(tokens@, pos, outcome),
{
    let ghost ts = token_views(tokens@);
    let mut args: Vec<Tpedvar> = Vec::new();
    let mut i: usize = pos;
    proof {
        match parse_args(ts.skip(pos as int)) {
            Ok((more, left)) => {
                assert(Tpedvar::models(args@) + more =~= more);
            },
            Err(_) => {},
        }
    }
    loop
        invariant
            pos <= i <= tokens.len(),
            ts == token_views(tokens@),
            parse_args(ts.skip(pos as int)) == args_after(
                Tpedvar::models(args@),
                parse_args(ts.skip(i as int)),
            ),
        decreases tokens.len() - i,
    {
        proof {
            lemma_front(ts, i as int);
        }
        if i < tokens.len() && matches!(tokens[i], Token::LParen) {
            match arg_at(tokens, i) {
                Err(at) => {
                    return Err(at);
                },
                Ok((arg, next)) => {
                    proof {
                        lemma_skip_more(ts, i as int, 5);
                    }
                    let ghost before = Tpedvar::models(args@);
                    let ghost tail = parse_args(ts.skip(next as int));
                    args.push(arg);
                    proof {
                        assert(Tpedvar::models(args@) =~= before + seq![arg@]);
                        match tail {
                            Ok((more, left)) => {
                                assert(before + (seq![arg@] + more) =~= (before + seq![arg@])
                                    + more);
                            },
                            Err(_) => {},
                        }
                    }
                    i = next;
                },
            }
        } else {
            proof {
                assert(Tpedvar::models(args@) + Seq::<TpedvarView>::empty() =~= Tpedvar::models(
                    args@,
                ));
            }
            return Ok((args, i));
        }
    }
}

fn names_at(tokens: &Vec<Token>, pos: usize) -> (found: (Vec<String>, usize))
    requires
        pos <= tokens.len(),
    ensures
        pos <= found.1 <= tokens.len(),
        parse_names(token_views(tokens@).skip(pos as int)) == (
            texts(found.0@),
            token_views(tokens@).skip(found.1 as int),
        ),
{
    let ghost ts = token_views(tokens@);
    let mut names: Vec<String> = Vec::new();
    let mut i: usize = pos;
    proof {
        assert(texts(names@) + parse_names(ts.skip(pos as int)).0 =~= parse_names(
            ts.skip(pos as int),
        ).0);
    }
    loop
        invariant
            pos <= i <= tokens.len(),
            ts == token_views(tokens@),
            parse_names(ts.skip(pos as int)) == (
                texts(names@) + parse_names(ts.skip(i as int)).0,
                parse_names(ts.skip(i as int)).1,
            ),
        decreases tokens.len() - i,
    {
        proof {
            lemma_front(ts, i as int);
        }
        if i < tokens.len() {
            if let Token::Name(name) = &tokens[i] {
                let ghost before = texts(names@);
                let ghost more = parse_names(ts.skip(i + 1)).0;
                names.push(name.clone());
                proof {
                    assert(texts(names@) =~= before + seq![name@]);
                    assert(before + (seq![name@] + more) =~= (before + seq![name@]) + more);
                }
                i = i + 1;
                continue ;
            }
        }
        proof {
            assert(texts(names@) + Seq::<Seq<char>>::empty() =~= texts(names@));
        }
        return (names, i);
    }
}

fn primary_at(tokens: &Vec<Token>, pos: usize) -> (outcome: Result<(Assertion, usize), usize>)
    requires
        pos <= tokens.len(),
    ensures
        reads(tokens@, pos, outcome, parse_primary(token_views(tokens@).skip(pos as int))),
        outcome is Ok ==> outcome->Ok_0.1 > pos,
    decreases tokens.len() - pos, 0nat,
{
    let ghost ts = token_views(tokens@);
    proof {
        lemma_front(ts, pos as int);
    }
    let len = tokens.len();
    if pos >= len {
        return Err(pos);
    }
    proof {
        lemma_front(ts, pos + 1);
        if pos + 3 <= ts.len() {
            lemma_skip_more(ts, pos as int, 3);
        }
    }
    match &tokens[pos] {
        Token::True => Ok((Assertion::True, pos + 1)),
        Token::Predicate(pred) => {
            let (names, next) = names_at(tokens, pos + 1);
            Ok((Assertion::Predicate(*pred, names), next))
        },
        Token::Name(lhs) => {
            if !(len - pos > 1) {
                return Err(pos + 1);
            }
            let op = match &tokens[pos + 1] {
                Token::Compare(op) => *op,
                _ => {
                    return Err(pos + 1);
                },
            };
            if !(len - pos > 2) {
                return Err(pos + 2);
            }
            let rhs = match &tokens[pos + 2] {
                Token::Name(rhs) => rhs.clone(),
                _ => {
                    return Err(pos + 2);
                },
            };
            Ok((Assertion::Op(op, lhs.clone(), rhs), pos + 3))
        },
        Token::Implies => match pair_at(tokens, pos + 1) {
            Err(at) => Err(at),
            Ok(((lhs, rhs), next)) => Ok((Assertion::Implies(Box::new(lhs), Box::new(rhs)), next)),
        },
        Token::Iff => match pair_at(tokens, pos + 1) {
            Err(at) => Err(at),
            Ok(((lhs, rhs), next)) => Ok((Assertion::Iff(Box::new(lhs), Box::new(rhs)), next)),
        },
        Token::LParen => enclosed_at(tokens, pos + 1),
        _ => Err(pos),
    }
}

fn pair_at(tokens: &Vec<Token>, pos: usize) -> (outcome: Result<
    ((Assertion, Assertion), usize),
    usize,
>)
    requires
        pos <= tokens.len(),
    ensures
        reads(tokens@, pos, outcome, parse_pair(token_views(tokens@).skip(pos as int))),
    decreases tokens.len() - pos, 8nat,
{
    let ghost ts = token_views(tokens@);
    proof {
        lemma_front(ts, pos as int);
    }
    match group_at(tokens, pos) {
        Err(at) => Err(at),
        Ok((lhs, middle)) => {
            proof {
                lemma_front(ts, middle as int);
            }
            match group_at(tokens, middle) {
                Err(at) => Err(at),
                Ok((rhs, next)) => Ok(((lhs, rhs), next)),
            }
        },
    }
}

fn group_at(tokens: &Vec<Token>, pos: usize) -> (outcome: Result<(Assertion, usize), usize>)
    requires
        pos <= tokens.len(),
    ensures
        reads(tokens@, pos, outcome, parse_group(token_views(tokens@).skip(pos as int))),
        outcome is Ok ==> outcome->Ok_0.1 > pos,
    decreases tokens.len() - pos, 7nat,
{
    proof {
        lemma_front(token_views(tokens@), pos as int);
    }
    if pos < tokens.len() && matches!(tokens[pos], Token::LParen) {
        enclosed_at(tokens, pos + 1)
    } else {
        Err(pos)
    }
}

fn enclosed_at(tokens: &Vec<Token>, pos: usize) -> (outcome: Result<(Assertion, usize), usize>)
    requires
        pos <= tokens.len(),
    ensures
        reads(tokens@, pos, outcome, parse_enclosed(token_views(tokens@).skip(pos as int))),
        outcome is Ok ==> outcome->Ok_0.1 > pos,
    decreases tokens.len() - pos, 9nat,
{
    match assertion_at(tokens, pos) {
        Err(at) => Err(at),
        Ok((inner, next)) => {
            proof {
                lemma_front(token_views(tokens@), next as int);
            }
            if next < tokens.len() && matches!(tokens[next], Token::RParen) {
                Ok((inner, next + 1))
            } else {
                Err(next)
            }
        },
    }
}

fn unary_at(tokens: &Vec<Token>, pos: usize) -> (outcome: Result<(Assertion, usize), usize>)
    requires
        pos <= tokens.len(),
    ensures
        reads(tokens@, pos, outcome, parse_unary(token_views(tokens@).skip(pos as int))),
        outcome is Ok ==> outcome->Ok_0.1 > pos,
    decreases tokens.len() - pos, 1nat,
{
    proof {
        lemma_front(token_views(tokens@), pos as int);
    }
    if pos < tokens.len() && matches!(tokens[pos], Token::Not) {
        match unary_at(tokens, pos + 1) {
            Err(at) => Err(at),
            Ok((inner, next)) => Ok((Assertion::Not(Box::new(inner)), next)),
        }
    } else {
        primary_at(tokens, pos)
    }
}

/// One round of reading a conjunction: with `&&` at `i` and the next member
/// read up to `j`, the rest is read as if the two had been joined before.
proof fn lemma_conjunction_step(
    ts: Seq<TokenView>,
    so_far: AssertionView,
    i: int,
    next: AssertionView,
    j: int,
)
    requires
        0 <= i < j <= ts.len(),
        ts[i] == TokenView::And,
        parse_unary(ts.skip(i + 1)) == Ok::<(AssertionView, Seq<TokenView>), nat>(
            (next, ts.skip(j)),
        ),
    ensures
        parse_conjunction_tail(so_far, ts.skip(i)) == parse_conjunction_tail(
            AssertionView::And(seq![so_far, next]),
            ts.skip(j),
        ),
{
    lemma_front(ts, i);
    lemma_front(ts, j);
}

/// Reading a conjunction stops where the next member cannot be read.
proof fn lemma_conjunction_stuck(ts: Seq<TokenView>, so_far: AssertionView, i: int, at: nat)
    requires
        0 <= i < ts.len(),
        ts[i] == TokenView::And,
        parse_unary(ts.skip(i + 1)) == Err::<(AssertionView, Seq<TokenView>), nat>(at),
    ensures
        parse_conjunction_tail(so_far, ts.skip(i)) == Err::<(AssertionView, Seq<TokenView>), nat>(at),
{
    lemma_front(ts, i);
}

/// Reading a conjunction ends in front of a token other than `&&`.
proof fn lemma_conjunction_done(ts: Seq<TokenView>, so_far: AssertionView, i: int)
    requires
        0 <= i <= ts.len(),
        !(i < ts.len() && ts[i] == TokenView::And),
    ensures
        parse_conjunction_tail(so_far, ts.skip(i)) == Ok::<(AssertionView, Seq<TokenView>), nat>(
            (so_far, ts.skip(i)),
        ),
{
    lemma_front(ts, i);
}

fn conjunction_at(tokens: &Vec<Token>, pos: usize) -> (outcome: Result<(Assertion, usize), usize>)
    requires
        pos <= tokens.len(),
    ensures
        reads(tokens@, pos, outcome, parse_conjunction(token_views(tokens@).skip(pos as int))),
        outcome is Ok ==> outcome->Ok_0.1 > pos,
    decreases tokens.len() - pos, 3nat,
{
    let ghost ts = token_views(tokens@);
    proof {
        lemma_front(ts, pos as int);
    }
    let (first, after_first) = match unary_at(tokens, pos) {
        Err(at) => {
            return Err(at);
        },
        Ok(found) => found,
    };
    let mut so_far = first;
    let mut i: usize = after_first;
    loop
        invariant
            pos < i <= tokens.len(),
            ts == token_views(tokens@),
            parse_conjunction(ts.skip(pos as int)) == parse_conjunction_tail(so_far@, ts.skip(i as int)),
        decreases tokens.len() - i,
    {
        if i < tokens.len() && matches!(tokens[i], Token::And) {
            match unary_at(tokens, i + 1) {
                Err(at) => {
                    proof {
                        lemma_conjunction_stuck(ts, so_far@, i as int, (tokens.len() - at) as nat);
                    }
                    return Err(at);
                },
                Ok((next, after_next)) => {
                    let ghost lhs = so_far@;
                    proof {
                        lemma_conjunction_step(ts, lhs, i as int, next@, after_next as int);
                    }
                    let mut members: Vec<Assertion> = Vec::new();
                    members.push(so_far);
                    members.push(next);
                    proof {
                        assert(Assertion::models(members@) =~= seq![lhs, next@]);
                    }
                    so_far = Assertion::And(members);
                    i = after_next;
                },
            }
        } else {
            proof {
                lemma_conjunction_done(ts, so_far@, i as int);
            }
            return Ok((so_far, i));
        }
    }
}

/// One round of reading a disjunction: with `||` at `i` and the next member
/// read up to `j`, the rest is read as if the two had been joined before.
proof fn lemma_disjunction_step(
    ts: Seq<TokenView>,
    so_far: AssertionView,
    i: int,
    next: AssertionView,
    j: int,
)
    requires
        0 <= i < j <= ts.len(),
        ts[i] == TokenView::Or,
        parse_conjunction(ts.skip(i + 1)) == Ok::<(AssertionView, Seq<TokenView>), nat>(
            (next, ts.skip(j)),
        ),
    ensures
        parse_disjunction_tail(so_far, ts.skip(i)) == parse_disjunction_tail(
            AssertionView::Or(seq![so_far, next]),
            ts.skip(j),
        ),
{
    lemma_front(ts, i);
    lemma_front(ts, j);
}

/// Reading a disjunction stops where the next member cannot be read.
proof fn lemma_disjunction_stuck(ts: Seq<TokenView>, so_far: AssertionView, i: int, at: nat)
    requires
        0 <= i < ts.len(),
        ts[i] == TokenView::Or,
        parse_conjunction(ts.skip(i + 1)) == Err::<(AssertionView, Seq<TokenView>), nat>(at),
    ensures
        parse_disjunction_tail(so_far, ts.skip(i)) == Err::<(AssertionView, Seq<TokenView>), nat>(at),
{
    lemma_front(ts, i);
}

/// Reading a disjunction ends in front of a token other than `||`.
proof fn lemma_disjunction_done(ts: Seq<TokenView>, so_far: AssertionView, i: int)
    requires
        0 <= i <= ts.len(),
        !(i < ts.len() && ts[i] == TokenView::Or),
    ensures
        parse_disjunction_tail(so_far, ts.skip(i)) == Ok::<(AssertionView, Seq<TokenView>), nat>(
            (so_far, ts.skip(i)),
        ),
{
    lemma_front(ts, i);
}

fn disjunction_at(tokens: &Vec<Token>, pos: usize) -> (outcome: Result<(Assertion, usize), usize>)
    requires
        pos <= tokens.len(),
    ensures
        reads(tokens@, pos, outcome, parse_disjunction(token_views(tokens@).skip(pos as int))),
        outcome is Ok ==> outcome->Ok_0.1 > pos,
    decreases tokens.len() - pos, 5nat,
{
    let ghost ts = token_views(tokens@);
    proof {
        lemma_front(ts, pos as int);
    }
    let (first, after_first) = match conjunction_at(tokens, pos) {
        Err(at) => {
            return Err(at);
        },
        Ok(found) => found,
    };
    let mut so_far = first;
    let mut i: usize = after_first;
    loop
        invariant
            pos < i <= tokens.len(),
            ts == token_views(tokens@),
            parse_disjunction(ts.skip(pos as int)) == parse_disjunction_tail(so_far@, ts.skip(i as int)),
        decreases tokens.len() - i,
    {
        if i < tokens.len() && matches!(tokens[i], Token::Or) {
            match conjunction_at(tokens, i + 1) {
                Err(at) => {
                    proof {
                        lemma_disjunction_stuck(ts, so_far@, i as int, (tokens.len() - at) as nat);
                    }
                    return Err(at);
                },
                Ok((next, after_next)) => {
                    let ghost lhs = so_far@;
                    proof {
                        lemma_disjunction_step(ts, lhs, i as int, next@, after_next as int);
                    }
                    let mut members: Vec<Assertion> = Vec::new();
                    members.push(so_far);
                    members.push(next);
                    proof {
                        assert(Assertion::models(members@) =~= seq![lhs, next@]);
                    }
                    so_far = Assertion::Or(members);
                    i = after_next;
                },
            }
        } else {
            proof {
                lemma_disjunction_done(ts, so_far@, i as int);
            }
            return Ok((so_far, i));
        }
    }
}

pub(crate) fn assertion_at(tokens: &Vec<Token>, pos: usize) -> (outcome: Result<(Assertion, usize), usize>)
    requires
        pos <= tokens.len(),
    ensures
        reads(tokens@, pos, outcome, parse_assertion(token_views(tokens@).skip(pos as int))),
        outcome is Ok ==> outcome->Ok_0.1 > pos,
    decreases tokens.len() - pos, 6nat,
{
    disjunction_at(tokens, pos)
}

fn is_kind(token: &Token, kind: SpecKind) -> (same: bool)
    ensures
        same == (token@ == kind_token(kind)),
{
    match kind {
        SpecKind::Pre => matches!(token, Token::Pre),
        SpecKind::Post => matches!(token, Token::Post),
    }
}

pub(crate) fn spec_at(kind: SpecKind, tokens: &Vec<Token>, pos: usize) -> (outcome: Result<
    (Spec, usize),
    usize,
>)
    requires
        pos <= tokens.len(),
    ensures
        reads(tokens@, pos, outcome, parse_spec(kind, token_views(tokens@).skip(pos as int))),
{
    let ghost ts = token_views(tokens@);
    proof {
        lemma_front(ts, pos as int);
    }
    let len = tokens.len();
    if !(pos < len && matches!(tokens[pos], Token::Let)) {
        return Err(pos);
    }
    if !(len - pos > 1 && is_kind(&tokens[pos + 1], kind)) {
        return Err(pos + 1);
    }
    proof {
        lemma_skip_more(ts, pos as int, 2);
    }
    let (args, after_args) = match args_at(tokens, pos + 2) {
        Err(at) => {
            return Err(at);
        },
        Ok(found) => found,
    };
    proof {
        lemma_front(ts, after_args as int);
    }
    if !(after_args < len && matches!(tokens[after_args], Token::Compare(AssertionOp::Eq))) {
        return Err(after_args);
    }
    match assertion_at(tokens, after_args + 1) {
        Err(at) => Err(at),
        Ok((body, next)) => Ok((Spec(args, body), next)),
    }
}

fn listed(token: &Token) -> (pred: Option<Pred>)
    ensures
        pred == listed_predicate(token@),
{
    match token {
        Token::Predicate(pred) => Some(*pred),
        Token::Quoted(text) => known_predicate(text.as_str()),
        _ => None,
    }
}

/// `preds` in front of what reading the rest gave.
pub open spec fn preds_after(preds: Seq<Pred>, rest: Result<(Seq<Pred>, Seq<TokenView>), nat>) -> Result<
    (Seq<Pred>, Seq<TokenView>),
    nat,
> {
    match rest {
        Ok((more, left)) => Ok((preds + more, left)),
        Err(at) => Err(at),
    }
}

/// One step of reading a predicate list: the symbol at `i` and what follows.
proof fn lemma_pred_items_step(ts: Seq<TokenView>, i: int)
    requires
        0 <= i < ts.len(),
        listed_predicate(ts[i]) is Some,
    ensures
        parse_pred_items(ts.skip(i)) == (if i + 1 < ts.len() && ts[i + 1]
            == TokenView::Semicolon {
            preds_after(seq![listed_predicate(ts[i])->0], parse_pred_items(ts.skip(i + 2)))
        } else {
            Ok((seq![listed_predicate(ts[i])->0], ts.skip(i + 1)))
        }),
{
    lemma_front(ts, i);
    if i + 1 < ts.len() {
        lemma_skip_more(ts, i, 2);
    }
}

fn pred_items_at(tokens: &Vec<Token>, pos: usize) -> (outcome: Result<
    (AssertionPredicates, usize),
    usize,
>)
    requires
        pos <= tokens.len(),
    ensures
        reads(tokens@, pos, outcome, parse_pred_items(token_views(tokens@).skip(pos as int))),
{
    let ghost ts = token_views(tokens@);
    let mut preds: Vec<Pred> = Vec::new();
    let mut i: usize = pos;
    proof {
        match parse_pred_items(ts.skip(pos as int)) {
            Ok((more, left)) => {
                assert(preds@ + more =~= more);
            },
            Err(_) => {},
        }
    }
    loop
        invariant
            pos <= i <= tokens.len(),
            ts == token_views(tokens@),
            parse_pred_items(ts.skip(pos as int)) == preds_after(
                preds@,
                parse_pred_items(ts.skip(i as int)),
            ),
        decreases tokens.len() - i,
    {
        if !(i < tokens.len()) {
            proof {
                assert(ts.skip(i as int).len() == 0);
            }
            return Err(i);
        }
        let pred = match listed(&tokens[i]) {
            Some(pred) => pred,
            None => {
                proof {
                    assert(ts.skip(i as int)[0] == ts[i as int]);
                    assert(ts.skip(i as int).len() == ts.len() - i);
                }
                return Err(i);
            },
        };
        proof {
            lemma_pred_items_step(ts, i as int);
        }
        let ghost before = preds@;
        preds.push(pred);
        if tokens.len() - i > 1 && matches!(tokens[i + 1], Token::Semicolon) {
            proof {
                match parse_pred_items(ts.skip(i + 2)) {
                    Ok((more, left)) => {
                        assert(before + (seq![pred] + more) =~= preds@ + more);
                    },
                    Err(_) => {},
                }
            }
            i = i + 2;
        } else {
            proof {
                assert(before + seq![pred] =~= preds@);
            }
            return Ok((AssertionPredicates(preds), i + 1));
        }
    }
}

fn preds_at(tokens: &Vec<Token>, pos: usize) -> (outcome: Result<
    (AssertionPredicates, usize),
    usize,
>)
    requires
        pos <= tokens.len(),
    ensures
        reads(tokens@, pos, outcome, parse_preds(token_views(tokens@).skip(pos as int))),
{
    let ghost ts = token_views(tokens@);
    proof {
        lemma_front(ts, pos as int);
    }
    let len = tokens.len();
    if !(pos < len && matches!(tokens[pos], Token::Let)) {
        return Err(pos);
    }
    if !(len - pos > 1 && matches!(tokens[pos + 1], Token::Preds)) {
        return Err(pos + 1);
    }
    if !(len - pos > 2 && matches!(tokens[pos + 2], Token::Compare(AssertionOp::Eq))) {
        return Err(pos + 2);
    }
    if !(len - pos > 3 && matches!(tokens[pos + 3], Token::ArrayOpen)) {
        return Err(pos + 3);
    }
    proof {
        lemma_skip_more(ts, pos as int, 4);
        if pos + 5 <= ts.len() {
            lemma_skip_more(ts, pos as int, 5);
        }
    }
    if len - pos > 4 && matches!(tokens[pos + 4], Token::ArrayClose) {
        return Ok((AssertionPredicates(Vec::new()), pos + 5));
    }
    match pred_items_at(tokens, pos + 4) {
        Err(at) => Err(at),
        Ok((preds, next)) => {
            proof {
                lemma_front(ts, next as int);
            }
            if next < len && matches!(tokens[next], Token::ArrayClose) {
                Ok((preds, next + 1))
            } else {
                Err(next)
            }
        },
    }
}

pub(crate) fn file_at(tokens: &Vec<Token>, pos: usize) -> (outcome: Result<(AssertionFile, usize), usize>)
    requires
        pos <= tokens.len(),
    ensures
        reads(tokens@, pos, outcome, parse_file(token_views(tokens@).skip(pos as int))),
{
    let ghost ts = token_views(tokens@);
    let (preds, after_preds) = match preds_at(tokens, pos) {
        Err(at) => {
            return Err(at);
        },
        Ok(found) => found,
    };
    proof {
        lemma_front(ts, after_preds as int);
    }
    let len = tokens.len();
    let has_pre = len - after_preds > 1 && matches!(tokens[after_preds], Token::Let) && matches!(
        tokens[after_preds + 1],
        Token::Pre
    );
    if has_pre {
        let (pre, after_pre) = match spec_at(SpecKind::Pre, tokens, after_preds) {
            Err(at) => {
                return Err(at);
            },
            Ok(found) => found,
        };
        match spec_at(SpecKind::Post, tokens, after_pre) {
            Err(at) => Err(at),
            Ok((post, next)) => Ok(
                (AssertionFile { preds, pre_spec: Some(pre), post_spec: post }, next),
            ),
        }
    } else {
        match spec_at(SpecKind::Post, tokens, after_preds) {
            Err(at) => Err(at),
            Ok((post, next)) => Ok((AssertionFile { preds, pre_spec: None, post_spec: post }, next)),
        }
    }
}

} // verus!
