//! What the lexer makes of rendered text: the tokens that spell the value.

use crate::ipc_assertion::{
    render_predicates, symbols, AssertionFileView, AssertionOp, AssertionTypeView, AssertionView,
    Pred, SpecKind, SpecView, TpedvarView,
};
use crate::lexer::{after, is_name_start, is_space, lex, quoted_len, word, TokenView};
use crate::lexing::{
    is_name, is_word, lemma_lex_and, lemma_lex_blank, lemma_lex_close, lemma_lex_compare,
    lemma_lex_not, lemma_lex_open, lemma_lex_or, lemma_lex_token, lemma_lex_word,
    lemma_predicate_words, lemma_reserved_words,
};
use crate::reading::{
    arg_onto, args_onto, cons, file_onto, group_onto, is_binary, items_onto, member_onto,
    names_onto, preds_onto, spec_onto, tokens_onto, type_token,
};
use crate::text::joined;
use vstd::prelude::*;

verus! {

/// Whether a rendered value that stands in front of `rest` ends there:
/// `rest` is empty or starts with white space or `)`.
pub open spec fn ends_text(rest: Seq<char>) -> bool {
    rest.len() == 0 || is_space(rest[0]) || rest[0] == ')'
}

/// Whether `rest` starts as a rendered formula does: with a letter, an
/// underscore, `!` or `(`.
pub open spec fn starts_formula(rest: Seq<char>) -> bool {
    rest.len() > 0 && (is_name_start(rest[0]) || rest[0] == '!' || rest[0] == '(')
}

/// Six texts in a row, grouped from the left or from the right.
pub proof fn lemma_regroup(
    a: Seq<char>,
    b: Seq<char>,
    c: Seq<char>,
    d: Seq<char>,
    e: Seq<char>,
    f: Seq<char>,
)
    ensures
        a + b + c + d + e + f == a + (b + (c + (d + (e + f)))),
        a + b + c + d + e == a + (b + (c + (d + e))),
        a + b + c + d == a + (b + (c + d)),
        a + b + c == a + (b + c),
{
    assert(a + b + c + d + e + f =~= a + (b + (c + (d + (e + f)))));
    assert(a + b + c + d + e =~= a + (b + (c + (d + e))));
    assert(a + b + c + d =~= a + (b + (c + d)));
    assert(a + b + c =~= a + (b + c));
}

/// A blank in front of a text does not change its tokens.
pub proof fn lemma_lex_space(rest: Seq<char>)
    ensures
        lex(" "@ + rest) == lex(rest),
{
    reveal_strlit(" ");
    assert(" "@ + rest =~= seq![' '] + rest);
    lemma_lex_blank(' ', rest);
}

/// A line break in front of a text does not change its tokens.
pub proof fn lemma_lex_newline(rest: Seq<char>)
    ensures
        lex("\n"@ + rest) == lex(rest),
{
    reveal_strlit("\n");
    assert("\n"@ + rest =~= seq!['\n'] + rest);
    lemma_lex_blank('\n', rest);
}

/// `)` at the end of a group is read as a token.
pub proof fn lemma_lex_closing(rest: Seq<char>)
    ensures
        lex(")"@ + rest) == after(seq![TokenView::RParen], lex(rest)),
{
    reveal_strlit(")");
    assert(")"@ + rest =~= seq![')'] + rest);
    lemma_lex_close(rest);
}

/// `) (` between two groups is read as two tokens.
pub proof fn lemma_lex_between_groups(rest: Seq<char>)
    requires
        rest.len() == 0 || rest[0] != '*',
    ensures
        lex(") ("@ + rest) == after(
            seq![TokenView::RParen],
            after(seq![TokenView::LParen], lex(rest)),
        ),
{
    reveal_strlit(") (");
    let opening = seq!['('] + rest;
    let spaced = seq![' '] + opening;
    assert(") ("@ + rest =~= seq![')'] + spaced);
    lemma_lex_close(spaced);
    lemma_lex_blank(' ', opening);
    lemma_lex_open(rest);
}

/// A reserved word, a blank and `(` in front of a group are read as two
/// tokens.
proof fn lemma_lex_head(head: Seq<char>, keyword: Seq<char>, rest: Seq<char>)
    requires
        is_word(keyword),
        head == keyword + seq![' ', '('],
        rest.len() == 0 || rest[0] != '*',
    ensures
        lex(head + rest) == after(seq![word(keyword)], after(seq![TokenView::LParen], lex(rest))),
{
    let opening = seq!['('] + rest;
    let spaced = seq![' '] + opening;
    assert(head + rest =~= keyword + spaced);
    lemma_lex_word(keyword, spaced);
    lemma_lex_blank(' ', opening);
    lemma_lex_open(rest);
}

/// `implies (` in front of a group is read as two tokens.
pub proof fn lemma_lex_implies(rest: Seq<char>)
    requires
        rest.len() == 0 || rest[0] != '*',
    ensures
        lex("implies ("@ + rest) == after(
            seq![TokenView::Implies],
            after(seq![TokenView::LParen], lex(rest)),
        ),
{
    reveal_strlit("implies (");
    reveal_strlit("implies");
    lemma_reserved_words();
    assert("implies ("@ =~= "implies"@ + seq![' ', '(']);
    lemma_lex_head("implies ("@, "implies"@, rest);
}

/// `iff (` in front of a group is read as two tokens.
pub proof fn lemma_lex_iff(rest: Seq<char>)
    requires
        rest.len() == 0 || rest[0] != '*',
    ensures
        lex("iff ("@ + rest) == after(
            seq![TokenView::Iff],
            after(seq![TokenView::LParen], lex(rest)),
        ),
{
    reveal_strlit("iff (");
    reveal_strlit("iff");
    lemma_reserved_words();
    assert("iff ("@ =~= "iff"@ + seq![' ', '(']);
    lemma_lex_head("iff ("@, "iff"@, rest);
}

/// `!` in front of a formula is read as a token.
pub proof fn lemma_lex_bang(rest: Seq<char>)
    requires
        rest.len() == 0 || rest[0] != '=',
    ensures
        lex("!"@ + rest) == after(seq![TokenView::Not], lex(rest)),
{
    reveal_strlit("!");
    assert("!"@ + rest =~= seq!['!'] + rest);
    lemma_lex_not(rest);
}

/// `&&` between blanks is read as a token.
pub proof fn lemma_lex_and_between(rest: Seq<char>)
    ensures
        lex(" && "@ + rest) == after(seq![TokenView::And], lex(rest)),
{
    reveal_strlit(" && ");
    let behind = seq![' '] + rest;
    let symbol = seq!['&', '&'] + behind;
    assert(" && "@ + rest =~= seq![' '] + symbol);
    lemma_lex_blank(' ', symbol);
    lemma_lex_and(behind);
    lemma_lex_blank(' ', rest);
}

/// `||` between blanks is read as a token.
pub proof fn lemma_lex_or_between(rest: Seq<char>)
    ensures
        lex(" || "@ + rest) == after(seq![TokenView::Or], lex(rest)),
{
    reveal_strlit(" || ");
    let behind = seq![' '] + rest;
    let symbol = seq!['|', '|'] + behind;
    assert(" || "@ + rest =~= seq![' '] + symbol);
    lemma_lex_blank(' ', symbol);
    lemma_lex_or(behind);
    lemma_lex_blank(' ', rest);
}

/// The tokens of `names` in front of what lexing the rest gave.
pub open spec fn names_lexed_onto(
    names: Seq<Seq<char>>,
    rest: Result<Seq<TokenView>, nat>,
) -> Result<Seq<TokenView>, nat> {
    match rest {
        Ok(more) => Ok(names_onto(names, more)),
        Err(left) => Err(left),
    }
}

/// The tokens of `formula` in front of what lexing the rest gave.
pub open spec fn lexed_onto(formula: AssertionView, rest: Result<Seq<TokenView>, nat>) -> Result<
    Seq<TokenView>,
    nat,
> {
    match rest {
        Ok(more) => Ok(tokens_onto(formula, more)),
        Err(left) => Err(left),
    }
}

/// Whether every member of `names` is a name.
pub open spec fn all_names(names: Seq<Seq<char>>) -> bool {
    forall|i: int| 0 <= i < names.len() ==> is_name(#[trigger] names[i])
}

/// Names with blanks between them are read as one name token each.
pub proof fn lemma_spell_names(names: Seq<Seq<char>>, rest: Seq<char>)
    requires
        all_names(names),
        ends_text(rest),
    ensures
        lex(joined(names, " "@) + rest) == names_lexed_onto(names, lex(rest)),
    decreases names.len(),
{
    reveal_strlit(" ");
    if names.len() == 0 {
        assert(joined(names, " "@) + rest =~= rest);
    } else if names.len() == 1 {
        assert(is_name(names[0]));
        lemma_lex_word(names[0], rest);
        match lex(rest) {
            Ok(more) => {
                assert(names_onto(names.drop_first(), more) == more);
            },
            Err(_) => {},
        }
    } else {
        let others = names.drop_first();
        let behind = joined(others, " "@) + rest;
        let spaced = " "@ + behind;
        assert(is_name(names[0]));
        assert forall|i: int| 0 <= i < others.len() implies is_name(#[trigger] others[i]) by {
            assert(others[i] == names[i + 1]);
        }
        lemma_regroup(names[0], " "@, joined(others, " "@), rest, Seq::empty(), Seq::empty());
        assert(joined(names, " "@) + rest == names[0] + spaced);
        lemma_lex_word(names[0], spaced);
        lemma_lex_space(behind);
        lemma_spell_names(others, rest);
    }
}

/// Whether every variable of `formula` is a name.
pub open spec fn has_names(formula: AssertionView) -> bool
    decreases formula,
{
    match formula {
        AssertionView::True => true,
        AssertionView::Predicate(_, args) => all_names(args),
        AssertionView::Op(_, lhs, rhs) => is_name(lhs) && is_name(rhs),
        AssertionView::Implies(lhs, rhs) => has_names(*lhs) && has_names(*rhs),
        AssertionView::Iff(lhs, rhs) => has_names(*lhs) && has_names(*rhs),
        AssertionView::Not(inner) => has_names(*inner),
        AssertionView::And(items) => forall|i: int|
            0 <= i < items.len() ==> has_names(#[trigger] items[i]),
        AssertionView::Or(items) => forall|i: int|
            0 <= i < items.len() ==> has_names(#[trigger] items[i]),
    }
}

/// Two texts joined are the first, the separator and the second.
pub proof fn lemma_joined_pair(parts: Seq<Seq<char>>, sep: Seq<char>)
    requires
        parts.len() == 2,
    ensures
        joined(parts, sep) == parts[0] + sep + parts[1],
{
    assert(parts.drop_first().len() == 1);
    assert(parts.drop_first()[0] == parts[1]);
    assert(joined(parts.drop_first(), sep) == parts[1]);
}

/// The tokens of a parenthesised formula in front of what lexing the rest
/// gave.
pub open spec fn group_lexed_onto(
    formula: AssertionView,
    rest: Result<Seq<TokenView>, nat>,
) -> Result<Seq<TokenView>, nat> {
    match rest {
        Ok(more) => Ok(group_onto(formula, more)),
        Err(left) => Err(left),
    }
}

/// The tokens of a member in front of what lexing the rest gave.
pub open spec fn member_lexed_onto(
    formula: AssertionView,
    conj: bool,
    first: bool,
    rest: Result<Seq<TokenView>, nat>,
) -> Result<Seq<TokenView>, nat> {
    match rest {
        Ok(more) => Ok(member_onto(formula, conj, first, more)),
        Err(left) => Err(left),
    }
}

/// A rendered formula starts with a letter, an underscore, `!` or `(`.
pub proof fn lemma_render_starts(formula: AssertionView)
    requires
        is_binary(formula),
        has_names(formula),
    ensures
        starts_formula(formula.render()),
    decreases formula, 0nat,
{
    match formula {
        AssertionView::True => {
            reveal_strlit("true");
        },
        AssertionView::Predicate(pred, args) => {
            lemma_predicate_words(pred);
        },
        AssertionView::Op(op, lhs, rhs) => {},
        AssertionView::Implies(lhs, rhs) => {
            reveal_strlit("implies (");
        },
        AssertionView::Iff(lhs, rhs) => {
            reveal_strlit("iff (");
        },
        AssertionView::Not(inner) => {
            reveal_strlit("!");
        },
        AssertionView::And(items) => {
            lemma_member_starts(items[0], true, true);
            lemma_joined_pair(AssertionView::members(items, true), " && "@);
        },
        AssertionView::Or(items) => {
            lemma_member_starts(items[0], false, true);
            lemma_joined_pair(AssertionView::members(items, false), " || "@);
        },
    }
}

/// A member as it is written starts with a letter, an underscore, `!` or
/// `(`.
pub proof fn lemma_member_starts(formula: AssertionView, conj: bool, first: bool)
    requires
        is_binary(formula),
        has_names(formula),
    ensures
        starts_formula(formula.member(conj, first)),
    decreases formula, 1nat,
{
    if formula.needs_group(conj, first) {
        reveal_strlit("(");
    } else {
        lemma_render_starts(formula);
    }
}

/// The lexer reads `true` as its token.
pub proof fn lemma_spell_true(rest: Seq<char>)
    requires
        ends_text(rest),
    ensures
        lex("true"@ + rest) == lexed_onto(AssertionView::True, lex(rest)),
{
    lemma_reserved_words();
    lemma_lex_word("true"@, rest);
}

/// The lexer reads a predicate and its arguments as their tokens.
pub proof fn lemma_spell_predicate(pred: Pred, args: Seq<Seq<char>>, rest: Seq<char>)
    requires
        all_names(args),
        ends_text(rest),
    ensures
        lex(AssertionView::Predicate(pred, args).render() + rest) == lexed_onto(
            AssertionView::Predicate(pred, args),
            lex(rest),
        ),
{
    reveal_strlit(" ");
    let none = Seq::<char>::empty();
    let list = joined(args, " "@) + rest;
    lemma_predicate_words(pred);
    lemma_regroup(pred.render(), " "@, joined(args, " "@), rest, none, none);
    lemma_lex_word(pred.render(), " "@ + list);
    lemma_lex_space(list);
    lemma_spell_names(args, rest);
}

/// The lexer reads a comparison of two names as its three tokens.
pub proof fn lemma_spell_op(op: AssertionOp, lhs: Seq<char>, rhs: Seq<char>, rest: Seq<char>)
    requires
        is_name(lhs),
        is_name(rhs),
        ends_text(rest),
    ensures
        lex(AssertionView::Op(op, lhs, rhs).render() + rest) == lexed_onto(
            AssertionView::Op(op, lhs, rhs),
            lex(rest),
        ),
{
    reveal_strlit(" ");
    let fourth = rhs + rest;
    let third = " "@ + fourth;
    let second = op.render() + third;
    let first = " "@ + second;
    lemma_regroup(lhs, " "@, op.render(), " "@, rhs, rest);
    lemma_lex_word(lhs, first);
    lemma_lex_space(second);
    lemma_lex_compare(op, third);
    lemma_lex_space(fourth);
    lemma_lex_word(rhs, rest);
}

/// The lexer reads two groups behind `implies` or `iff` as their tokens, if
/// it reads each of the two formulas as its own.
proof fn lemma_spell_pair(
    head: Seq<char>,
    keyword: TokenView,
    lhs: AssertionView,
    rhs: AssertionView,
    rest: Seq<char>,
)
    requires
        starts_formula(lhs.render()),
        starts_formula(rhs.render()),
        forall|tail: Seq<char>|
            tail.len() == 0 || tail[0] != '*' ==> #[trigger] lex(head + tail) == after(
                seq![keyword],
                after(seq![TokenView::LParen], lex(tail)),
            ),
        lex(lhs.render() + (") ("@ + (rhs.render() + (")"@ + rest)))) == lexed_onto(
            lhs,
            lex(") ("@ + (rhs.render() + (")"@ + rest))),
        ),
        lex(rhs.render() + (")"@ + rest)) == lexed_onto(rhs, lex(")"@ + rest)),
    ensures
        lex(head + lhs.render() + ") ("@ + rhs.render() + ")"@ + rest) == (match lex(rest) {
            Ok(more) => Ok(cons(keyword, group_onto(lhs, group_onto(rhs, more)))),
            Err(left) => Err(left),
        }),
{
    let fourth = ")"@ + rest;
    let third = rhs.render() + fourth;
    let second = ") ("@ + third;
    let first = lhs.render() + second;
    lemma_regroup(head, lhs.render(), ") ("@, rhs.render(), ")"@, rest);
    assert(lex(head + first) == after(seq![keyword], after(seq![TokenView::LParen], lex(first))));
    lemma_lex_between_groups(third);
    lemma_lex_closing(rest);
}

/// The lexer reads a negation as `!` and the tokens of what is negated, if
/// it reads that as its own.
proof fn lemma_spell_not(inner: AssertionView, rest: Seq<char>)
    requires
        starts_formula(inner.member(true, false)),
        lex(inner.member(true, false) + rest) == member_lexed_onto(inner, true, false, lex(rest)),
    ensures
        lex(AssertionView::Not(Box::new(inner)).render() + rest) == lexed_onto(
            AssertionView::Not(Box::new(inner)),
            lex(rest),
        ),
{
    let none = Seq::<char>::empty();
    let behind = inner.member(true, false) + rest;
    lemma_regroup("!"@, inner.member(true, false), rest, none, none, none);
    lemma_lex_bang(behind);
}

/// `&&` between the members of a conjunction (`conj`), `||` between those of
/// a disjunction, with a blank on either side.
pub open spec fn between(conj: bool) -> Seq<char> {
    if conj {
        " && "@
    } else {
        " || "@
    }
}

/// The token between the members of a conjunction (`conj`) or of a
/// disjunction.
pub open spec fn between_token(conj: bool) -> TokenView {
    if conj {
        TokenView::And
    } else {
        TokenView::Or
    }
}

/// The lexer reads two members with `&&` or `||` between them as the tokens
/// of the first, the symbol, and the tokens of the second, if it reads each
/// member as its own.
proof fn lemma_spell_binary(conj: bool, lhs: AssertionView, rhs: AssertionView, rest: Seq<char>)
    requires
        lex(lhs.member(conj, true) + (between(conj) + (rhs.member(conj, false) + rest)))
            == member_lexed_onto(
            lhs,
            conj,
            true,
            lex(between(conj) + (rhs.member(conj, false) + rest)),
        ),
        lex(rhs.member(conj, false) + rest) == member_lexed_onto(rhs, conj, false, lex(rest)),
    ensures
        lex(lhs.member(conj, true) + between(conj) + rhs.member(conj, false) + rest) == (
        match lex(rest) {
            Ok(more) => Ok(
                member_onto(
                    lhs,
                    conj,
                    true,
                    cons(between_token(conj), member_onto(rhs, conj, false, more)),
                ),
            ),
            Err(left) => Err(left),
        }),
{
    let none = Seq::<char>::empty();
    let second = rhs.member(conj, false) + rest;
    lemma_regroup(lhs.member(conj, true), between(conj), rhs.member(conj, false), rest, none, none);
    if conj {
        lemma_lex_and_between(second);
    } else {
        lemma_lex_or_between(second);
    }
}

/// The lexer reads a formula between parentheses as `(`, its tokens and
/// `)`, if it reads the formula as its own.
proof fn lemma_spell_grouped(formula: AssertionView, rest: Seq<char>)
    requires
        starts_formula(formula.render()),
        lex(formula.render() + (")"@ + rest)) == lexed_onto(formula, lex(")"@ + rest)),
    ensures
        lex(formula.grouped() + rest) == group_lexed_onto(formula, lex(rest)),
{
    let none = Seq::<char>::empty();
    let closing = ")"@ + rest;
    lemma_regroup("("@, formula.render(), ")"@, rest, none, none);
    lemma_lex_opening(formula.render() + closing);
    lemma_lex_closing(rest);
}

/// The lexer reads the text of a formula as the tokens that spell it.
pub proof fn lemma_spell(formula: AssertionView, rest: Seq<char>)
    requires
        is_binary(formula),
        has_names(formula),
        ends_text(rest),
    ensures
        lex(formula.render() + rest) == lexed_onto(formula, lex(rest)),
    decreases formula, 0nat,
{
    match formula {
        AssertionView::True => {
            lemma_spell_true(rest);
        },
        AssertionView::Predicate(pred, args) => {
            lemma_spell_predicate(pred, args, rest);
        },
        AssertionView::Op(op, lhs, rhs) => {
            lemma_spell_op(op, lhs, rhs, rest);
        },
        AssertionView::Implies(lhs, rhs) => {
            let fourth = ")"@ + rest;
            let second = ") ("@ + (rhs.render() + fourth);
            assert(ends_text(fourth) && ends_text(second)) by {
                reveal_strlit(") (");
                reveal_strlit(")");
            }
            lemma_render_starts(*lhs);
            lemma_render_starts(*rhs);
            lemma_spell(*lhs, second);
            lemma_spell(*rhs, fourth);
            assert forall|tail: Seq<char>| tail.len() == 0 || tail[0] != '*' implies #[trigger] lex(
                "implies ("@ + tail,
            ) == after(seq![TokenView::Implies], after(seq![TokenView::LParen], lex(tail))) by {
                lemma_lex_implies(tail);
            }
            lemma_spell_pair("implies ("@, TokenView::Implies, *lhs, *rhs, rest);
        },
        AssertionView::Iff(lhs, rhs) => {
            let fourth = ")"@ + rest;
            let second = ") ("@ + (rhs.render() + fourth);
            assert(ends_text(fourth) && ends_text(second)) by {
                reveal_strlit(") (");
                reveal_strlit(")");
            }
            lemma_render_starts(*lhs);
            lemma_render_starts(*rhs);
            lemma_spell(*lhs, second);
            lemma_spell(*rhs, fourth);
            assert forall|tail: Seq<char>| tail.len() == 0 || tail[0] != '*' implies #[trigger] lex(
                "iff ("@ + tail,
            ) == after(seq![TokenView::Iff], after(seq![TokenView::LParen], lex(tail))) by {
                lemma_lex_iff(tail);
            }
            lemma_spell_pair("iff ("@, TokenView::Iff, *lhs, *rhs, rest);
        },
        AssertionView::Not(inner) => {
            lemma_member_starts(*inner, true, false);
            lemma_spell_member(*inner, true, false, rest);
            lemma_spell_not(*inner, rest);
        },
        AssertionView::And(items) => {
            let first = " && "@ + (items[1].member(true, false) + rest);
            assert(ends_text(first)) by {
                reveal_strlit(" && ");
            }
            lemma_joined_pair(AssertionView::members(items, true), " && "@);
            lemma_spell_member(items[0], true, true, first);
            lemma_spell_member(items[1], true, false, rest);
            lemma_spell_binary(true, items[0], items[1], rest);
        },
        AssertionView::Or(items) => {
            let first = " || "@ + (items[1].member(false, false) + rest);
            assert(ends_text(first)) by {
                reveal_strlit(" || ");
            }
            lemma_joined_pair(AssertionView::members(items, false), " || "@);
            lemma_spell_member(items[0], false, true, first);
            lemma_spell_member(items[1], false, false, rest);
            lemma_spell_binary(false, items[0], items[1], rest);
        },
    }
}

/// The lexer reads a formula between parentheses as `(`, its tokens and `)`.
pub proof fn lemma_spell_group(formula: AssertionView, rest: Seq<char>)
    requires
        is_binary(formula),
        has_names(formula),
    ensures
        lex(formula.grouped() + rest) == group_lexed_onto(formula, lex(rest)),
    decreases formula, 1nat,
{
    let closing = ")"@ + rest;
    assert(ends_text(closing)) by {
        reveal_strlit(")");
    }
    lemma_render_starts(formula);
    lemma_spell(formula, closing);
    lemma_spell_grouped(formula, rest);
}

/// The lexer reads a member as it is written as the tokens that spell it.
pub proof fn lemma_spell_member(formula: AssertionView, conj: bool, first: bool, rest: Seq<char>)
    requires
        is_binary(formula),
        has_names(formula),
        ends_text(rest),
    ensures
        lex(formula.member(conj, first) + rest) == member_lexed_onto(
            formula,
            conj,
            first,
            lex(rest),
        ),
    decreases formula, 2nat,
{
    if formula.needs_group(conj, first) {
        lemma_spell_group(formula, rest);
    } else {
        lemma_spell(formula, rest);
    }
}

/// Eight texts in a row, grouped from the left or from the right.
pub proof fn lemma_regroup_eight(
    a: Seq<char>,
    b: Seq<char>,
    c: Seq<char>,
    d: Seq<char>,
    e: Seq<char>,
    f: Seq<char>,
    g: Seq<char>,
    h: Seq<char>,
)
    ensures
        a + b + c + d + e + f + g + h == a + (b + (c + (d + (e + (f + (g + h)))))),
        a + b + c + d + e + f + g == a + (b + (c + (d + (e + (f + g))))),
{
    assert(a + b + c + d + e + f + g + h =~= a + (b + (c + (d + (e + (f + (g + h)))))));
    assert(a + b + c + d + e + f + g =~= a + (b + (c + (d + (e + (f + g))))));
}

/// `(` at the start of an argument is read as a token.
pub proof fn lemma_lex_opening(rest: Seq<char>)
    requires
        rest.len() == 0 || rest[0] != '*',
    ensures
        lex("("@ + rest) == after(seq![TokenView::LParen], lex(rest)),
{
    reveal_strlit("(");
    assert("("@ + rest =~= seq!['('] + rest);
    lemma_lex_open(rest);
}

/// `:` between blanks is read as a token.
pub proof fn lemma_lex_colon_between(rest: Seq<char>)
    ensures
        lex(" : "@ + rest) == after(seq![TokenView::Colon], lex(rest)),
{
    reveal_strlit(" : ");
    let behind = seq![' '] + rest;
    let symbol = seq![':'] + behind;
    assert(" : "@ + rest =~= seq![' '] + symbol);
    lemma_lex_blank(' ', symbol);
    crate::lexing::lemma_lex_colon(behind);
    lemma_lex_blank(' ', rest);
}

/// `let` and a blank are read as a token.
pub proof fn lemma_lex_let(rest: Seq<char>)
    ensures
        lex("let "@ + rest) == after(seq![TokenView::Let], lex(rest)),
{
    reveal_strlit("let ");
    reveal_strlit("let");
    lemma_reserved_words();
    let behind = seq![' '] + rest;
    assert("let "@ + rest =~= "let"@ + behind);
    lemma_lex_word("let"@, behind);
    lemma_lex_blank(' ', rest);
}

/// `=` at the end of a header, with the line break and the indentation behind
/// it, is read as a token.
pub proof fn lemma_lex_header_end(rest: Seq<char>)
    ensures
        lex(" =\n  "@ + rest) == after(seq![TokenView::Compare(AssertionOp::Eq)], lex(rest)),
{
    reveal_strlit(" =\n  ");
    reveal_strlit("=");
    let fourth = seq![' '] + rest;
    let third = seq![' '] + fourth;
    let second = seq!['\n'] + third;
    let first = "="@ + second;
    assert(" =\n  "@ + rest =~= seq![' '] + first);
    lemma_lex_blank(' ', first);
    lemma_lex_compare(AssertionOp::Eq, second);
    lemma_lex_blank('\n', third);
    lemma_lex_blank(' ', fourth);
    lemma_lex_blank(' ', rest);
}

/// Whether the name of an argument is a name and its type, where it is
/// generic, has a name for its name.
pub open spec fn arg_has_names(arg: TpedvarView) -> bool {
    is_name(arg.1) && (arg.0 matches AssertionTypeView::Generic(name) ==> is_name(name))
}

/// Whether every argument has names for its name and for its type.
pub open spec fn args_have_names(args: Seq<TpedvarView>) -> bool {
    forall|i: int| 0 <= i < args.len() ==> arg_has_names(#[trigger] args[i])
}

/// The tokens of an argument in front of what lexing the rest gave.
pub open spec fn arg_lexed_onto(arg: TpedvarView, rest: Result<Seq<TokenView>, nat>) -> Result<
    Seq<TokenView>,
    nat,
> {
    match rest {
        Ok(more) => Ok(arg_onto(arg, more)),
        Err(left) => Err(left),
    }
}

/// The tokens of arguments in front of what lexing the rest gave.
pub open spec fn args_lexed_onto(
    args: Seq<TpedvarView>,
    rest: Result<Seq<TokenView>, nat>,
) -> Result<Seq<TokenView>, nat> {
    match rest {
        Ok(more) => Ok(args_onto(args, more)),
        Err(left) => Err(left),
    }
}

/// The tokens of a specification in front of what lexing the rest gave.
pub open spec fn spec_lexed_onto(
    kind: SpecKind,
    spec: SpecView,
    rest: Result<Seq<TokenView>, nat>,
) -> Result<Seq<TokenView>, nat> {
    match rest {
        Ok(more) => Ok(spec_onto(kind, spec, more)),
        Err(left) => Err(left),
    }
}

/// The lexer reads the name of a type as the token that names it.
proof fn lemma_type_word(ty: AssertionTypeView)
    requires
        ty matches AssertionTypeView::Generic(name) ==> is_name(name),
    ensures
        is_word(ty.render()),
        word(ty.render()) == type_token(ty),
{
    lemma_reserved_words();
}

/// The lexer reads a typed argument as its five tokens.
pub proof fn lemma_spell_arg(arg: TpedvarView, rest: Seq<char>)
    requires
        arg_has_names(arg),
    ensures
        lex(arg.render() + rest) == arg_lexed_onto(arg, lex(rest)),
{
    reveal_strlit(" : ");
    reveal_strlit(")");
    let fourth = ")"@ + rest;
    let third = arg.0.render() + fourth;
    let second = " : "@ + third;
    let first = arg.1 + second;
    lemma_regroup("("@, arg.1, " : "@, arg.0.render(), ")"@, rest);
    lemma_type_word(arg.0);
    lemma_lex_opening(first);
    lemma_lex_word(arg.1, second);
    lemma_lex_colon_between(third);
    lemma_lex_word(arg.0.render(), fourth);
    lemma_lex_closing(rest);
}

/// The lexer reads typed arguments with blanks between them as their tokens.
pub proof fn lemma_spell_args(args: Seq<TpedvarView>, rest: Seq<char>)
    requires
        args_have_names(args),
    ensures
        lex(joined(TpedvarView::renders(args), " "@) + rest) == args_lexed_onto(args, lex(rest)),
    decreases args.len(),
{
    let texts = TpedvarView::renders(args);
    let none = Seq::<char>::empty();
    if args.len() == 0 {
        assert(joined(texts, " "@) + rest =~= rest);
    } else if args.len() == 1 {
        assert(arg_has_names(args[0]));
        lemma_spell_arg(args[0], rest);
        match lex(rest) {
            Ok(more) => {
                assert(args_onto(args.drop_first(), more) == more);
            },
            Err(_) => {},
        }
    } else {
        let others = args.drop_first();
        assert(TpedvarView::renders(others) =~= texts.drop_first());
        let behind = joined(texts.drop_first(), " "@) + rest;
        let spaced = " "@ + behind;
        assert(arg_has_names(args[0]));
        assert forall|i: int| 0 <= i < others.len() implies arg_has_names(
            #[trigger] others[i],
        ) by {
            assert(others[i] == args[i + 1]);
        }
        lemma_regroup(texts[0], " "@, joined(texts.drop_first(), " "@), rest, none, none);
        lemma_spell_arg(args[0], spaced);
        lemma_lex_space(behind);
        lemma_spell_args(others, rest);
    }
}

/// The lexer reads the `let` of a specification as the tokens that spell it.
pub proof fn lemma_spell_spec(kind: SpecKind, spec: SpecView, rest: Seq<char>)
    requires
        args_have_names(spec.0),
        is_binary(spec.1),
        has_names(spec.1),
    ensures
        lex(spec.render_for_file(kind) + rest) == spec_lexed_onto(kind, spec, lex(rest)),
{
    reveal_strlit(" ");
    reveal_strlit(" =\n  ");
    reveal_strlit("\n");
    reveal_strlit("pre");
    reveal_strlit("post");
    let args = joined(TpedvarView::renders(spec.0), " "@);
    let seventh = "\n"@ + rest;
    let sixth = spec.1.render() + seventh;
    let fifth = " =\n  "@ + sixth;
    let fourth = args + fifth;
    let third = " "@ + fourth;
    let second = kind.render() + third;
    lemma_regroup_eight(
        "let "@,
        kind.render(),
        " "@,
        args,
        " =\n  "@,
        spec.1.render(),
        "\n"@,
        rest,
    );
    lemma_reserved_words();
    lemma_lex_let(second);
    lemma_lex_word(kind.render(), third);
    lemma_lex_space(fourth);
    lemma_spell_args(spec.0, fifth);
    lemma_lex_header_end(sixth);
    lemma_spell(spec.1, seventh);
    lemma_lex_newline(rest);
}

/// The start of a declaration of predicate symbols is read as four tokens.
pub proof fn lemma_lex_preds_head(rest: Seq<char>)
    ensures
        lex("let preds = [| "@ + rest) == after(
            seq![TokenView::Let],
            after(
                seq![TokenView::Preds],
                after(
                    seq![TokenView::Compare(AssertionOp::Eq)],
                    after(seq![TokenView::ArrayOpen], lex(rest)),
                ),
            ),
        ),
{
    reveal_strlit("let preds = [| ");
    reveal_strlit("let");
    reveal_strlit("preds");
    reveal_strlit("=");
    lemma_reserved_words();
    let eighth = seq![' '] + rest;
    let seventh = seq!['[', '|'] + eighth;
    let sixth = seq![' '] + seventh;
    let fifth = "="@ + sixth;
    let fourth = seq![' '] + fifth;
    let third = "preds"@ + fourth;
    let second = seq![' '] + third;
    assert("let preds = [| "@ + rest =~= "let"@ + second);
    lemma_lex_word("let"@, second);
    lemma_lex_blank(' ', third);
    lemma_lex_word("preds"@, fourth);
    lemma_lex_blank(' ', fifth);
    lemma_lex_compare(AssertionOp::Eq, sixth);
    lemma_lex_blank(' ', seventh);
    crate::lexing::lemma_lex_array_open(eighth);
    lemma_lex_blank(' ', rest);
}

/// The end of a declaration of predicate symbols is read as a token.
pub proof fn lemma_lex_preds_end(rest: Seq<char>)
    ensures
        lex(" |]"@ + rest) == after(seq![TokenView::ArrayClose], lex(rest)),
{
    reveal_strlit(" |]");
    let symbol = seq!['|', ']'] + rest;
    assert(" |]"@ + rest =~= seq![' '] + symbol);
    lemma_lex_blank(' ', symbol);
    crate::lexing::lemma_lex_array_close(rest);
}

/// `;` and a blank between two predicate symbols are read as a token.
pub proof fn lemma_lex_item_sep(rest: Seq<char>)
    ensures
        lex("; "@ + rest) == after(seq![TokenView::Semicolon], lex(rest)),
{
    reveal_strlit("; ");
    let behind = seq![' '] + rest;
    assert("; "@ + rest =~= seq![';'] + behind);
    crate::lexing::lemma_lex_semicolon(behind);
    lemma_lex_blank(' ', rest);
}

/// The tokens of a list of predicate symbols in front of what lexing the
/// rest gave.
pub open spec fn items_lexed_onto(
    quoted: bool,
    preds: Seq<Pred>,
    rest: Result<Seq<TokenView>, nat>,
) -> Result<Seq<TokenView>, nat> {
    match rest {
        Ok(more) => Ok(items_onto(quoted, preds, more)),
        Err(left) => Err(left),
    }
}

/// The tokens of a declaration of predicate symbols in front of what lexing
/// the rest gave.
pub open spec fn preds_lexed_onto(
    quoted: bool,
    preds: Seq<Pred>,
    rest: Result<Seq<TokenView>, nat>,
) -> Result<Seq<TokenView>, nat> {
    match rest {
        Ok(more) => Ok(preds_onto(quoted, preds, more)),
        Err(left) => Err(left),
    }
}

/// The tokens of a file in front of what lexing the rest gave.
pub open spec fn file_lexed_onto(
    file: AssertionFileView,
    rest: Result<Seq<TokenView>, nat>,
) -> Result<Seq<TokenView>, nat> {
    match rest {
        Ok(more) => Ok(file_onto(file, more)),
        Err(left) => Err(left),
    }
}

/// The characters in front of the first double quote of a text that holds
/// none before the quote that follows it.
proof fn lemma_quoted_len(text: Seq<char>, rest: Seq<char>)
    requires
        forall|i: int| 0 <= i < text.len() ==> #[trigger] text[i] != '"',
    ensures
        quoted_len(text + (seq!['"'] + rest)) == Some(text.len()),
    decreases text.len(),
{
    let s = text + (seq!['"'] + rest);
    if text.len() == 0 {
        assert(s[0] == '"');
    } else {
        assert(s[0] == text[0]);
        assert(s.drop_first() =~= text.drop_first() + (seq!['"'] + rest));
        assert forall|i: int| 0 <= i < text.drop_first().len() implies #[trigger] text.drop_first()[i]
            != '"' by {
            assert(text.drop_first()[i] == text[i + 1]);
        }
        lemma_quoted_len(text.drop_first(), rest);
    }
}

/// A text between double quotes is read as one token.
pub proof fn lemma_lex_quoted(text: Seq<char>, rest: Seq<char>)
    requires
        forall|i: int| 0 <= i < text.len() ==> #[trigger] text[i] != '"',
    ensures
        lex("\""@ + text + "\""@ + rest) == after(seq![TokenView::Quoted(text)], lex(rest)),
{
    reveal_strlit("\"");
    let s = "\""@ + text + "\""@ + rest;
    lemma_quoted_len(text, rest);
    assert(s.drop_first() =~= text + (seq!['"'] + rest));
    assert(s.subrange(1, 1 + text.len() as int) =~= text);
    assert(s.skip(text.len() as int + 2) =~= rest);
    lemma_lex_token(s);
}

/// The spelling of a predicate symbol holds no double quote.
proof fn lemma_symbol_has_no_quote(pred: Pred)
    ensures
        forall|i: int| 0 <= i < pred.render().len() ==> #[trigger] pred.render()[i] != '"',
{
    lemma_predicate_words(pred);
}

/// The lexer reads quoted predicate symbols with `;` between them as their
/// tokens.
pub proof fn lemma_spell_symbols(preds: Seq<Pred>, rest: Seq<char>)
    ensures
        lex(joined(symbols(preds), "; "@) + rest) == items_lexed_onto(true, preds, lex(rest)),
    decreases preds.len(),
{
    let texts = symbols(preds);
    let none = Seq::<char>::empty();
    if preds.len() == 0 {
        assert(joined(texts, "; "@) + rest =~= rest);
    } else if preds.len() == 1 {
        lemma_symbol_has_no_quote(preds[0]);
        lemma_lex_quoted(preds[0].render(), rest);
    } else {
        let others = preds.drop_first();
        assert(symbols(others) =~= texts.drop_first());
        let behind = joined(texts.drop_first(), "; "@) + rest;
        let separated = "; "@ + behind;
        lemma_symbol_has_no_quote(preds[0]);
        lemma_regroup(texts[0], "; "@, joined(texts.drop_first(), "; "@), rest, none, none);
        lemma_lex_quoted(preds[0].render(), separated);
        lemma_lex_item_sep(behind);
        lemma_spell_symbols(others, rest);
    }
}

/// The lexer reads a declaration of predicate symbols as its tokens.
pub proof fn lemma_spell_predicates(preds: Seq<Pred>, rest: Seq<char>)
    ensures
        lex(render_predicates(preds) + rest) == preds_lexed_onto(true, preds, lex(rest)),
{
    let none = Seq::<char>::empty();
    let items = joined(symbols(preds), "; "@);
    let closing = " |]"@ + rest;
    lemma_regroup("let preds = [| "@, items, " |]"@, rest, none, none);
    lemma_lex_preds_head(items + closing);
    lemma_spell_symbols(preds, closing);
    lemma_lex_preds_end(rest);
}

/// Whether the specification is written with proper names and a formula
/// whose conjunctions and disjunctions have two members.
pub open spec fn spec_is_written(spec: SpecView) -> bool {
    args_have_names(spec.0) && is_binary(spec.1) && has_names(spec.1)
}

/// The lexer reads the text of a file as the tokens that spell it.
pub proof fn lemma_spell_file(file: AssertionFileView, rest: Seq<char>)
    requires
        file.pre_spec matches Some(spec) ==> spec_is_written(spec),
        spec_is_written(file.post_spec),
    ensures
        lex(file.render() + rest) == file_lexed_onto(file, lex(rest)),
{
    let pre = match file.pre_spec {
        Some(spec) => spec.render_for_file(SpecKind::Pre),
        None => Seq::empty(),
    };
    let post = file.post_spec.render_for_file(SpecKind::Post);
    let fourth = post + rest;
    let third = "\n"@ + fourth;
    let second = pre + third;
    let first = "\n"@ + second;
    lemma_regroup(render_predicates(file.preds), "\n"@, pre, "\n"@, post, rest);
    lemma_spell_predicates(file.preds, first);
    lemma_lex_newline(second);
    match file.pre_spec {
        Some(spec) => {
            lemma_spell_spec(SpecKind::Pre, spec, third);
        },
        None => {
            assert(second =~= third);
        },
    }
    lemma_lex_newline(fourth);
    lemma_spell_spec(SpecKind::Post, file.post_spec, rest);
}

} // verus!
