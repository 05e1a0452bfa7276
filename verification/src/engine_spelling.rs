//! What the lexer makes of a formula rendered in the engine's syntax: the
//! tokens that spell it there.

use crate::engine_reading::{
    engine_file_onto, engine_group_onto, engine_spec_onto, engine_tokens_onto,
};
use crate::ipc::{is_infix, quoted_symbols, ElrondPredView, ElrondSimpleExprView, ElrondTpedvarView};
use crate::ipc_assertion::{
    symbols, AssertionFileView, AssertionOp, AssertionView, Pred, SpecKind, SpecView, TpedvarView,
};
use crate::lexer::{after, is_name_start, lex, TokenView};
use crate::lexing::{
    is_name, lemma_lex_not, lemma_lex_open, lemma_lex_word, lemma_predicate_words,
    lemma_reserved_words,
};
use crate::reading::{cons, is_binary};
use crate::spelling::{
    ends_text, has_names, lemma_joined_pair, lemma_lex_and_between, lemma_lex_between_groups,
    lemma_lex_closing, lemma_lex_header_end, lemma_lex_iff, lemma_lex_implies, lemma_lex_let,
    lemma_lex_newline, lemma_lex_opening, lemma_lex_or_between, lemma_lex_space, lemma_regroup,
    lemma_regroup_eight, lemma_spell_args, lemma_spell_op, lemma_spell_predicate,
    lemma_spell_predicates, lemma_spell_true, preds_lexed_onto, spec_is_written,
};
use crate::text::joined;
use crate::typing::{
    known_as, known_preds, typed_args, typed_file, typed_formula, typed_formulas, typed_spec,
    variable, variables,
};
use vstd::prelude::*;

verus! {

/// The text of `formula` in the engine's syntax.
pub open spec fn engine_text(args: Seq<TpedvarView>, formula: AssertionView) -> Seq<char> {
    typed_formula(args, formula).render()
}

/// Whether `text` starts as a formula in the engine's syntax does: with a
/// letter, an underscore or `(`.
pub open spec fn starts_engine_formula(text: Seq<char>) -> bool {
    text.len() > 0 && (is_name_start(text[0]) || text[0] == '(')
}

/// The engine's tokens of `formula` in front of what lexing the rest gave.
pub open spec fn engine_lexed_onto(
    formula: AssertionView,
    rest: Result<Seq<TokenView>, nat>,
) -> Result<Seq<TokenView>, nat> {
    match rest {
        Ok(more) => Ok(engine_tokens_onto(formula, more)),
        Err(left) => Err(left),
    }
}

/// `(!` in front of a formula is read as two tokens.
pub proof fn lemma_lex_open_not(rest: Seq<char>)
    requires
        rest.len() == 0 || rest[0] != '=',
    ensures
        lex("(!"@ + rest) == after(seq![TokenView::LParen], after(seq![TokenView::Not], lex(rest))),
{
    reveal_strlit("(!");
    let negation = seq!['!'] + rest;
    assert("(!"@ + rest =~= seq!['('] + negation);
    lemma_lex_open(negation);
    lemma_lex_not(rest);
}

/// The variables render as their names.
proof fn lemma_variables_render(args: Seq<TpedvarView>, names: Seq<Seq<char>>)
    ensures
        ElrondSimpleExprView::renders(variables(args, names)) == names,
{
    assert(ElrondSimpleExprView::renders(variables(args, names)) =~= names);
}

/// No predicate symbol is a comparison.
proof fn lemma_predicate_is_prefix(pred: Pred)
    ensures
        !is_infix(pred.render()),
{
    reveal_strlit("=");
    reveal_strlit("!=");
    reveal_strlit("<=");
    reveal_strlit(">=");
    reveal_strlit("<");
    reveal_strlit(">");
    lemma_predicate_words(pred);
    assert("="@[0] == '=');
    assert("!="@[0] == '!');
    assert("<="@[0] == '<');
    assert(">="@[0] == '>');
    assert("<"@[0] == '<');
    assert(">"@[0] == '>');
}

/// A predicate with its arguments is the same text in the engine's syntax
/// and in that of annotation files.
proof fn lemma_engine_text_predicate(args: Seq<TpedvarView>, pred: Pred, names: Seq<Seq<char>>)
    ensures
        engine_text(args, AssertionView::Predicate(pred, names)) == AssertionView::Predicate(
            pred,
            names,
        ).render(),
{
    lemma_predicate_is_prefix(pred);
    lemma_variables_render(args, names);
}

/// A comparison stands between parentheses in the engine's syntax.
proof fn lemma_engine_text_op(
    args: Seq<TpedvarView>,
    op: AssertionOp,
    lhs: Seq<char>,
    rhs: Seq<char>,
)
    ensures
        engine_text(args, AssertionView::Op(op, lhs, rhs)) == "("@ + AssertionView::Op(
            op,
            lhs,
            rhs,
        ).render() + ")"@,
{
    let vars = seq![variable(args, lhs), variable(args, rhs)];
    assert(vars[0].render() == lhs);
    assert(vars[1].render() == rhs);
    assert("("@ + lhs + " "@ + op.render() + " "@ + rhs + ")"@ =~= "("@ + (lhs + " "@
        + op.render() + " "@ + rhs) + ")"@);
}

/// A conjunction or disjunction of two members is, in the engine's syntax,
/// the two members between parentheses with the symbol between them.
proof fn lemma_engine_text_binary(
    args: Seq<TpedvarView>,
    items: Seq<AssertionView>,
    sep: Seq<char>,
)
    requires
        items.len() == 2,
    ensures
        "("@ + joined(ElrondPredView::renders(typed_formulas(args, items)), sep) + ")"@ == "("@
            + engine_text(args, items[0]) + sep + engine_text(args, items[1]) + ")"@,
{
    let texts = ElrondPredView::renders(typed_formulas(args, items));
    lemma_joined_pair(texts, sep);
    assert(texts[0] == engine_text(args, items[0]));
    assert(texts[1] == engine_text(args, items[1]));
    assert("("@ + (texts[0] + sep + texts[1]) + ")"@ =~= "("@ + texts[0] + sep + texts[1] + ")"@);
}

/// A formula in the engine's syntax starts with a letter, an underscore or
/// `(`.
pub proof fn lemma_engine_text_starts(args: Seq<TpedvarView>, formula: AssertionView)
    requires
        is_binary(formula),
        has_names(formula),
    ensures
        starts_engine_formula(engine_text(args, formula)),
{
    reveal_strlit("(");
    match formula {
        AssertionView::True => {
            reveal_strlit("true");
        },
        AssertionView::Predicate(pred, names) => {
            lemma_engine_text_predicate(args, pred, names);
            lemma_predicate_words(pred);
        },
        AssertionView::Op(op, lhs, rhs) => {
            lemma_engine_text_op(args, op, lhs, rhs);
        },
        AssertionView::Implies(lhs, rhs) => {
            reveal_strlit("implies (");
        },
        AssertionView::Iff(lhs, rhs) => {
            reveal_strlit("iff (");
        },
        AssertionView::Not(inner) => {
            reveal_strlit("(!");
        },
        AssertionView::And(items) => {},
        AssertionView::Or(items) => {},
    }
}

/// The lexer reads a parenthesised comparison as its five tokens.
proof fn lemma_spell_engine_op(
    args: Seq<TpedvarView>,
    op: AssertionOp,
    lhs: Seq<char>,
    rhs: Seq<char>,
    rest: Seq<char>,
)
    requires
        is_name(lhs),
        is_name(rhs),
    ensures
        lex(engine_text(args, AssertionView::Op(op, lhs, rhs)) + rest) == engine_lexed_onto(
            AssertionView::Op(op, lhs, rhs),
            lex(rest),
        ),
{
    reveal_strlit(")");
    let none = Seq::<char>::empty();
    let formula = AssertionView::Op(op, lhs, rhs);
    let closing = ")"@ + rest;
    let inside = formula.render() + closing;
    lemma_engine_text_op(args, op, lhs, rhs);
    lemma_regroup("("@, formula.render(), ")"@, rest, none, none);
    assert(inside[0] == lhs[0]);
    lemma_lex_opening(inside);
    lemma_spell_op(op, lhs, rhs, closing);
    lemma_lex_closing(rest);
}

/// The lexer reads two groups behind `implies` or `iff` as their tokens, if
/// it reads each of the two formulas as its own.
proof fn lemma_spell_engine_pair(
    head: Seq<char>,
    keyword: TokenView,
    lhs_text: Seq<char>,
    lhs: AssertionView,
    rhs_text: Seq<char>,
    rhs: AssertionView,
    rest: Seq<char>,
)
    requires
        starts_engine_formula(lhs_text),
        starts_engine_formula(rhs_text),
        forall|tail: Seq<char>|
            tail.len() == 0 || tail[0] != '*' ==> #[trigger] lex(head + tail) == after(
                seq![keyword],
                after(seq![TokenView::LParen], lex(tail)),
            ),
        lex(lhs_text + (") ("@ + (rhs_text + (")"@ + rest)))) == engine_lexed_onto(
            lhs,
            lex(") ("@ + (rhs_text + (")"@ + rest))),
        ),
        lex(rhs_text + (")"@ + rest)) == engine_lexed_onto(rhs, lex(")"@ + rest)),
    ensures
        lex(head + lhs_text + ") ("@ + rhs_text + ")"@ + rest) == (match lex(rest) {
            Ok(more) => Ok(cons(keyword, engine_group_onto(lhs, engine_group_onto(rhs, more)))),
            Err(left) => Err(left),
        }),
{
    let fourth = ")"@ + rest;
    let third = rhs_text + fourth;
    let second = ") ("@ + third;
    let first = lhs_text + second;
    lemma_regroup(head, lhs_text, ") ("@, rhs_text, ")"@, rest);
    assert(lex(head + first) == after(seq![keyword], after(seq![TokenView::LParen], lex(first))));
    lemma_lex_between_groups(third);
    lemma_lex_closing(rest);
}

/// The lexer reads a parenthesised negation as its tokens, if it reads the
/// negated formula as its own.
proof fn lemma_spell_engine_not(
    inner_text: Seq<char>,
    inner: AssertionView,
    rest: Seq<char>,
)
    requires
        starts_engine_formula(inner_text),
        lex(inner_text + (")"@ + rest)) == engine_lexed_onto(inner, lex(")"@ + rest)),
    ensures
        lex("(!"@ + inner_text + ")"@ + rest) == (match lex(rest) {
            Ok(more) => Ok(
                cons(
                    TokenView::LParen,
                    cons(
                        TokenView::Not,
                        engine_tokens_onto(inner, cons(TokenView::RParen, more)),
                    ),
                ),
            ),
            Err(left) => Err(left),
        }),
{
    let none = Seq::<char>::empty();
    let closing = ")"@ + rest;
    lemma_regroup("(!"@, inner_text, ")"@, rest, none, none);
    lemma_lex_open_not(inner_text + closing);
    lemma_lex_closing(rest);
}

/// The lexer reads two parenthesised formulas with `&&` or `||` between them
/// as their tokens, if it reads each formula as its own.
proof fn lemma_spell_engine_binary(
    sep: Seq<char>,
    symbol: TokenView,
    lhs_text: Seq<char>,
    lhs: AssertionView,
    rhs_text: Seq<char>,
    rhs: AssertionView,
    rest: Seq<char>,
)
    requires
        starts_engine_formula(lhs_text),
        forall|tail: Seq<char>| #[trigger] lex(sep + tail) == after(seq![symbol], lex(tail)),
        lex(lhs_text + (sep + (rhs_text + (")"@ + rest)))) == engine_lexed_onto(
            lhs,
            lex(sep + (rhs_text + (")"@ + rest))),
        ),
        lex(rhs_text + (")"@ + rest)) == engine_lexed_onto(rhs, lex(")"@ + rest)),
    ensures
        lex("("@ + lhs_text + sep + rhs_text + ")"@ + rest) == (match lex(rest) {
            Ok(more) => Ok(
                cons(
                    TokenView::LParen,
                    engine_tokens_onto(
                        lhs,
                        cons(symbol, engine_tokens_onto(rhs, cons(TokenView::RParen, more))),
                    ),
                ),
            ),
            Err(left) => Err(left),
        }),
{
    let fourth = ")"@ + rest;
    let third = rhs_text + fourth;
    let second = sep + third;
    let first = lhs_text + second;
    lemma_regroup("("@, lhs_text, sep, rhs_text, ")"@, rest);
    lemma_lex_opening(first);
    assert(lex(second) == after(seq![symbol], lex(third)));
    lemma_lex_closing(rest);
}

/// The lexer reads the engine's text of a formula as the tokens that spell
/// it there.
pub proof fn lemma_spell_engine(args: Seq<TpedvarView>, formula: AssertionView, rest: Seq<char>)
    requires
        is_binary(formula),
        has_names(formula),
        ends_text(rest),
    ensures
        lex(engine_text(args, formula) + rest) == engine_lexed_onto(formula, lex(rest)),
    decreases formula,
{
    match formula {
        AssertionView::True => {
            lemma_spell_true(rest);
        },
        AssertionView::Predicate(pred, names) => {
            lemma_engine_text_predicate(args, pred, names);
            lemma_spell_predicate(pred, names, rest);
        },
        AssertionView::Op(op, lhs, rhs) => {
            lemma_spell_engine_op(args, op, lhs, rhs, rest);
        },
        AssertionView::Implies(lhs, rhs) => {
            let left = engine_text(args, *lhs);
            let right = engine_text(args, *rhs);
            let fourth = ")"@ + rest;
            let second = ") ("@ + (right + fourth);
            assert(ends_text(fourth) && ends_text(second)) by {
                reveal_strlit(") (");
                reveal_strlit(")");
            }
            lemma_engine_text_starts(args, *lhs);
            lemma_engine_text_starts(args, *rhs);
            lemma_spell_engine(args, *lhs, second);
            lemma_spell_engine(args, *rhs, fourth);
            assert forall|tail: Seq<char>| tail.len() == 0 || tail[0] != '*' implies #[trigger] lex(
                "implies ("@ + tail,
            ) == after(seq![TokenView::Implies], after(seq![TokenView::LParen], lex(tail))) by {
                lemma_lex_implies(tail);
            }
            lemma_spell_engine_pair(
                "implies ("@,
                TokenView::Implies,
                left,
                *lhs,
                right,
                *rhs,
                rest,
            );
        },
        AssertionView::Iff(lhs, rhs) => {
            let left = engine_text(args, *lhs);
            let right = engine_text(args, *rhs);
            let fourth = ")"@ + rest;
            let second = ") ("@ + (right + fourth);
            assert(ends_text(fourth) && ends_text(second)) by {
                reveal_strlit(") (");
                reveal_strlit(")");
            }
            lemma_engine_text_starts(args, *lhs);
            lemma_engine_text_starts(args, *rhs);
            lemma_spell_engine(args, *lhs, second);
            lemma_spell_engine(args, *rhs, fourth);
            assert forall|tail: Seq<char>| tail.len() == 0 || tail[0] != '*' implies #[trigger] lex(
                "iff ("@ + tail,
            ) == after(seq![TokenView::Iff], after(seq![TokenView::LParen], lex(tail))) by {
                lemma_lex_iff(tail);
            }
            lemma_spell_engine_pair("iff ("@, TokenView::Iff, left, *lhs, right, *rhs, rest);
        },
        AssertionView::Not(inner) => {
            let closing = ")"@ + rest;
            assert(ends_text(closing)) by {
                reveal_strlit(")");
            }
            lemma_engine_text_starts(args, *inner);
            lemma_spell_engine(args, *inner, closing);
            lemma_spell_engine_not(engine_text(args, *inner), *inner, rest);
        },
        AssertionView::And(items) => {
            let left = engine_text(args, items[0]);
            let right = engine_text(args, items[1]);
            let closing = ")"@ + rest;
            let first = " && "@ + (right + closing);
            assert(ends_text(first) && ends_text(closing)) by {
                reveal_strlit(" && ");
                reveal_strlit(")");
            }
            lemma_engine_text_binary(args, items, " && "@);
            lemma_engine_text_starts(args, items[0]);
            lemma_spell_engine(args, items[0], first);
            lemma_spell_engine(args, items[1], closing);
            assert forall|tail: Seq<char>| #[trigger]
                lex(" && "@ + tail) == after(seq![TokenView::And], lex(tail)) by {
                lemma_lex_and_between(tail);
            }
            lemma_spell_engine_binary(
                " && "@,
                TokenView::And,
                left,
                items[0],
                right,
                items[1],
                rest,
            );
        },
        AssertionView::Or(items) => {
            let left = engine_text(args, items[0]);
            let right = engine_text(args, items[1]);
            let closing = ")"@ + rest;
            let first = " || "@ + (right + closing);
            assert(ends_text(first) && ends_text(closing)) by {
                reveal_strlit(" || ");
                reveal_strlit(")");
            }
            lemma_engine_text_binary(args, items, " || "@);
            lemma_engine_text_starts(args, items[0]);
            lemma_spell_engine(args, items[0], first);
            lemma_spell_engine(args, items[1], closing);
            assert forall|tail: Seq<char>| #[trigger]
                lex(" || "@ + tail) == after(seq![TokenView::Or], lex(tail)) by {
                lemma_lex_or_between(tail);
            }
            lemma_spell_engine_binary(
                " || "@,
                TokenView::Or,
                left,
                items[0],
                right,
                items[1],
                rest,
            );
        },
    }
}

/// The engine's tokens of a specification in front of what lexing the rest
/// gave.
pub open spec fn engine_spec_lexed_onto(
    kind: SpecKind,
    spec: SpecView,
    rest: Result<Seq<TokenView>, nat>,
) -> Result<Seq<TokenView>, nat> {
    match rest {
        Ok(more) => Ok(engine_spec_onto(kind, spec, more)),
        Err(left) => Err(left),
    }
}

/// The engine's tokens of a file in front of what lexing the rest gave.
pub open spec fn engine_file_lexed_onto(
    file: AssertionFileView,
    rest: Result<Seq<TokenView>, nat>,
) -> Result<Seq<TokenView>, nat> {
    match rest {
        Ok(more) => Ok(engine_file_onto(file, more)),
        Err(left) => Err(left),
    }
}

/// The engine's model writes the arguments of a `let` as annotation files
/// write them.
proof fn lemma_bracketed_args(args: Seq<TpedvarView>)
    ensures
        ElrondTpedvarView::bracketed(typed_args(args)) == TpedvarView::renders(args),
{
    let engine = ElrondTpedvarView::bracketed(typed_args(args));
    let file = TpedvarView::renders(args);
    assert forall|i: int| 0 <= i < args.len() implies engine[i] == file[i] by {
        assert("("@ + (args[i].1 + " : "@ + args[i].0.render()) + ")"@ =~= "("@ + args[i].1
            + " : "@ + args[i].0.render() + ")"@);
    }
    assert(engine =~= file);
}

/// The lexer reads the engine's `let` of a specification as the tokens that
/// spell it.
pub proof fn lemma_spell_engine_spec(kind: SpecKind, spec: SpecView, rest: Seq<char>)
    requires
        spec_is_written(spec),
    ensures
        lex(typed_spec(spec).render_for_file(kind) + rest) == engine_spec_lexed_onto(
            kind,
            spec,
            lex(rest),
        ),
{
    reveal_strlit(" ");
    reveal_strlit(" =\n  ");
    reveal_strlit("\n");
    reveal_strlit("pre");
    reveal_strlit("post");
    let args = joined(TpedvarView::renders(spec.0), " "@);
    let body = engine_text(spec.0, spec.1);
    let seventh = "\n"@ + rest;
    let sixth = body + seventh;
    let fifth = " =\n  "@ + sixth;
    let fourth = args + fifth;
    let third = " "@ + fourth;
    let second = kind.render() + third;
    lemma_bracketed_args(spec.0);
    lemma_regroup_eight("let "@, kind.render(), " "@, args, " =\n  "@, body, "\n"@, rest);
    lemma_reserved_words();
    lemma_lex_let(second);
    lemma_lex_word(kind.render(), third);
    lemma_lex_space(fourth);
    lemma_spell_args(spec.0, fifth);
    lemma_lex_header_end(sixth);
    lemma_spell_engine(spec.0, spec.1, seventh);
    lemma_lex_newline(rest);
}

/// The engine's model lists the predicate symbols as annotation files list
/// them.
proof fn lemma_quoted_symbols(preds: Seq<Pred>)
    ensures
        quoted_symbols(known_preds(preds)) == symbols(preds),
{
    reveal_strlit("\"");
    reveal_strlit("len");
    reveal_strlit("mem");
    reveal_strlit("hd");
    reveal_strlit("ord");
    reveal_strlit("left");
    reveal_strlit("right");
    reveal_strlit("sorted");
    reveal_strlit("once");
    reveal_strlit("para");
    reveal_strlit("ance");
    reveal_strlit("root");
    reveal_strlit("\"len\"");
    reveal_strlit("\"mem\"");
    reveal_strlit("\"hd\"");
    reveal_strlit("\"ord\"");
    reveal_strlit("\"left\"");
    reveal_strlit("\"right\"");
    reveal_strlit("\"sorted\"");
    reveal_strlit("\"once\"");
    reveal_strlit("\"para\"");
    reveal_strlit("\"ance\"");
    reveal_strlit("\"root\"");
    assert forall|i: int| 0 <= i < preds.len() implies quoted_symbols(known_preds(preds))[i]
        == symbols(preds)[i] by {
        assert(known_as(preds[i]).render() =~= "\""@ + preds[i].render() + "\""@);
    }
    assert(quoted_symbols(known_preds(preds)) =~= symbols(preds));
}

/// The lexer reads the engine's declaration of predicate symbols as its
/// tokens.
pub proof fn lemma_spell_engine_predicates(preds: Seq<Pred>, rest: Seq<char>)
    ensures
        lex(crate::ipc::render_predicates(known_preds(preds)) + rest) == preds_lexed_onto(
            true,
            preds,
            lex(rest),
        ),
{
    lemma_quoted_symbols(preds);
    lemma_spell_predicates(preds, rest);
}

/// The lexer reads the engine's text of a file as the tokens that spell it.
pub proof fn lemma_spell_engine_file(file: AssertionFileView, rest: Seq<char>)
    requires
        file.pre_spec matches Some(spec) ==> spec_is_written(spec),
        spec_is_written(file.post_spec),
    ensures
        lex(typed_file(file).render() + rest) == engine_file_lexed_onto(file, lex(rest)),
{
    let pre = match file.pre_spec {
        Some(spec) => typed_spec(spec).render_for_file(SpecKind::Pre),
        None => Seq::empty(),
    };
    let post = typed_spec(file.post_spec).render_for_file(SpecKind::Post);
    let fourth = post + rest;
    let third = "\n"@ + fourth;
    let second = pre + third;
    let first = "\n"@ + second;
    lemma_regroup(
        crate::ipc::render_predicates(known_preds(file.preds)),
        "\n"@,
        pre,
        "\n"@,
        post,
        rest,
    );
    lemma_spell_engine_predicates(file.preds, first);
    lemma_lex_newline(second);
    match file.pre_spec {
        Some(spec) => {
            lemma_spell_engine_spec(SpecKind::Pre, spec, third);
        },
        None => {
            assert(second =~= third);
        },
    }
    lemma_lex_newline(fourth);
    lemma_spell_engine_spec(SpecKind::Post, file.post_spec, rest);
}

} // verus!
