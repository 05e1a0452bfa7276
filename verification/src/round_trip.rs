//! Reading back what was written: the values whose text the parser turns into
//! the value that was rendered.

use crate::assertion_parser::{parsed_assertion, parsed_file, parsed_spec, parsed_type, ParseError};
use crate::engine_reading::{
    lemma_parse_engine_assertion, lemma_parse_engine_file, lemma_parse_engine_spec,
};
use crate::engine_spelling::{
    lemma_spell_engine, lemma_spell_engine_file, lemma_spell_engine_spec,
};
use crate::ipc_assertion::{
    AssertionFileView, AssertionTypeView, AssertionView, SpecKind, SpecView, TpedvarView,
};
use crate::lexer::{lex, TokenView};
use crate::lexing::{
    is_name, lemma_lex_empty, lemma_lex_word, lemma_lexed_names, lemma_reserved_words,
};
use crate::parsed_form::{
    is_parsed_file, is_parsed_form, is_parsed_spec, lemma_assertion_form, lemma_file_form,
    lemma_spec_form,
};
use crate::reading::{lemma_parse_assertion, lemma_parse_file, lemma_parse_spec};
use crate::spelling::{lemma_spell, lemma_spell_file, lemma_spell_spec};
use crate::typing::{typed_file, typed_formula, typed_spec};
use vstd::prelude::*;

verus! {

impl AssertionTypeView {
    /// Whether the type is `int`, `bool`, or a generic type whose name is a
    /// name: a word that is not reserved.
    pub open spec fn is_direct(self) -> bool {
        match self {
            AssertionTypeView::Generic(name) => is_name(name),
            _ => true,
        }
    }
}

/// A formula of the parsed form reads back: the parser turns its text into
/// the formula.
pub proof fn lemma_assertion_reads_back(formula: AssertionView)
    requires
        is_parsed_form(formula),
    ensures
        parsed_assertion(formula.render()) == Ok::<AssertionView, ParseError>(formula),
{
    let none = Seq::<char>::empty();
    let end = Seq::<TokenView>::empty();
    assert(formula.render() + none =~= formula.render());
    lemma_lex_empty();
    lemma_spell(formula, none);
    lemma_parse_assertion(formula, end);
}

/// A type reads back: the parser turns its text into the type.
pub proof fn lemma_type_reads_back(ty: AssertionTypeView)
    requires
        ty.is_direct(),
    ensures
        parsed_type(ty.render()) == Ok::<AssertionTypeView, ParseError>(ty),
{
    let none = Seq::<char>::empty();
    let text = ty.render();
    assert(text + none =~= text);
    lemma_lex_empty();
    lemma_reserved_words();
    lemma_lex_word(text, none);
    let tokens = lex(text)->Ok_0;
    assert(tokens.drop_first() =~= Seq::<TokenView>::empty());
}

/// A specification of the parsed form reads back from the `let` that a file
/// holds for it: the parser turns that text into the specification.
pub proof fn lemma_spec_reads_back(kind: SpecKind, spec: SpecView)
    requires
        is_parsed_spec(spec),
    ensures
        parsed_spec(kind, spec.render_for_file(kind)) == Ok::<SpecView, ParseError>(spec),
{
    let none = Seq::<char>::empty();
    let end = Seq::<TokenView>::empty();
    let text = spec.render_for_file(kind);
    assert(text + none =~= text);
    lemma_lex_empty();
    lemma_spell_spec(kind, spec, none);
    lemma_parse_spec(kind, spec, end);
}

/// A file of the parsed form reads back: the parser turns its text into the
/// file.
pub proof fn lemma_file_reads_back(file: AssertionFileView)
    requires
        is_parsed_file(file),
    ensures
        parsed_file(file.render()) == Ok::<AssertionFileView, ParseError>(file),
{
    let none = Seq::<char>::empty();
    let end = Seq::<TokenView>::empty();
    let text = file.render();
    assert(text + none =~= text);
    lemma_lex_empty();
    lemma_spell_file(file, none);
    lemma_parse_file(file, end);
}

/// A predicate of the engine's model reads back: the parser turns the text
/// that the engine's syntax has for a formula of the parsed form into that
/// formula, whatever the types of its variables.
pub proof fn lemma_pred_reads_back(args: Seq<TpedvarView>, formula: AssertionView)
    requires
        is_parsed_form(formula),
    ensures
        parsed_assertion(typed_formula(args, formula).render()) == Ok::<
            AssertionView,
            ParseError,
        >(formula),
{
    let none = Seq::<char>::empty();
    let end = Seq::<TokenView>::empty();
    let text = typed_formula(args, formula).render();
    assert(text + none =~= text);
    lemma_lex_empty();
    lemma_spell_engine(args, formula, none);
    lemma_parse_engine_assertion(formula, end);
}

/// A specification of the engine's model reads back from the `let` that a
/// file holds for it.
pub proof fn lemma_engine_spec_reads_back(kind: SpecKind, spec: SpecView)
    requires
        is_parsed_spec(spec),
    ensures
        parsed_spec(kind, typed_spec(spec).render_for_file(kind)) == Ok::<SpecView, ParseError>(
            spec,
        ),
{
    let none = Seq::<char>::empty();
    let end = Seq::<TokenView>::empty();
    let text = typed_spec(spec).render_for_file(kind);
    assert(text + none =~= text);
    lemma_lex_empty();
    lemma_spell_engine_spec(kind, spec, none);
    lemma_parse_engine_spec(kind, spec, end);
}

/// A file of the engine's model reads back: the parser turns its text into
/// the file that it stands for.
pub proof fn lemma_engine_file_reads_back(file: AssertionFileView)
    requires
        is_parsed_file(file),
    ensures
        parsed_file(typed_file(file).render()) == Ok::<AssertionFileView, ParseError>(file),
{
    let none = Seq::<char>::empty();
    let end = Seq::<TokenView>::empty();
    let text = typed_file(file).render();
    assert(text + none =~= text);
    lemma_lex_empty();
    lemma_spell_engine_file(file, none);
    lemma_parse_engine_file(file, end);
}

/// What the parser yields for a formula has the parsed form: every
/// conjunction and disjunction has two members and every variable is a name.
pub proof fn lemma_parsed_assertion_form(text: Seq<char>)
    ensures
        parsed_assertion(text) matches Ok(formula) ==> is_parsed_form(formula),
{
    lemma_lexed_names(text);
    match lex(text) {
        Ok(tokens) => {
            lemma_assertion_form(tokens);
        },
        Err(_) => {},
    }
}

/// What the parser yields for a specification has the parsed form.
pub proof fn lemma_parsed_spec_form(kind: SpecKind, text: Seq<char>)
    ensures
        parsed_spec(kind, text) matches Ok(spec) ==> is_parsed_spec(spec),
{
    lemma_lexed_names(text);
    match lex(text) {
        Ok(tokens) => {
            lemma_spec_form(kind, tokens);
        },
        Err(_) => {},
    }
}

/// What the parser yields for a file has the parsed form.
pub proof fn lemma_parsed_file_form(text: Seq<char>)
    ensures
        parsed_file(text) matches Ok(file) ==> is_parsed_file(file),
{
    lemma_lexed_names(text);
    match lex(text) {
        Ok(tokens) => {
            lemma_file_form(tokens);
        },
        Err(_) => {},
    }
}

/// Every formula that comes from parsing reads back: the text that is
/// written for it parses to the same formula.
pub proof fn lemma_parsed_assertion_reads_back(text: Seq<char>)
    ensures
        parsed_assertion(text) matches Ok(formula) ==> parsed_assertion(formula.render()) == Ok::<
            AssertionView,
            ParseError,
        >(formula),
{
    lemma_parsed_assertion_form(text);
    match parsed_assertion(text) {
        Ok(formula) => {
            lemma_assertion_reads_back(formula);
        },
        Err(_) => {},
    }
}

/// Every specification that comes from parsing reads back from the `let`
/// that is written for it.
pub proof fn lemma_parsed_spec_reads_back(kind: SpecKind, text: Seq<char>)
    ensures
        parsed_spec(kind, text) matches Ok(spec) ==> parsed_spec(kind, spec.render_for_file(kind))
            == Ok::<SpecView, ParseError>(spec),
{
    lemma_parsed_spec_form(kind, text);
    match parsed_spec(kind, text) {
        Ok(spec) => {
            lemma_spec_reads_back(kind, spec);
        },
        Err(_) => {},
    }
}

/// Every file that comes from parsing reads back: the text that is written
/// for it parses to the same file.
pub proof fn lemma_parsed_file_reads_back(text: Seq<char>)
    ensures
        parsed_file(text) matches Ok(file) ==> parsed_file(file.render()) == Ok::<
            AssertionFileView,
            ParseError,
        >(file),
{
    lemma_parsed_file_form(text);
    match parsed_file(text) {
        Ok(file) => {
            lemma_file_reads_back(file);
        },
        Err(_) => {},
    }
}

/// Every predicate that comes from parsing reads back: the text that the
/// engine's syntax has for a parsed formula, with any types for its
/// variables, parses to the same formula.
pub proof fn lemma_parsed_pred_reads_back(args: Seq<TpedvarView>, text: Seq<char>)
    ensures
        parsed_assertion(text) matches Ok(formula) ==> parsed_assertion(
            typed_formula(args, formula).render(),
        ) == Ok::<AssertionView, ParseError>(formula),
{
    lemma_parsed_assertion_form(text);
    match parsed_assertion(text) {
        Ok(formula) => {
            lemma_pred_reads_back(args, formula);
        },
        Err(_) => {},
    }
}

/// Every specification that comes from parsing reads back from the `let`
/// that the engine's syntax has for it.
pub proof fn lemma_parsed_engine_spec_reads_back(kind: SpecKind, text: Seq<char>)
    ensures
        parsed_spec(kind, text) matches Ok(spec) ==> parsed_spec(
            kind,
            typed_spec(spec).render_for_file(kind),
        ) == Ok::<SpecView, ParseError>(spec),
{
    lemma_parsed_spec_form(kind, text);
    match parsed_spec(kind, text) {
        Ok(spec) => {
            lemma_engine_spec_reads_back(kind, spec);
        },
        Err(_) => {},
    }
}

/// Every file that comes from parsing reads back from the text that the
/// engine's syntax has for it.
pub proof fn lemma_parsed_engine_file_reads_back(text: Seq<char>)
    ensures
        parsed_file(text) matches Ok(file) ==> parsed_file(typed_file(file).render()) == Ok::<
            AssertionFileView,
            ParseError,
        >(file),
{
    lemma_parsed_file_form(text);
    match parsed_file(text) {
        Ok(file) => {
            lemma_engine_file_reads_back(file);
        },
        Err(_) => {},
    }
}

} // verus!
