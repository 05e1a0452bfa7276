//! Facts about the lexer: what it makes of a word, a blank and each symbol at
//! the front of a text.

use crate::ipc_assertion::{AssertionOp, Pred};
use crate::lexer::{
    after, is_name_char, is_name_start, is_space, lex, name_len, next_token, quoted_len,
    skip_comment, skip_trivia, word, TokenView,
};
use vstd::prelude::*;

verus! {

/// A non-empty run of word characters that starts with a letter or an
/// underscore.
pub open spec fn is_word(text: Seq<char>) -> bool {
    &&& text.len() > 0
    &&& is_name_start(text[0])
    &&& forall|i: int| 0 <= i < text.len() ==> is_name_char(#[trigger] text[i])
}

/// A word that is not reserved, so that the lexer reads it as a name.
pub open spec fn is_name(text: Seq<char>) -> bool {
    is_word(text) && word(text) == TokenView::Name(text)
}

/// Whether a word that stands in front of `rest` ends there: `rest` is empty
/// or starts with a character that no word holds.
pub open spec fn ends_word(rest: Seq<char>) -> bool {
    rest.len() == 0 || !is_name_char(rest[0])
}

/// What is left behind a closed comment is no longer than what was there.
proof fn lemma_comment_shrinks(s: Seq<char>, depth: nat)
    ensures
        skip_comment(s, depth) matches Some(rest) ==> rest.len() <= s.len(),
    decreases s.len(),
{
    if depth == 0 || s.len() < 2 {
    } else if s[0] == '*' && s[1] == ')' {
        lemma_comment_shrinks(s.skip(2), (depth - 1) as nat);
    } else if s[0] == '(' && s[1] == '*' {
        lemma_comment_shrinks(s.skip(2), depth + 1);
    } else {
        lemma_comment_shrinks(s.drop_first(), depth);
    }
}

/// What is left behind white space and comments is no longer than what was
/// there.
proof fn lemma_trivia_shrinks(s: Seq<char>)
    ensures
        skip_trivia(s) matches Ok(rest) ==> rest.len() <= s.len(),
    decreases s.len(),
{
    if s.len() > 0 && is_space(s[0]) {
        lemma_trivia_shrinks(s.drop_first());
    } else if s.len() >= 2 && s[0] == '(' && s[1] == '*' {
        lemma_comment_shrinks(s.skip(2), 1);
        match skip_comment(s.skip(2), 1) {
            Some(rest) => {
                lemma_trivia_shrinks(rest);
            },
            None => {},
        }
    }
}

/// A run of word characters is no longer than the text.
proof fn lemma_name_len_bound(s: Seq<char>)
    ensures
        name_len(s) <= s.len(),
    decreases s.len(),
{
    if s.len() > 0 && is_name_char(s[0]) {
        lemma_name_len_bound(s.drop_first());
    }
}

/// A closing quote lies inside the text.
proof fn lemma_quoted_len_bound(s: Seq<char>)
    ensures
        quoted_len(s) matches Some(n) ==> n < s.len(),
    decreases s.len(),
{
    if s.len() > 0 && s[0] != '"' {
        lemma_quoted_len_bound(s.drop_first());
    }
}

/// A token takes at least one character and no more than there are.
proof fn lemma_token_bounds(s: Seq<char>)
    ensures
        next_token(s) matches Some((_, n)) ==> 0 < n <= s.len(),
{
    if s.len() > 0 {
        if is_name_start(s[0]) {
            lemma_name_len_bound(s);
        } else if s[0] == '"' {
            lemma_quoted_len_bound(s.drop_first());
        }
    }
}

/// The lexer, step by step: the token behind white space and comments, and
/// the tokens of what follows it.
pub proof fn lemma_lex_unfold(s: Seq<char>)
    ensures
        lex(s) == match skip_trivia(s) {
            Err(left) => Err::<Seq<TokenView>, nat>(left),
            Ok(rest) => if rest.len() == 0 {
                Ok(Seq::empty())
            } else {
                match next_token(rest) {
                    None => Err(rest.len()),
                    Some((token, n)) => after(seq![token], lex(rest.skip(n as int))),
                }
            },
        },
{
    lemma_trivia_shrinks(s);
    match skip_trivia(s) {
        Ok(rest) => {
            lemma_token_bounds(rest);
        },
        Err(_) => {},
    }
}

/// A blank in front of a text does not change its tokens.
pub proof fn lemma_lex_blank(c: char, rest: Seq<char>)
    requires
        is_space(c),
    ensures
        lex(seq![c] + rest) == lex(rest),
{
    let s = seq![c] + rest;
    assert(s.drop_first() =~= rest);
    lemma_lex_unfold(s);
    lemma_lex_unfold(rest);
}

/// Whether a token starts right at the front of `s`: there is a character,
/// and it neither is white space nor opens a comment.
pub open spec fn at_token(s: Seq<char>) -> bool {
    s.len() > 0 && !is_space(s[0]) && !(s.len() >= 2 && s[0] == '(' && s[1] == '*')
}

/// The tokens of a text at whose front a token starts.
pub proof fn lemma_lex_token(s: Seq<char>)
    requires
        at_token(s),
    ensures
        lex(s) == match next_token(s) {
            None => Err::<Seq<TokenView>, nat>(s.len()),
            Some((token, n)) => after(seq![token], lex(s.skip(n as int))),
        },
{
    lemma_lex_unfold(s);
}

/// A word in front of a text that ends it runs exactly as far as the word.
proof fn lemma_name_len_of_word(text: Seq<char>, rest: Seq<char>)
    requires
        forall|i: int| 0 <= i < text.len() ==> is_name_char(#[trigger] text[i]),
        ends_word(rest),
    ensures
        name_len(text + rest) == text.len(),
    decreases text.len(),
{
    let s = text + rest;
    if text.len() == 0 {
        assert(s =~= rest);
    } else {
        assert(s[0] == text[0]);
        assert(s.drop_first() =~= text.drop_first() + rest);
        assert forall|i: int| 0 <= i < text.drop_first().len() implies is_name_char(
            #[trigger] text.drop_first()[i],
        ) by {
            assert(text.drop_first()[i] == text[i + 1]);
        }
        lemma_name_len_of_word(text.drop_first(), rest);
    }
}

/// A word in front of a text that ends it is read as one token.
pub proof fn lemma_lex_word(text: Seq<char>, rest: Seq<char>)
    requires
        is_word(text),
        ends_word(rest),
    ensures
        lex(text + rest) == after(seq![word(text)], lex(rest)),
{
    let s = text + rest;
    lemma_name_len_of_word(text, rest);
    assert(s[0] == text[0]);
    assert(s.take(text.len() as int) =~= text);
    assert(s.skip(text.len() as int) =~= rest);
    lemma_lex_token(s);
}

/// `(` in front of a text that does not go on with `*` is read as a token.
pub proof fn lemma_lex_open(rest: Seq<char>)
    requires
        rest.len() == 0 || rest[0] != '*',
    ensures
        lex(seq!['('] + rest) == after(seq![TokenView::LParen], lex(rest)),
{
    let s = seq!['('] + rest;
    assert(s.skip(1) =~= rest);
    lemma_lex_token(s);
}

/// `)` is read as a token.
pub proof fn lemma_lex_close(rest: Seq<char>)
    ensures
        lex(seq![')'] + rest) == after(seq![TokenView::RParen], lex(rest)),
{
    let s = seq![')'] + rest;
    assert(s.skip(1) =~= rest);
    lemma_lex_token(s);
}

/// `:` is read as a token.
pub proof fn lemma_lex_colon(rest: Seq<char>)
    ensures
        lex(seq![':'] + rest) == after(seq![TokenView::Colon], lex(rest)),
{
    let s = seq![':'] + rest;
    assert(s.skip(1) =~= rest);
    lemma_lex_token(s);
}

/// `;` is read as a token.
pub proof fn lemma_lex_semicolon(rest: Seq<char>)
    ensures
        lex(seq![';'] + rest) == after(seq![TokenView::Semicolon], lex(rest)),
{
    let s = seq![';'] + rest;
    assert(s.skip(1) =~= rest);
    lemma_lex_token(s);
}

/// `!` in front of a text that does not go on with `=` is read as a token.
pub proof fn lemma_lex_not(rest: Seq<char>)
    requires
        rest.len() == 0 || rest[0] != '=',
    ensures
        lex(seq!['!'] + rest) == after(seq![TokenView::Not], lex(rest)),
{
    let s = seq!['!'] + rest;
    assert(s.skip(1) =~= rest);
    lemma_lex_token(s);
}

/// `&&` is read as a token.
pub proof fn lemma_lex_and(rest: Seq<char>)
    ensures
        lex(seq!['&', '&'] + rest) == after(seq![TokenView::And], lex(rest)),
{
    let s = seq!['&', '&'] + rest;
    assert(s.skip(2) =~= rest);
    lemma_lex_token(s);
}

/// `||` is read as a token.
pub proof fn lemma_lex_or(rest: Seq<char>)
    ensures
        lex(seq!['|', '|'] + rest) == after(seq![TokenView::Or], lex(rest)),
{
    let s = seq!['|', '|'] + rest;
    assert(s.skip(2) =~= rest);
    lemma_lex_token(s);
}

/// `[|` is read as a token.
pub proof fn lemma_lex_array_open(rest: Seq<char>)
    ensures
        lex(seq!['[', '|'] + rest) == after(seq![TokenView::ArrayOpen], lex(rest)),
{
    let s = seq!['[', '|'] + rest;
    assert(s.skip(2) =~= rest);
    lemma_lex_token(s);
}

/// `|]` is read as a token.
pub proof fn lemma_lex_array_close(rest: Seq<char>)
    ensures
        lex(seq!['|', ']'] + rest) == after(seq![TokenView::ArrayClose], lex(rest)),
{
    let s = seq!['|', ']'] + rest;
    assert(s.skip(2) =~= rest);
    lemma_lex_token(s);
}

/// A comparison in front of a text that does not go on with `=` is read as a
/// token.
pub proof fn lemma_lex_compare(op: AssertionOp, rest: Seq<char>)
    requires
        rest.len() == 0 || rest[0] != '=',
    ensures
        lex(op.render() + rest) == after(seq![TokenView::Compare(op)], lex(rest)),
{
    reveal_strlit("=");
    reveal_strlit("<=");
    reveal_strlit(">=");
    reveal_strlit("!=");
    reveal_strlit("<");
    reveal_strlit(">");
    let s = op.render() + rest;
    assert(s.skip(op.render().len() as int) =~= rest);
    assert(s[0] == op.render()[0]);
    if op.render().len() == 2 {
        assert(s[1] == op.render()[1]);
    } else if rest.len() > 0 {
        assert(s[1] == rest[0]);
    }
    lemma_lex_token(s);
}

/// The empty text has no token.
pub proof fn lemma_lex_empty()
    ensures
        lex(Seq::<char>::empty()) == Ok::<Seq<TokenView>, nat>(Seq::empty()),
{
    lemma_lex_unfold(Seq::<char>::empty());
}

/// Each reserved word is a word, and the lexer reads it as the token of its
/// own.
pub proof fn lemma_reserved_words()
    ensures
        is_word("let"@),
        word("let"@) == TokenView::Let,
        is_word("preds"@),
        word("preds"@) == TokenView::Preds,
        is_word("pre"@),
        word("pre"@) == TokenView::Pre,
        is_word("post"@),
        word("post"@) == TokenView::Post,
        is_word("int"@),
        word("int"@) == TokenView::Int,
        is_word("bool"@),
        word("bool"@) == TokenView::Bool,
        is_word("true"@),
        word("true"@) == TokenView::True,
        is_word("implies"@),
        word("implies"@) == TokenView::Implies,
        is_word("iff"@),
        word("iff"@) == TokenView::Iff,
{
    reveal_strlit("let");
    reveal_strlit("preds");
    reveal_strlit("pre");
    reveal_strlit("post");
    reveal_strlit("int");
    reveal_strlit("bool");
    reveal_strlit("true");
    reveal_strlit("implies");
    reveal_strlit("iff");
    assert(is_name_char("let"@[0]));
    assert(is_name_char("let"@[1]));
    assert(is_name_char("let"@[2]));
    assert(is_name_char("preds"@[0]));
    assert(is_name_char("preds"@[1]));
    assert(is_name_char("preds"@[2]));
    assert(is_name_char("preds"@[3]));
    assert(is_name_char("preds"@[4]));
    assert("pre"@[0] != "let"@[0]);
    assert(is_name_char("pre"@[0]));
    assert(is_name_char("pre"@[1]));
    assert(is_name_char("pre"@[2]));
    assert(is_name_char("post"@[0]));
    assert(is_name_char("post"@[1]));
    assert(is_name_char("post"@[2]));
    assert(is_name_char("post"@[3]));
    assert("int"@[0] != "let"@[0]);
    assert("int"@[0] != "pre"@[0]);
    assert(is_name_char("int"@[0]));
    assert(is_name_char("int"@[1]));
    assert(is_name_char("int"@[2]));
    assert("bool"@[0] != "post"@[0]);
    assert(is_name_char("bool"@[0]));
    assert(is_name_char("bool"@[1]));
    assert(is_name_char("bool"@[2]));
    assert(is_name_char("bool"@[3]));
    assert("true"@[0] != "post"@[0]);
    assert("true"@[0] != "bool"@[0]);
    assert(is_name_char("true"@[0]));
    assert(is_name_char("true"@[1]));
    assert(is_name_char("true"@[2]));
    assert(is_name_char("true"@[3]));
    assert(is_name_char("implies"@[0]));
    assert(is_name_char("implies"@[1]));
    assert(is_name_char("implies"@[2]));
    assert(is_name_char("implies"@[3]));
    assert(is_name_char("implies"@[4]));
    assert(is_name_char("implies"@[5]));
    assert(is_name_char("implies"@[6]));
    assert("iff"@[0] != "let"@[0]);
    assert("iff"@[0] != "pre"@[0]);
    assert("iff"@[1] != "int"@[1]);
    assert(is_name_char("iff"@[0]));
    assert(is_name_char("iff"@[1]));
    assert(is_name_char("iff"@[2]));
}

/// Each predicate symbol is a word, and the lexer reads it as the token of
/// that predicate.
pub proof fn lemma_predicate_words(pred: Pred)
    ensures
        is_word(pred.render()),
        word(pred.render()) == TokenView::Predicate(pred),
{
    reveal_strlit("let");
    reveal_strlit("preds");
    reveal_strlit("pre");
    reveal_strlit("post");
    reveal_strlit("int");
    reveal_strlit("bool");
    reveal_strlit("true");
    reveal_strlit("implies");
    reveal_strlit("iff");
    reveal_strlit("len");
    reveal_strlit("mem");
    reveal_strlit("hd");
    reveal_strlit("ord");
    reveal_strlit("left");
    reveal_strlit("right");
    reveal_strlit("sorted");
    reveal_strlit("once");
    reveal_strlit("para");
    reveal_strlit("ance");
    reveal_strlit("root");
    match pred {
        Pred::length => {
            assert("len"@[2] != "let"@[2]);
            assert("len"@[0] != "pre"@[0]);
            assert("len"@[0] != "int"@[0]);
            assert("len"@[0] != "iff"@[0]);
            assert(is_name_char("len"@[0]));
            assert(is_name_char("len"@[1]));
            assert(is_name_char("len"@[2]));
        },
        Pred::member => {
            assert("mem"@[0] != "let"@[0]);
            assert("mem"@[0] != "pre"@[0]);
            assert("mem"@[0] != "int"@[0]);
            assert("mem"@[0] != "iff"@[0]);
            assert("mem"@[0] != "len"@[0]);
            assert(is_name_char("mem"@[0]));
            assert(is_name_char("mem"@[1]));
            assert(is_name_char("mem"@[2]));
        },
        Pred::head => {
            assert(is_name_char("hd"@[0]));
            assert(is_name_char("hd"@[1]));
        },
        Pred::order => {
            assert("ord"@[0] != "let"@[0]);
            assert("ord"@[0] != "pre"@[0]);
            assert("ord"@[0] != "int"@[0]);
            assert("ord"@[0] != "iff"@[0]);
            assert("ord"@[0] != "len"@[0]);
            assert("ord"@[0] != "mem"@[0]);
            assert(is_name_char("ord"@[0]));
            assert(is_name_char("ord"@[1]));
            assert(is_name_char("ord"@[2]));
        },
        Pred::left => {
            assert("left"@[0] != "post"@[0]);
            assert("left"@[0] != "bool"@[0]);
            assert("left"@[0] != "true"@[0]);
            assert(is_name_char("left"@[0]));
            assert(is_name_char("left"@[1]));
            assert(is_name_char("left"@[2]));
            assert(is_name_char("left"@[3]));
        },
        Pred::right => {
            assert("right"@[0] != "preds"@[0]);
            assert(is_name_char("right"@[0]));
            assert(is_name_char("right"@[1]));
            assert(is_name_char("right"@[2]));
            assert(is_name_char("right"@[3]));
            assert(is_name_char("right"@[4]));
        },
        Pred::sorted => {
            assert(is_name_char("sorted"@[0]));
            assert(is_name_char("sorted"@[1]));
            assert(is_name_char("sorted"@[2]));
            assert(is_name_char("sorted"@[3]));
            assert(is_name_char("sorted"@[4]));
            assert(is_name_char("sorted"@[5]));
        },
        Pred::once => {
            assert("once"@[0] != "post"@[0]);
            assert("once"@[0] != "bool"@[0]);
            assert("once"@[0] != "true"@[0]);
            assert("once"@[0] != "left"@[0]);
            assert(is_name_char("once"@[0]));
            assert(is_name_char("once"@[1]));
            assert(is_name_char("once"@[2]));
            assert(is_name_char("once"@[3]));
        },
        Pred::para => {
            assert("para"@[1] != "post"@[1]);
            assert("para"@[0] != "bool"@[0]);
            assert("para"@[0] != "true"@[0]);
            assert("para"@[0] != "left"@[0]);
            assert("para"@[0] != "once"@[0]);
            assert(is_name_char("para"@[0]));
            assert(is_name_char("para"@[1]));
            assert(is_name_char("para"@[2]));
            assert(is_name_char("para"@[3]));
        },
        Pred::ance => {
            assert("ance"@[0] != "post"@[0]);
            assert("ance"@[0] != "bool"@[0]);
            assert("ance"@[0] != "true"@[0]);
            assert("ance"@[0] != "left"@[0]);
            assert("ance"@[0] != "once"@[0]);
            assert("ance"@[0] != "para"@[0]);
            assert(is_name_char("ance"@[0]));
            assert(is_name_char("ance"@[1]));
            assert(is_name_char("ance"@[2]));
            assert(is_name_char("ance"@[3]));
        },
        Pred::root => {
            assert("root"@[0] != "post"@[0]);
            assert("root"@[0] != "bool"@[0]);
            assert("root"@[0] != "true"@[0]);
            assert("root"@[0] != "left"@[0]);
            assert("root"@[0] != "once"@[0]);
            assert("root"@[0] != "para"@[0]);
            assert("root"@[0] != "ance"@[0]);
            assert(is_name_char("root"@[0]));
            assert(is_name_char("root"@[1]));
            assert(is_name_char("root"@[2]));
            assert(is_name_char("root"@[3]));
        },
    }
}

/// Whether every name among `tokens` is a name: a word that is not reserved.
pub open spec fn names_are_names(tokens: Seq<TokenView>) -> bool {
    forall|i: int|
        0 <= i < tokens.len() ==> ((#[trigger] tokens[i]) matches TokenView::Name(text)
            ==> is_name(text))
}

/// The characters that a run of word characters takes are word characters.
proof fn lemma_name_len_chars(s: Seq<char>)
    ensures
        forall|i: int| 0 <= i < name_len(s) ==> is_name_char(#[trigger] s[i]),
    decreases s.len(),
{
    if s.len() > 0 && is_name_char(s[0]) {
        lemma_name_len_chars(s.drop_first());
        lemma_name_len_bound(s);
        lemma_name_len_bound(s.drop_first());
        assert forall|i: int| 0 <= i < name_len(s) implies is_name_char(#[trigger] s[i]) by {
            if i > 0 {
                assert(s[i] == s.drop_first()[i - 1]);
            }
        }
    }
}

/// A name that the lexer reads is a name.
proof fn lemma_token_is_name(s: Seq<char>)
    ensures
        next_token(s) matches Some((TokenView::Name(text), _)) ==> is_name(text),
{
    if s.len() > 0 && is_name_start(s[0]) {
        let text = s.take(name_len(s) as int);
        lemma_name_len_bound(s);
        lemma_name_len_chars(s);
        assert(name_len(s) >= 1);
        assert(text[0] == s[0]);
        assert forall|i: int| 0 <= i < text.len() implies is_name_char(#[trigger] text[i]) by {
            assert(text[i] == s[i]);
        }
    }
}

/// Every name among the tokens of a text is a name.
pub proof fn lemma_lexed_names(s: Seq<char>)
    ensures
        lex(s) matches Ok(tokens) ==> names_are_names(tokens),
    decreases s.len(),
{
    lemma_lex_unfold(s);
    lemma_trivia_shrinks(s);
    match skip_trivia(s) {
        Ok(rest) => {
            if rest.len() > 0 {
                lemma_token_bounds(rest);
                lemma_token_is_name(rest);
                match next_token(rest) {
                    Some((token, n)) => {
                        lemma_lexed_names(rest.skip(n as int));
                        match lex(rest.skip(n as int)) {
                            Ok(more) => {
                                let tokens = seq![token] + more;
                                assert forall|i: int| 0 <= i < tokens.len() implies ((
                                #[trigger] tokens[i]) matches TokenView::Name(text) ==> is_name(
                                    text,
                                )) by {
                                    if i > 0 {
                                        assert(tokens[i] == more[i - 1]);
                                    }
                                }
                            },
                            Err(_) => {},
                        }
                    },
                    None => {},
                }
            }
        },
        Err(_) => {},
    }
}

} // verus!
