//! Tokens of annotation files and the lexer that cuts text into them.

use crate::ipc_assertion::{AssertionOp, Pred};
use crate::text::{chars_of, same_text};
use vstd::prelude::*;
use vstd::string::*;

verus! {

/// A token of an annotation file. A word that is not reserved is a `Name`;
/// each reserved word and each symbol is a token of its own.
#[derive(PartialEq, Debug)]
pub enum Token {
    Name(String),
    Quoted(String),
    Let,
    Preds,
    Pre,
    Post,
    Int,
    Bool,
    True,
    Implies,
    Iff,
    Predicate(Pred),
    Compare(AssertionOp),
    LParen,
    RParen,
    Colon,
    Semicolon,
    Not,
    And,
    Or,
    ArrayOpen,
    ArrayClose,
}

/// Mathematical value of a [`Token`].
pub enum TokenView {
    Name(Seq<char>),
    Quoted(Seq<char>),
    Let,
    Preds,
    Pre,
    Post,
    Int,
    Bool,
    True,
    Implies,
    Iff,
    Predicate(Pred),
    Compare(AssertionOp),
    LParen,
    RParen,
    Colon,
    Semicolon,
    Not,
    And,
    Or,
    ArrayOpen,
    ArrayClose,
}

impl View for Token {
    type V = TokenView;

    open spec fn view(&self) -> TokenView {
        match self {
            Token::Name(text) => TokenView::Name(text@),
            Token::Quoted(text) => TokenView::Quoted(text@),
            Token::Let => TokenView::Let,
            Token::Preds => TokenView::Preds,
            Token::Pre => TokenView::Pre,
            Token::Post => TokenView::Post,
            Token::Int => TokenView::Int,
            Token::Bool => TokenView::Bool,
            Token::True => TokenView::True,
            Token::Implies => TokenView::Implies,
            Token::Iff => TokenView::Iff,
            Token::Predicate(pred) => TokenView::Predicate(*pred),
            Token::Compare(op) => TokenView::Compare(*op),
            Token::LParen => TokenView::LParen,
            Token::RParen => TokenView::RParen,
            Token::Colon => TokenView::Colon,
            Token::Semicolon => TokenView::Semicolon,
            Token::Not => TokenView::Not,
            Token::And => TokenView::And,
            Token::Or => TokenView::Or,
            Token::ArrayOpen => TokenView::ArrayOpen,
            Token::ArrayClose => TokenView::ArrayClose,
        }
    }
}

/// The mathematical values of a sequence of tokens, in order.
pub open spec fn token_views(tokens: Seq<Token>) -> Seq<TokenView> {
    Seq::new(tokens.len(), |i: int| tokens[i]@)
}

/// Blank, tab, line feed or carriage return.
pub open spec fn is_space(c: char) -> bool {
    c == ' ' || c == '\t' || c == '\n' || c == '\r'
}

/// A letter of the Latin alphabet or an underscore.
pub open spec fn is_name_start(c: char) -> bool {
    ('a' <= c && c <= 'z') || ('A' <= c && c <= 'Z') || c == '_'
}

/// A character that may stand inside a word: a letter, a digit, an
/// underscore, an apostrophe or a dot.
pub open spec fn is_name_char(c: char) -> bool {
    is_name_start(c) || ('0' <= c && c <= '9') || c == '\'' || c == '.'
}

/// The predicate symbol that `text` spells, if it spells one.
pub open spec fn predicate_named(text: Seq<char>) -> Option<Pred> {
    if text == "len"@ {
        Some(Pred::length)
    } else if text == "mem"@ {
        Some(Pred::member)
    } else if text == "hd"@ {
        Some(Pred::head)
    } else if text == "ord"@ {
        Some(Pred::order)
    } else if text == "left"@ {
        Some(Pred::left)
    } else if text == "right"@ {
        Some(Pred::right)
    } else if text == "sorted"@ {
        Some(Pred::sorted)
    } else if text == "once"@ {
        Some(Pred::once)
    } else if text == "para"@ {
        Some(Pred::para)
    } else if text == "ance"@ {
        Some(Pred::ance)
    } else if text == "root"@ {
        Some(Pred::root)
    } else {
        None
    }
}

/// The token that the word `text` is: the reserved word or predicate symbol
/// that it spells, or else a name.
pub open spec fn word(text: Seq<char>) -> TokenView {
    if text == "let"@ {
        TokenView::Let
    } else if text == "preds"@ {
        TokenView::Preds
    } else if text == "pre"@ {
        TokenView::Pre
    } else if text == "post"@ {
        TokenView::Post
    } else if text == "int"@ {
        TokenView::Int
    } else if text == "bool"@ {
        TokenView::Bool
    } else if text == "true"@ {
        TokenView::True
    } else if text == "implies"@ {
        TokenView::Implies
    } else if text == "iff"@ {
        TokenView::Iff
    } else {
        match predicate_named(text) {
            Some(pred) => TokenView::Predicate(pred),
            None => TokenView::Name(text),
        }
    }
}

/// The number of characters at the front of `s` that may stand inside a word.
pub open spec fn name_len(s: Seq<char>) -> nat
    decreases s.len(),
{
    if s.len() > 0 && is_name_char(s[0]) {
        1 + name_len(s.drop_first())
    } else {
        0
    }
}

/// The number of characters of `s` in front of its first double quote, if it
/// holds one.
pub open spec fn quoted_len(s: Seq<char>) -> Option<nat>
    decreases s.len(),
{
    if s.len() == 0 {
        None
    } else if s[0] == '"' {
        Some(0)
    } else {
        match quoted_len(s.drop_first()) {
            Some(n) => Some(n + 1),
            None => None,
        }
    }
}

/// What is left of `s`, the text inside a comment nested `depth` deep, once
/// the comment is closed; `None` if it never is. Comments open with `(*`,
/// close with `*)`, and nest.
pub open spec fn skip_comment(s: Seq<char>, depth: nat) -> Option<Seq<char>>
    decreases s.len(),
{
    if depth == 0 {
        Some(s)
    } else if s.len() < 2 {
        None
    } else if s[0] == '*' && s[1] == ')' {
        skip_comment(s.skip(2), (depth - 1) as nat)
    } else if s[0] == '(' && s[1] == '*' {
        skip_comment(s.skip(2), depth + 1)
    } else {
        skip_comment(s.drop_first(), depth)
    }
}

/// What is left of `s` behind the white space and comments at its front, or
/// the number of characters left where a comment opens that is never closed.
pub open spec fn skip_trivia(s: Seq<char>) -> Result<Seq<char>, nat>
    decreases s.len(),
{
    if s.len() > 0 && is_space(s[0]) {
        skip_trivia(s.drop_first())
    } else if s.len() >= 2 && s[0] == '(' && s[1] == '*' {
        match skip_comment(s.skip(2), 1) {
            // the comparison always holds; it shows that the definition ends
            Some(rest) => if rest.len() < s.len() {
                skip_trivia(rest)
            } else {
                Err(s.len())
            },
            None => Err(s.len()),
        }
    } else {
        Ok(s)
    }
}

/// The token at the front of `s` and the number of characters it takes, if a
/// token starts there. A word runs as far as its characters go; of two
/// symbols that start alike the longer one is taken.
pub open spec fn next_token(s: Seq<char>) -> Option<(TokenView, nat)> {
    if s.len() == 0 {
        None
    } else if is_name_start(s[0]) {
        Some((word(s.take(name_len(s) as int)), name_len(s)))
    } else if s[0] == '"' {
        match quoted_len(s.drop_first()) {
            Some(n) => Some((TokenView::Quoted(s.subrange(1, 1 + n as int)), n + 2)),
            None => None,
        }
    } else if s[0] == '(' {
        Some((TokenView::LParen, 1))
    } else if s[0] == ')' {
        Some((TokenView::RParen, 1))
    } else if s[0] == ':' {
        Some((TokenView::Colon, 1))
    } else if s[0] == ';' {
        Some((TokenView::Semicolon, 1))
    } else if s[0] == '=' {
        Some((TokenView::Compare(AssertionOp::Eq), 1))
    } else if s[0] == '!' {
        if s.len() >= 2 && s[1] == '=' {
            Some((TokenView::Compare(AssertionOp::Ne), 2))
        } else {
            Some((TokenView::Not, 1))
        }
    } else if s[0] == '<' {
        if s.len() >= 2 && s[1] == '=' {
            Some((TokenView::Compare(AssertionOp::Le), 2))
        } else {
            Some((TokenView::Compare(AssertionOp::Lt), 1))
        }
    } else if s[0] == '>' {
        if s.len() >= 2 && s[1] == '=' {
            Some((TokenView::Compare(AssertionOp::Ge), 2))
        } else {
            Some((TokenView::Compare(AssertionOp::Gt), 1))
        }
    } else if s[0] == '&' {
        if s.len() >= 2 && s[1] == '&' {
            Some((TokenView::And, 2))
        } else {
            None
        }
    } else if s[0] == '|' {
        if s.len() >= 2 && s[1] == '|' {
            Some((TokenView::Or, 2))
        } else if s.len() >= 2 && s[1] == ']' {
            Some((TokenView::ArrayClose, 2))
        } else {
            None
        }
    } else if s[0] == '[' {
        if s.len() >= 2 && s[1] == '|' {
            Some((TokenView::ArrayOpen, 2))
        } else {
            None
        }
    } else {
        None
    }
}

/// `tokens` in front of what lexing the rest gave.
pub open spec fn after(tokens: Seq<TokenView>, rest: Result<Seq<TokenView>, nat>) -> Result<
    Seq<TokenView>,
    nat,
> {
    match rest {
        Ok(more) => Ok(tokens + more),
        Err(left) => Err(left),
    }
}

/// The tokens of `s`, or the number of characters left at the first place
/// where no token starts: an unclosed comment, an unclosed quoted text, or a
/// character that begins no token.
pub open spec fn lex(s: Seq<char>) -> Result<Seq<TokenView>, nat>
    decreases s.len(),
{
    match skip_trivia(s) {
        Err(left) => Err(left),
        Ok(rest) => if rest.len() == 0 {
            Ok(Seq::empty())
        } else {
            match next_token(rest) {
                None => Err(rest.len()),
                // the comparison always holds; it shows that the definition ends
                Some((token, n)) => if 0 < n <= rest.len() <= s.len() {
                    after(seq![token], lex(rest.skip(n as int)))
                } else {
                    Err(rest.len())
                },
            }
        },
    }
}

/// For each token of `s`, in order, the number of characters from its first
/// to the end of `s`.
pub open spec fn unread_at(s: Seq<char>) -> Seq<nat>
    decreases s.len(),
{
    match skip_trivia(s) {
        Err(_) => Seq::empty(),
        Ok(rest) => if rest.len() == 0 {
            Seq::empty()
        } else {
            match next_token(rest) {
                None => Seq::empty(),
                // the comparison always holds; it shows that the definition ends
                Some((_, n)) => if 0 < n <= rest.len() <= s.len() {
                    seq![rest.len()] + unread_at(rest.skip(n as int))
                } else {
                    Seq::empty()
                },
            }
        },
    }
}

/// The offsets, counted in characters from the start of a text of `len`
/// characters, at which so many characters are unread.
pub open spec fn offsets_of(len: nat, unread: Seq<nat>) -> Seq<int> {
    Seq::new(unread.len(), |i: int| len - unread[i])
}

fn space(c: char) -> (b: bool)
    ensures
        b == is_space(c),
{
    c == ' ' || c == '\t' || c == '\n' || c == '\r'
}

fn name_start(c: char) -> (b: bool)
    ensures
        b == is_name_start(c),
{
    ('a' <= c && c <= 'z') || ('A' <= c && c <= 'Z') || c == '_'
}

fn name_char(c: char) -> (b: bool)
    ensures
        b == is_name_char(c),
{
    name_start(c) || ('0' <= c && c <= '9') || c == '\'' || c == '.'
}

/// The predicate symbol that `text` spells, if it spells one.
pub fn known_predicate(text: &str) -> (pred: Option<Pred>)
    ensures
        pred == predicate_named(text@),
{
    if same_text(text, "len") {
        Some(Pred::length)
    } else if same_text(text, "mem") {
        Some(Pred::member)
    } else if same_text(text, "hd") {
        Some(Pred::head)
    } else if same_text(text, "ord") {
        Some(Pred::order)
    } else if same_text(text, "left") {
        Some(Pred::left)
    } else if same_text(text, "right") {
        Some(Pred::right)
    } else if same_text(text, "sorted") {
        Some(Pred::sorted)
    } else if same_text(text, "once") {
        Some(Pred::once)
    } else if same_text(text, "para") {
        Some(Pred::para)
    } else if same_text(text, "ance") {
        Some(Pred::ance)
    } else if same_text(text, "root") {
        Some(Pred::root)
    } else {
        None
    }
}

fn classify(text: &str) -> (token: Token)
    ensures
        token@ == word(text@),
{
    if same_text(text, "let") {
        Token::Let
    } else if same_text(text, "preds") {
        Token::Preds
    } else if same_text(text, "pre") {
        Token::Pre
    } else if same_text(text, "post") {
        Token::Post
    } else if same_text(text, "int") {
        Token::Int
    } else if same_text(text, "bool") {
        Token::Bool
    } else if same_text(text, "true") {
        Token::True
    } else if same_text(text, "implies") {
        Token::Implies
    } else if same_text(text, "iff") {
        Token::Iff
    } else {
        match known_predicate(text) {
            Some(pred) => Token::Predicate(pred),
            None => Token::Name(String::from_str(text)),
        }
    }
}

proof fn lemma_skip_step<T>(s: Seq<T>, i: int)
    requires
        0 <= i < s.len(),
    ensures
        s.skip(i).len() == s.len() - i,
        s.skip(i)[0] == s[i],
        s.skip(i).drop_first() == s.skip(i + 1),
{
    assert(s.skip(i).drop_first() =~= s.skip(i + 1));
}

proof fn lemma_skip_two<T>(s: Seq<T>, i: int)
    requires
        0 <= i,
        i + 2 <= s.len(),
    ensures
        s.skip(i)[0] == s[i],
        s.skip(i)[1] == s[i + 1],
        s.skip(i).skip(2) == s.skip(i + 2),
{
    assert(s.skip(i).skip(2) =~= s.skip(i + 2));
}

fn scan_comment(chars: &Vec<char>, start: usize) -> (end: Option<usize>)
    requires
        start <= chars.len(),
    ensures
        match end {
            Some(next) => start <= next <= chars.len() && skip_comment(chars@.skip(start as int), 1)
                == Some(chars@.skip(next as int)),
            None => skip_comment(chars@.skip(start as int), 1) is None,
        },
{
    let mut depth: usize = 1;
    let mut i: usize = start;
    while depth > 0
        invariant
            start <= i <= chars.len(),
            depth <= 1 + (i - start),
            skip_comment(chars@.skip(start as int), 1) == skip_comment(
                chars@.skip(i as int),
                depth as nat,
            ),
        decreases chars.len() - i,
    {
        if chars.len() - i < 2 {
            return None;
        }
        proof {
            lemma_skip_two(chars@, i as int);
            lemma_skip_step(chars@, i as int);
        }
        if chars[i] == '*' && chars[i + 1] == ')' {
            depth = depth - 1;
            i = i + 2;
        } else if chars[i] == '(' && chars[i + 1] == '*' {
            depth = depth + 1;
            i = i + 2;
        } else {
            i = i + 1;
        }
    }
    Some(i)
}

fn scan_trivia(chars: &Vec<char>, start: usize) -> (end: Result<usize, usize>)
    requires
        start <= chars.len(),
    ensures
        match end {
            Ok(next) => start <= next <= chars.len() && skip_trivia(chars@.skip(start as int))
                == Ok::<Seq<char>, nat>(chars@.skip(next as int)),
            Err(at) => start <= at <= chars.len() && skip_trivia(chars@.skip(start as int))
                == Err::<Seq<char>, nat>((chars.len() - at) as nat),
        },
{
    let mut i: usize = start;
    loop
        invariant
            start <= i <= chars.len(),
            skip_trivia(chars@.skip(start as int)) == skip_trivia(chars@.skip(i as int)),
        decreases chars.len() - i,
    {
        if i < chars.len() && space(chars[i]) {
            proof {
                lemma_skip_step(chars@, i as int);
            }
            i = i + 1;
        } else if chars.len() - i >= 2 && chars[i] == '(' && chars[i + 1] == '*' {
            proof {
                lemma_skip_two(chars@, i as int);
            }
            match scan_comment(chars, i + 2) {
                Some(next) => {
                    i = next;
                },
                None => {
                    return Err(i);
                },
            }
        } else {
            proof {
                if i < chars.len() {
                    lemma_skip_step(chars@, i as int);
                }
                if chars.len() - i >= 2 {
                    lemma_skip_two(chars@, i as int);
                }
            }
            return Ok(i);
        }
    }
}

fn scan_name(chars: &Vec<char>, start: usize) -> (end: usize)
    requires
        start <= chars.len(),
    ensures
        start <= end <= chars.len(),
        end - start == name_len(chars@.skip(start as int)),
{
    let mut i: usize = start;
    while i < chars.len() && name_char(chars[i])
        invariant
            start <= i <= chars.len(),
            name_len(chars@.skip(start as int)) == (i - start) + name_len(chars@.skip(i as int)),
        decreases chars.len() - i,
    {
        proof {
            lemma_skip_step(chars@, i as int);
        }
        i = i + 1;
    }
    proof {
        if i < chars.len() {
            lemma_skip_step(chars@, i as int);
        }
    }
    i
}

/// `n` more than what `base` holds, if it holds a number.
pub open spec fn shifted(base: Option<nat>, n: nat) -> Option<nat> {
    match base {
        Some(m) => Some(m + n),
        None => None,
    }
}

fn scan_quoted(chars: &Vec<char>, start: usize) -> (end: Option<usize>)
    requires
        start <= chars.len(),
    ensures
        match end {
            Some(close) => start <= close < chars.len() && quoted_len(chars@.skip(start as int))
                == Some((close - start) as nat),
            None => quoted_len(chars@.skip(start as int)) is None,
        },
{
    let mut i: usize = start;
    while i < chars.len() && chars[i] != '"'
        invariant
            start <= i <= chars.len(),
            quoted_len(chars@.skip(start as int)) == shifted(
                quoted_len(chars@.skip(i as int)),
                (i - start) as nat,
            ),
        decreases chars.len() - i,
    {
        proof {
            lemma_skip_step(chars@, i as int);
        }
        i = i + 1;
    }
    if i < chars.len() {
        proof {
            lemma_skip_step(chars@, i as int);
        }
        Some(i)
    } else {
        None
    }
}

fn scan_token(input: &str, chars: &Vec<char>, start: usize) -> (found: Option<(Token, usize)>)
    requires
        chars@ == input@,
        start < chars.len(),
    ensures
        match found {
            Some((token, next)) => start < next <= chars.len() && next_token(
                chars@.skip(start as int),
            ) == Some((token@, (next - start) as nat)),
            None => next_token(chars@.skip(start as int)) is None,
        },
{
    let ghost s = chars@.skip(start as int);
    proof {
        lemma_skip_step(chars@, start as int);
        if chars.len() - start >= 2 {
            lemma_skip_two(chars@, start as int);
        }
    }
    let c = chars[start];
    let more = chars.len() - start >= 2;
    if name_start(c) {
        let end = scan_name(chars, start);
        let text = input.substring_char(start, end);
        assert(text@ =~= s.take(name_len(s) as int));
        Some((classify(text), end))
    } else if c == '"' {
        match scan_quoted(chars, start + 1) {
            Some(close) => {
                let text = input.substring_char(start + 1, close);
                assert(text@ =~= s.subrange(1, 1 + (close - start - 1)));
                Some((Token::Quoted(String::from_str(text)), close + 1))
            },
            None => None,
        }
    } else if c == '(' {
        Some((Token::LParen, start + 1))
    } else if c == ')' {
        Some((Token::RParen, start + 1))
    } else if c == ':' {
        Some((Token::Colon, start + 1))
    } else if c == ';' {
        Some((Token::Semicolon, start + 1))
    } else if c == '=' {
        Some((Token::Compare(AssertionOp::Eq), start + 1))
    } else if c == '!' {
        if more && chars[start + 1] == '=' {
            Some((Token::Compare(AssertionOp::Ne), start + 2))
        } else {
            Some((Token::Not, start + 1))
        }
    } else if c == '<' {
        if more && chars[start + 1] == '=' {
            Some((Token::Compare(AssertionOp::Le), start + 2))
        } else {
            Some((Token::Compare(AssertionOp::Lt), start + 1))
        }
    } else if c == '>' {
        if more && chars[start + 1] == '=' {
            Some((Token::Compare(AssertionOp::Ge), start + 2))
        } else {
            Some((Token::Compare(AssertionOp::Gt), start + 1))
        }
    } else if c == '&' {
        if more && chars[start + 1] == '&' {
            Some((Token::And, start + 2))
        } else {
            None
        }
    } else if c == '|' {
        if more && chars[start + 1] == '|' {
            Some((Token::Or, start + 2))
        } else if more && chars[start + 1] == ']' {
            Some((Token::ArrayClose, start + 2))
        } else {
            None
        }
    } else if c == '[' {
        if more && chars[start + 1] == '|' {
            Some((Token::ArrayOpen, start + 2))
        } else {
            None
        }
    } else {
        None
    }
}

/// The tokens of a text, the offset at which each of them starts, and the
/// number of characters of the text.
pub struct Scanned {
    pub tokens: Vec<Token>,
    pub offsets: Vec<usize>,
    pub length: usize,
}

impl Scanned {
    /// Whether these are the tokens of `input` and the offsets at which they
    /// start, counted in characters from the start of `input`.
    pub open spec fn is_scan_of(&self, input: Seq<char>) -> bool {
        &&& lex(input) == Ok::<Seq<TokenView>, nat>(token_views(self.tokens@))
        &&& self.length == input.len()
        &&& self.offsets@.map_values(|offset: usize| offset as int) == offsets_of(
            input.len(),
            unread_at(input),
        )
        &&& self.offsets.len() == self.tokens.len()
    }
}

/// Cuts `input` into its tokens, leaving out white space and comments, and
/// notes where each token starts. Where no token starts (an unclosed
/// comment, an unclosed quoted text, a character that begins no token) the
/// result is the offset of that place, counted in characters from the start
/// of `input`.
pub fn scan(input: &str) -> (found: Result<Scanned, usize>)
    ensures
        match found {
            Ok(scanned) => scanned.is_scan_of(input@),
            Err(offset) => offset <= input@.len() && lex(input@) == Err::<Seq<TokenView>, nat>(
                (input@.len() - offset) as nat,
            ),
        },
{
    let chars = chars_of(input);
    let mut tokens: Vec<Token> = Vec::new();
    let mut offsets: Vec<usize> = Vec::new();
    let mut i: usize = 0;
    let ghost len = chars@.len();
    assert(chars@.skip(0) =~= chars@);
    assert(after(token_views(tokens@), lex(chars@)) == lex(chars@)) by {
        match lex(chars@) {
            Ok(more) => {
                assert(token_views(tokens@) + more =~= more);
            },
            Err(_) => {},
        }
    }
    assert(unread_of(len, offsets@) + unread_at(chars@) =~= unread_at(chars@));
    loop
        invariant
            i <= chars.len(),
            chars@ == input@,
            len == chars@.len(),
            offsets.len() == tokens.len(),
            forall|j: int| 0 <= j < offsets.len() ==> #[trigger] offsets@[j] <= len,
            lex(chars@) == after(token_views(tokens@), lex(chars@.skip(i as int))),
            unread_at(chars@) == unread_of(len, offsets@) + unread_at(chars@.skip(i as int)),
        decreases chars.len() - i,
    {
        match scan_trivia(&chars, i) {
            Err(at) => {
                return Err(at);
            },
            Ok(start) => {
                if start >= chars.len() {
                    proof {
                        assert(token_views(tokens@) + Seq::<TokenView>::empty() =~= token_views(
                            tokens@,
                        ));
                        assert(unread_of(len, offsets@) + Seq::<nat>::empty() =~= unread_of(
                            len,
                            offsets@,
                        ));
                        assert(offsets@.map_values(|offset: usize| offset as int) =~= offsets_of(
                            len,
                            unread_of(len, offsets@),
                        ));
                    }
                    return Ok(Scanned { tokens, offsets, length: chars.len() });
                }
                match scan_token(input, &chars, start) {
                    None => {
                        return Err(start);
                    },
                    Some((token, next)) => {
                        let ghost before = token_views(tokens@);
                        let ghost head = token@;
                        let ghost tail = lex(chars@.skip(next as int));
                        let ghost read = unread_of(len, offsets@);
                        assert(chars@.skip(start as int).skip(next - start) =~= chars@.skip(
                            next as int,
                        ));
                        assert(lex(chars@.skip(i as int)) == after(seq![head], tail));
                        assert(unread_at(chars@.skip(i as int)) == seq![(len - start) as nat]
                            + unread_at(chars@.skip(next as int)));
                        tokens.push(token);
                        offsets.push(start);
                        assert(token_views(tokens@) =~= before + seq![head]);
                        assert(unread_of(len, offsets@) =~= read + seq![(len - start) as nat]);
                        assert(read + (seq![(len - start) as nat] + unread_at(
                            chars@.skip(next as int),
                        )) =~= (read + seq![(len - start) as nat]) + unread_at(
                            chars@.skip(next as int),
                        ));
                        assert(after(before, after(seq![head], tail)) == after(
                            before + seq![head],
                            tail,
                        )) by {
                            match tail {
                                Ok(more) => {
                                    assert(before + (seq![head] + more) =~= (before + seq![head])
                                        + more);
                                },
                                Err(_) => {},
                            }
                        }
                        i = next;
                    },
                }
            },
        }
    }
}

/// So many characters as are unread at each of `offsets` in a text of `len`
/// characters.
pub open spec fn unread_of(len: nat, offsets: Seq<usize>) -> Seq<nat> {
    Seq::new(offsets.len(), |i: int| (len - offsets[i]) as nat)
}

/// Cuts `input` into its tokens, leaving out white space and comments. Where
/// no token starts the result is the offset of that place, counted in
/// characters from the start of `input`.
pub fn tokenize(input: &str) -> (found: Result<Vec<Token>, usize>)
    ensures
        match found {
            Ok(tokens) => lex(input@) == Ok::<Seq<TokenView>, nat>(token_views(tokens@)),
            Err(offset) => offset <= input@.len() && lex(input@) == Err::<Seq<TokenView>, nat>(
                (input@.len() - offset) as nat,
            ),
        },
{
    match scan(input) {
        Ok(scanned) => Ok(scanned.tokens),
        Err(offset) => Err(offset),
    }
}

} // verus!
