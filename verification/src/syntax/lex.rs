//! From text to tokens.
//!
//! Lexing never fails. What fits no token is carried along as
//! [`Token::Error`], so that the parser can say where it stands.
//! Whitespace is a token of its own: between a command and its
//! arguments it is required, so it cannot be thrown away here.

use crate::ext::text::{
    char_width, chars_of, is_digit, lemma_encode_concat, lemma_utf8_len_step, string_of, text_is,
    utf8_len,
};
use vstd::prelude::*;

verus! {

/// Whether Unicode gives the character the property `ID_Start`.
pub uninterp spec fn id_start(c: char) -> bool;

/// Whether Unicode gives the character the property `ID_Continue`.
pub uninterp spec fn id_continue(c: char) -> bool;

/// `unicode_id_start::is_id_start`: looks the character up in the
/// table of `ID_Start` that the crate was built with.
#[verifier::external_body]
fn is_id_start(c: char) -> (r: bool)
    ensures
        r == id_start(c),
{
    unicode_id_start::is_id_start(c)
}

/// `unicode_id_start::is_id_continue`: looks the character up in the
/// table of `ID_Continue` that the crate was built with.
#[verifier::external_body]
fn is_id_continue(c: char) -> (r: bool)
    ensures
        r == id_continue(c),
{
    unicode_id_start::is_id_continue(c)
}

/// One piece of a script.
#[derive(Debug, PartialEq, Eq, PartialOrd, Ord, Hash)]
pub enum Token {
    // commands
    Create,
    Pay,
    Deliver,
    Balance,
    // punctuation
    Dot,
    Colon,
    Semicolon,
    Newline,
    SignEuro,
    SignCent,
    /// Digits, a dot and two more digits.
    Decimal(String),
    /// Digits.
    Integer(String),
    /// See <https://www.unicode.org/reports/tr31/#R1>, very backwards-compatible.
    Ident(String),
    /// From `#` to the end of the line.
    Comment,
    /// Spaces and tabs.
    Whitespace,
    /// A character with which no token starts.
    Error,
}

/// What a token says.
pub ghost enum TokenView {
    Create,
    Pay,
    Deliver,
    Balance,
    Dot,
    Colon,
    Semicolon,
    Newline,
    SignEuro,
    SignCent,
    Decimal(Seq<char>),
    Integer(Seq<char>),
    Ident(Seq<char>),
    Comment,
    Whitespace,
    Error,
}

impl View for Token {
    type V = TokenView;

    open spec fn view(&self) -> TokenView {
        match *self {
            Token::Create => TokenView::Create,
            Token::Pay => TokenView::Pay,
            Token::Deliver => TokenView::Deliver,
            Token::Balance => TokenView::Balance,
            Token::Dot => TokenView::Dot,
            Token::Colon => TokenView::Colon,
            Token::Semicolon => TokenView::Semicolon,
            Token::Newline => TokenView::Newline,
            Token::SignEuro => TokenView::SignEuro,
            Token::SignCent => TokenView::SignCent,
            Token::Decimal(text) => TokenView::Decimal(text@),
            Token::Integer(text) => TokenView::Integer(text@),
            Token::Ident(text) => TokenView::Ident(text@),
            Token::Comment => TokenView::Comment,
            Token::Whitespace => TokenView::Whitespace,
            Token::Error => TokenView::Error,
        }
    }
}

impl Clone for Token {
    fn clone(&self) -> (r: Self)
        ensures
            r@ == self@,
    {
        match self {
            Token::Create => Token::Create,
            Token::Pay => Token::Pay,
            Token::Deliver => Token::Deliver,
            Token::Balance => Token::Balance,
            Token::Dot => Token::Dot,
            Token::Colon => Token::Colon,
            Token::Semicolon => Token::Semicolon,
            Token::Newline => Token::Newline,
            Token::SignEuro => Token::SignEuro,
            Token::SignCent => Token::SignCent,
            Token::Decimal(text) => Token::Decimal(text.clone()),
            Token::Integer(text) => Token::Integer(text.clone()),
            Token::Ident(text) => Token::Ident(text.clone()),
            Token::Comment => Token::Comment,
            Token::Whitespace => Token::Whitespace,
            Token::Error => Token::Error,
        }
    }
}

/// Where in the source something stands: from the byte at `start` up
/// to, and without, the byte at `end`.
#[derive(Debug, Clone, Copy, PartialEq, Eq, PartialOrd, Ord, Hash)]
pub struct Span {
    pub start: usize,
    pub end: usize,
}

/// A token and where it stands.
#[derive(Debug, PartialEq, Eq)]
pub struct Spanned {
    pub token: Token,
    pub span: Span,
}

/// What a token with its place says.
pub ghost struct SpannedView {
    pub token: TokenView,
    pub start: nat,
    pub end: nat,
}

impl View for Spanned {
    type V = SpannedView;

    open spec fn view(&self) -> SpannedView {
        SpannedView {
            token: self.token@,
            start: self.span.start as nat,
            end: self.span.end as nat,
        }
    }
}

/// The kinds of character of which a token takes as many as follow
/// each other.
#[derive(Debug, Clone, Copy, PartialEq, Eq)]
pub enum Class {
    /// The ten digits.
    Digit,
    /// Space and tab.
    Blank,
    /// What a name goes on with: `ID_Continue`, and the hyphen.
    Word,
    /// Whatever does not end a line.
    Line,
}

/// Whether the character belongs to the class.
pub open spec fn in_class(class: Class, c: char) -> bool {
    match class {
        Class::Digit => is_digit(c),
        Class::Blank => c == ' ' || c == '\t',
        Class::Word => id_continue(c) || c == '-',
        Class::Line => c != '\n' && c != '\r',
    }
}

/// The first position from `i` on whose character is not of the
/// class, or the end of the text.
pub open spec fn run_end(src: Seq<char>, i: int, class: Class) -> int
    decreases src.len() - i,
{
    if 0 <= i < src.len() && in_class(class, src[i]) {
        run_end(src, i + 1, class)
    } else {
        i
    }
}

/// A run ends at or after the place where it starts, within the
/// text; it holds characters of the class only, and stops before
/// one that is not.
pub proof fn lemma_run_end(src: Seq<char>, i: int, class: Class)
    requires
        0 <= i <= src.len(),
    ensures
        i <= run_end(src, i, class) <= src.len(),
        forall|k: int| i <= k < run_end(src, i, class) ==> in_class(class, #[trigger] src[k]),
        run_end(src, i, class) < src.len() ==> !in_class(class, src[run_end(src, i, class)]),
    decreases src.len() - i,
{
    if i < src.len() && in_class(class, src[i]) {
        lemma_run_end(src, i + 1, class);
    }
}

/// The token that a word is: a command, a currency, or else a name.
pub open spec fn word_token(word: Seq<char>) -> TokenView {
    if word == "create"@ {
        TokenView::Create
    } else if word == "pay"@ {
        TokenView::Pay
    } else if word == "deliver"@ {
        TokenView::Deliver
    } else if word == "balance"@ || word == "bal"@ {
        TokenView::Balance
    } else if word == "eur"@ || word == "eurs"@ || word == "EUR"@ {
        TokenView::SignEuro
    } else if word == "cent"@ || word == "cents"@ || word == "ct"@ {
        TokenView::SignCent
    } else {
        TokenView::Ident(word)
    }
}

/// The token that starts at position `i`, and the position after it.
///
/// - Digits make a number. Where a dot and two digits follow them,
///   these belong to it, and the number is a decimal.
/// - Spaces and tabs make whitespace.
/// - A line feed is a newline, and so is a carriage return with a
///   line feed behind it.
/// - `#` starts a comment, which goes on to the end of the line.
/// - A character of `ID_Start` starts a word, which goes on with
///   characters of `ID_Continue` and hyphens.
/// - Whatever starts none of these is an error of its own.
pub open spec fn token_at(src: Seq<char>, i: int) -> (TokenView, int) {
    let c = src[i];
    if is_digit(c) {
        let e = run_end(src, i, Class::Digit);
        if e + 2 < src.len() && src[e] == '.' && is_digit(src[e + 1]) && is_digit(src[e + 2]) {
            (TokenView::Decimal(src.subrange(i, e + 3)), e + 3)
        } else {
            (TokenView::Integer(src.subrange(i, e)), e)
        }
    } else if in_class(Class::Blank, c) {
        (TokenView::Whitespace, run_end(src, i, Class::Blank))
    } else if c == '\n' {
        (TokenView::Newline, i + 1)
    } else if c == '\r' {
        if i + 1 < src.len() && src[i + 1] == '\n' {
            (TokenView::Newline, i + 2)
        } else {
            (TokenView::Error, i + 1)
        }
    } else if c == '.' {
        (TokenView::Dot, i + 1)
    } else if c == ':' {
        (TokenView::Colon, i + 1)
    } else if c == ';' {
        (TokenView::Semicolon, i + 1)
    } else if c == '#' {
        (TokenView::Comment, run_end(src, i + 1, Class::Line))
    } else if c == '\u{20ac}' {
        (TokenView::SignEuro, i + 1)
    } else if c == '\u{a2}' {
        (TokenView::SignCent, i + 1)
    } else if id_start(c) {
        let e = run_end(src, i + 1, Class::Word);
        (word_token(src.subrange(i, e)), e)
    } else {
        (TokenView::Error, i + 1)
    }
}

/// Every token has at least one character and ends within the text.
pub proof fn lemma_token_advances(src: Seq<char>, i: int)
    requires
        0 <= i < src.len(),
    ensures
        i < token_at(src, i).1 <= src.len(),
{
    lemma_run_end(src, i, Class::Digit);
    lemma_run_end(src, i, Class::Blank);
    lemma_run_end(src, i + 1, Class::Line);
    lemma_run_end(src, i + 1, Class::Word);
}

/// Tokens are taken whole. Behind whitespace stands no whitespace,
/// behind a whole number no digit, and behind a command or a name
/// nothing that a name could go on with: `balanced` is a name, not
/// `balance` and a rest.
pub proof fn lemma_tokens_are_whole(src: Seq<char>, i: int)
    requires
        0 <= i < src.len(),
        token_at(src, i).1 < src.len(),
    ensures
        token_at(src, i).0 == TokenView::Whitespace ==> !in_class(
            Class::Blank,
            src[token_at(src, i).1],
        ),
        token_at(src, i).0 is Integer ==> !is_digit(src[token_at(src, i).1]),
        token_at(src, i).0 is Ident || token_at(src, i).0 == TokenView::Create || token_at(
            src,
            i,
        ).0 == TokenView::Pay || token_at(src, i).0 == TokenView::Deliver || token_at(src, i).0
            == TokenView::Balance ==> !in_class(Class::Word, src[token_at(src, i).1]),
{
    lemma_run_end(src, i, Class::Digit);
    lemma_run_end(src, i, Class::Blank);
    lemma_run_end(src, i + 1, Class::Word);
}

/// The tokens from position `i` to the end of the text, each with
/// the bytes at which it stands.
pub open spec fn lex_from(src: Seq<char>, i: int) -> Seq<SpannedView>
    decreases src.len() - i,
{
    if 0 <= i < src.len() {
        let (token, e) = token_at(src, i);
        if i < e <= src.len() {
            seq![
                SpannedView { token, start: utf8_len(src.take(i)), end: utf8_len(src.take(e)) },
            ] + lex_from(src, e)
        } else {
            seq![]
        }
    } else {
        seq![]
    }
}

/// The tokens of a text.
pub open spec fn lex_spec(src: Seq<char>) -> Seq<SpannedView> {
    lex_from(src, 0)
}

/// The tokens lie end to end: the first starts where the lexing
/// starts, each one starts where the one before it ends, none is
/// empty, and the last ends with the text.
pub proof fn lemma_lex_gapless(src: Seq<char>, i: int)
    requires
        0 <= i <= src.len(),
    ensures
        i < src.len() ==> lex_from(src, i).len() > 0,
        lex_from(src, i).len() > 0 ==> lex_from(src, i)[0].start == utf8_len(src.take(i))
            && lex_from(src, i).last().end == utf8_len(src),
        forall|k: int|
            0 <= k < lex_from(src, i).len() - 1 ==> (#[trigger] lex_from(src, i)[k]).end
                == lex_from(src, i)[k + 1].start,
        forall|k: int|
            0 <= k < lex_from(src, i).len() ==> (#[trigger] lex_from(src, i)[k]).start
                < lex_from(src, i)[k].end,
    decreases src.len() - i,
{
    if i < src.len() {
        lemma_token_advances(src, i);
        let e = token_at(src, i).1;
        lemma_lex_gapless(src, e);
        lemma_utf8_len_grows(src, i, e);
        let rest = lex_from(src, e);
        let all = lex_from(src, i);
        assert(all.len() == rest.len() + 1);
        assert(forall|k: int| 1 <= k < all.len() ==> all[k] == rest[k - 1]);
        if e == src.len() {
            assert(src.take(e) == src);
        }
        assert forall|k: int| 0 <= k < all.len() - 1 implies (#[trigger] all[k]).end == all[k
            + 1].start by {
            if k >= 1 {
                assert(all[k] == rest[k - 1]);
                assert(all[k + 1] == rest[k]);
            }
        }
    }
}

/// A longer prefix has more bytes.
pub proof fn lemma_utf8_len_grows(src: Seq<char>, i: int, e: int)
    requires
        0 <= i <= e <= src.len(),
    ensures
        utf8_len(src.take(i)) <= utf8_len(src.take(e)) <= utf8_len(src),
        i < e ==> utf8_len(src.take(i)) < utf8_len(src.take(e)),
    decreases e - i,
{
    assert(src == src.take(e) + src.skip(e));
    lemma_encode_concat(src.take(e), src.skip(e));
    if i < e {
        lemma_utf8_len_step(src, e - 1);
        lemma_utf8_len_grows(src, i, e - 1);
    }
}

/// Whether the character belongs to the class.
fn belongs(class: Class, c: char) -> (r: bool)
    ensures
        r == in_class(class, c),
{
    match class {
        Class::Digit => c >= '0' && c <= '9',
        Class::Blank => c == ' ' || c == '\t',
        Class::Word => c == '-' || is_id_continue(c),
        Class::Line => c != '\n' && c != '\r',
    }
}

/// Goes on from `i` for as long as the characters are of the class.
fn scan(chars: &Vec<char>, i: usize, class: Class) -> (e: usize)
    requires
        i <= chars.len(),
    ensures
        e == run_end(chars@, i as int, class),
        i <= e <= chars.len(),
{
    let mut e: usize = i;
    while e < chars.len() && belongs(class, chars[e])
        invariant
            i <= e <= chars.len(),
            run_end(chars@, i as int, class) == run_end(chars@, e as int, class),
        decreases chars.len() - e,
    {
        e = e + 1;
    }
    e
}

/// The token that a word is.
fn classify(word: String) -> (r: Token)
    ensures
        r@ == word_token(word@),
{
    let text = word.as_str();
    if text_is(text, "create") {
        Token::Create
    } else if text_is(text, "pay") {
        Token::Pay
    } else if text_is(text, "deliver") {
        Token::Deliver
    } else if text_is(text, "balance") || text_is(text, "bal") {
        Token::Balance
    } else if text_is(text, "eur") || text_is(text, "eurs") || text_is(text, "EUR") {
        Token::SignEuro
    } else if text_is(text, "cent") || text_is(text, "cents") || text_is(text, "ct") {
        Token::SignCent
    } else {
        Token::Ident(word)
    }
}

/// The token that starts at position `i`, and the position after it.
/// Lexing can start again at any such position.
pub fn next_token(chars: &Vec<char>, i: usize) -> (r: (Token, usize))
    requires
        i < chars.len(),
    ensures
        r.0@ == token_at(chars@, i as int).0,
        r.1 == token_at(chars@, i as int).1,
        i < r.1 <= chars.len(),
{
    proof {
        lemma_token_advances(chars@, i as int);
    }
    let c = chars[i];
    if belongs(Class::Digit, c) {
        let e = scan(chars, i, Class::Digit);
        if e < chars.len() && chars.len() - e > 2 && chars[e] == '.' && belongs(
            Class::Digit,
            chars[e + 1],
        ) && belongs(Class::Digit, chars[e + 2]) {
            (Token::Decimal(string_of(chars, i, e + 3)), e + 3)
        } else {
            (Token::Integer(string_of(chars, i, e)), e)
        }
    } else if belongs(Class::Blank, c) {
        (Token::Whitespace, scan(chars, i, Class::Blank))
    } else if c == '\n' {
        (Token::Newline, i + 1)
    } else if c == '\r' {
        if i + 1 < chars.len() && chars[i + 1] == '\n' {
            (Token::Newline, i + 2)
        } else {
            (Token::Error, i + 1)
        }
    } else if c == '.' {
        (Token::Dot, i + 1)
    } else if c == ':' {
        (Token::Colon, i + 1)
    } else if c == ';' {
        (Token::Semicolon, i + 1)
    } else if c == '#' {
        (Token::Comment, scan(chars, i + 1, Class::Line))
    } else if c == '\u{20ac}' {
        (Token::SignEuro, i + 1)
    } else if c == '\u{a2}' {
        (Token::SignCent, i + 1)
    } else if is_id_start(c) {
        let e = scan(chars, i + 1, Class::Word);
        (classify(string_of(chars, i, e)), e)
    } else {
        (Token::Error, i + 1)
    }
}

/// The byte at which position `e` stands, told from the byte at
/// which position `i` stands.
fn advance(chars: &Vec<char>, i: usize, e: usize, offset: usize) -> (r: usize)
    requires
        i <= e <= chars.len(),
        offset == utf8_len(chars@.take(i as int)),
        utf8_len(chars@) <= usize::MAX,
    ensures
        r == utf8_len(chars@.take(e as int)),
{
    let mut k: usize = i;
    let mut at: usize = offset;
    while k < e
        invariant
            i <= k <= e <= chars.len(),
            at == utf8_len(chars@.take(k as int)),
            utf8_len(chars@) <= usize::MAX,
        decreases e - k,
    {
        proof {
            lemma_utf8_len_step(chars@, k as int);
        }
        at = at + char_width(chars[k]);
        k = k + 1;
    }
    at
}

/// What a list of tokens says.
pub open spec fn spanned_view(tokens: Seq<Spanned>) -> Seq<SpannedView> {
    tokens.map_values(|t: Spanned| t@)
}

/// The tokens of a text, in order, each with the bytes at which it
/// stands.
pub fn lex(src: &str) -> (tokens: Vec<Spanned>)
    ensures
        spanned_view(tokens@) == lex_spec(src@),
{
    let chars = chars_of(src);
    let total = src.as_bytes().len();
    assert(utf8_len(chars@) == total);
    let mut tokens: Vec<Spanned> = Vec::new();
    let mut i: usize = 0;
    let mut offset: usize = 0;
    assert(chars@.take(0) == Seq::<char>::empty());
    while i < chars.len()
        invariant
            i <= chars.len(),
            chars@ == src@,
            offset == utf8_len(chars@.take(i as int)),
            utf8_len(chars@) <= usize::MAX,
            lex_spec(src@) == spanned_view(tokens@) + lex_from(src@, i as int),
        decreases chars.len() - i,
    {
        let (token, e) = next_token(&chars, i);
        let end = advance(&chars, i, e, offset);
        let spanned = Spanned { token, span: Span { start: offset, end } };
        proof {
            assert(spanned_view(tokens@.push(spanned)) == spanned_view(tokens@).push(spanned@));
            assert(lex_from(src@, i as int) == seq![spanned@] + lex_from(src@, e as int));
        }
        tokens.push(spanned);
        i = e;
        offset = end;
    }
    tokens
}

} // verus!
