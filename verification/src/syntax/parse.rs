//! From tokens to statements.
//!
//! Parsing stops at the first token that does not fit, and says which
//! one it is and what was expected in its place.

use crate::ext::big::{natural_add, natural_from_u64, natural_mul, natural_value, Natural};
use crate::ext::text::{
    chars_of, decimal_value, digits_only, is_digits, lemma_decimal_fourteen, natural_of_digits,
    parse_u64, text_is,
};
use crate::ext::{Gtin, Money};
use crate::syntax::ast;
use crate::syntax::ast::Ident;
use crate::syntax::grammar;
use crate::syntax::grammar::{
    Expected, Failure, Reached, SyntaxErrorView, after, alone, balance, concept, create,
    decimal_cents, deliver_spec, dir, dir_arg, entity, error_at, gtin, gtin_option, is_barcode,
    is_decimal, is_delimiter, is_space, is_word, lemma_skip_space, money_spec, name, name_arg,
    number, object, option_at, parent_option, parse_spec, pay_spec, price_option, product,
    script_from, script_of, skip_blank, skip_space, space, split, split_option, statement,
    token_kinds,
};
use crate::syntax::lex::{lex, spanned_view, Span, Spanned, Token, TokenView};
use vstd::prelude::*;

verus! {

/// The kinds of a list of tokens, without their places.
pub open spec fn kinds(tokens: Seq<Spanned>) -> Seq<TokenView> {
    tokens.map_values(|t: Spanned| t.token@)
}

/// Where parsing stopped, as the functions below hand it on.
#[derive(Debug, Clone, Copy, PartialEq, Eq, Structural)]
pub struct Stop {
    pub at: usize,
    pub expected: Expected,
}

impl View for Stop {
    type V = Failure;

    open spec fn view(&self) -> Failure {
        Failure { at: self.at as int, expected: self.expected }
    }
}

/// Whether a parser came to what its grammar says.
pub open spec fn parsed<T: View>(r: Result<(T, usize), Stop>, model: Result<(T::V, int), Failure>)
    -> bool {
    match model {
        Ok((value, j)) => r is Ok && r->Ok_0.0@ == value && r->Ok_0.1 == j,
        Err(e) => r is Err && r->Err_0@ == e,
    }
}

/// Whether a parser came to the position that its grammar says.
pub open spec fn reached(r: Result<usize, Stop>, model: Reached) -> bool {
    match model {
        Ok(j) => r is Ok && r->Ok_0 == j,
        Err(e) => r is Err && r->Err_0@ == e,
    }
}

// Each function from here to `parse_statement` reads what the rule of
// the grammar says whose name it bears, from the token at `i` on.

fn at_space(tokens: &Vec<Spanned>, i: usize) -> (r: bool)
    requires
        i <= tokens.len(),
    ensures
        r == is_space(kinds(tokens@), i as int),
{
    i < tokens.len() && matches!(tokens[i].token, Token::Whitespace)
}

fn past_space(tokens: &Vec<Spanned>, i: usize) -> (r: usize)
    requires
        i <= tokens.len(),
    ensures
        r == skip_space(kinds(tokens@), i as int),
        i <= r <= tokens.len(),
{
    let mut k: usize = i;
    while at_space(tokens, k)
        invariant
            i <= k <= tokens.len(),
            skip_space(kinds(tokens@), i as int) == skip_space(kinds(tokens@), k as int),
        decreases tokens.len() - k,
    {
        k = k + 1;
    }
    k
}

fn need_space(tokens: &Vec<Spanned>, i: usize) -> (r: Result<usize, Stop>)
    requires
        i <= tokens.len(),
    ensures
        reached(r, space(kinds(tokens@), i as int)),
        r is Ok ==> i < r->Ok_0 <= tokens.len(),
{
    proof {
        lemma_skip_space(kinds(tokens@), i as int);
    }
    if at_space(tokens, i) {
        Ok(past_space(tokens, i))
    } else {
        Err(Stop { at: i, expected: Expected::Space })
    }
}

fn at_word(tokens: &Vec<Spanned>, i: usize, w: &str) -> (r: bool)
    requires
        i <= tokens.len(),
    ensures
        r == is_word(kinds(tokens@), i as int, w@),
{
    if i < tokens.len() {
        match &tokens[i].token {
            Token::Ident(text) => text_is(text.as_str(), w),
            _ => false,
        }
    } else {
        false
    }
}

fn at_option(tokens: &Vec<Spanned>, i: usize, w: &str) -> (r: Option<usize>)
    requires
        i <= tokens.len(),
    ensures
        match option_at(kinds(tokens@), i as int, w@) {
            Some(j) => r is Some && r->0 == j && i < j < tokens.len(),
            None => r is None,
        },
{
    proof {
        lemma_skip_space(kinds(tokens@), i as int);
    }
    if at_space(tokens, i) {
        let j = past_space(tokens, i);
        if at_word(tokens, j, w) {
            return Some(j);
        }
    }
    None
}

fn parse_name(tokens: &Vec<Spanned>, i: usize) -> (r: Result<(Ident, usize), Stop>)
    requires
        i <= tokens.len(),
    ensures
        parsed(r, name(kinds(tokens@), i as int)),
        r is Ok ==> i < r->Ok_0.1 <= tokens.len(),
{
    if i < tokens.len() {
        match &tokens[i].token {
            Token::Ident(text) => {
                return Ok((Ident::new(text.clone()), i + 1));
            },
            _ => {},
        }
    }
    Err(Stop { at: i, expected: Expected::Name })
}

fn parse_name_arg(tokens: &Vec<Spanned>, i: usize) -> (r: Result<(Ident, usize), Stop>)
    requires
        i <= tokens.len(),
    ensures
        parsed(r, name_arg(kinds(tokens@), i as int)),
        r is Ok ==> i < r->Ok_0.1 <= tokens.len(),
{
    match need_space(tokens, i) {
        Ok(j) => parse_name(tokens, j),
        Err(e) => Err(e),
    }
}

/// The cents that the text of a decimal token writes, where it has
/// the shape of one.
fn cents_of_decimal(text: &str) -> (r: Option<Money>)
    ensures
        match r {
            Some(cents) => is_decimal(text@) && cents@ == decimal_cents(text@),
            None => !is_decimal(text@),
        },
{
    let chars = chars_of(text);
    let n = chars.len();
    if n < 4 {
        return None;
    }
    if chars[n - 3] != '.' || !digits_only(&chars, 0, n - 3) || !digits_only(&chars, n - 2, n) {
        return None;
    }
    let whole = natural_of_digits(&chars, 0, n - 3);
    let fraction = natural_of_digits(&chars, n - 2, n);
    let shifted = natural_mul(&whole, &natural_from_u64(100));
    Some(Money(natural_add(&shifted, &fraction)))
}

/// The number that the text of an integer token writes, where it is
/// made of digits.
fn natural_of_text(text: &str) -> (r: Option<Natural>)
    ensures
        match r {
            Some(n) => is_digits(text@) && natural_value(n) == decimal_value(text@),
            None => !is_digits(text@),
        },
{
    let chars = chars_of(text);
    let n = chars.len();
    assert(chars@.subrange(0, n as int) == chars@);
    if n == 0 || !digits_only(&chars, 0, n) {
        return None;
    }
    Some(natural_of_digits(&chars, 0, n))
}

fn parse_money(tokens: &Vec<Spanned>, i: usize) -> (r: Result<(Money, usize), Stop>)
    requires
        i <= tokens.len(),
    ensures
        parsed(r, grammar::money(kinds(tokens@), i as int)),
        r is Ok ==> i < r->Ok_0.1 <= tokens.len(),
{
    if i >= tokens.len() {
        return Err(Stop { at: i, expected: Expected::Amount });
    }
    let k = past_space(tokens, i + 1);
    match &tokens[i].token {
        Token::Integer(digits) => match natural_of_text(digits.as_str()) {
            None => Err(Stop { at: i, expected: Expected::Amount }),
            Some(value) => {
                if k < tokens.len() && matches!(tokens[k].token, Token::SignEuro) {
                    Ok((Money(natural_mul(&value, &natural_from_u64(100))), k + 1))
                } else if k < tokens.len() && matches!(tokens[k].token, Token::SignCent) {
                    Ok((Money(value), k + 1))
                } else {
                    Ok((Money(value), i + 1))
                }
            },
        },
        Token::Decimal(text) => match cents_of_decimal(text.as_str()) {
            None => Err(Stop { at: i, expected: Expected::Amount }),
            Some(cents) => {
                if k < tokens.len() && matches!(tokens[k].token, Token::SignEuro) {
                    Ok((cents, k + 1))
                } else {
                    Err(Stop { at: k, expected: Expected::Euro })
                }
            },
        },
        _ => Err(Stop { at: i, expected: Expected::Amount }),
    }
}

/// The barcode that the text of an integer token writes, where it
/// has the length of one.
fn gtin_of_text(text: &str) -> (r: Option<Gtin>)
    ensures
        match r {
            Some(gtin) => is_barcode(text@) && gtin@ == decimal_value(text@),
            None => !is_barcode(text@),
        },
{
    let chars = chars_of(text);
    let n = chars.len();
    assert(chars@.subrange(0, n as int) == chars@);
    if n < 8 || n > 14 || !digits_only(&chars, 0, n) {
        return None;
    }
    proof {
        lemma_decimal_fourteen(chars@);
    }
    match parse_u64(&chars) {
        Ok(value) => match Gtin::new(value) {
            Ok(gtin) => Some(gtin),
            Err(_) => None,
        },
        Err(_) => None,
    }
}

fn parse_gtin(tokens: &Vec<Spanned>, i: usize) -> (r: Result<(Gtin, usize), Stop>)
    requires
        i <= tokens.len(),
    ensures
        parsed(r, gtin(kinds(tokens@), i as int)),
        r is Ok ==> i < r->Ok_0.1 <= tokens.len(),
{
    if i < tokens.len() {
        match &tokens[i].token {
            Token::Integer(digits) => match gtin_of_text(digits.as_str()) {
                Some(gtin) => {
                    return Ok((gtin, i + 1));
                },
                None => {},
            },
            _ => {},
        }
    }
    Err(Stop { at: i, expected: Expected::Barcode })
}

fn parse_number(tokens: &Vec<Spanned>, i: usize) -> (r: Result<(Natural, usize), Stop>)
    requires
        i <= tokens.len(),
    ensures
        match number(kinds(tokens@), i as int) {
            Ok((value, j)) => r is Ok && natural_value(r->Ok_0.0) == value && r->Ok_0.1 == j,
            Err(e) => r is Err && r->Err_0@ == e,
        },
        r is Ok ==> i < r->Ok_0.1 <= tokens.len(),
{
    if i < tokens.len() {
        match &tokens[i].token {
            Token::Integer(digits) => match natural_of_text(digits.as_str()) {
                Some(value) => {
                    return Ok((value, i + 1));
                },
                None => {},
            },
            _ => {},
        }
    }
    Err(Stop { at: i, expected: Expected::Number })
}

fn parse_dir(tokens: &Vec<Spanned>, i: usize) -> (r: Result<(ast::Dir, usize), Stop>)
    requires
        i <= tokens.len(),
    ensures
        parsed(r, dir(kinds(tokens@), i as int)),
        r is Ok ==> i < r->Ok_0.1 <= tokens.len(),
{
    if !at_word(tokens, i, "from") {
        return Err(Stop { at: i, expected: Expected::From });
    }
    let (from, j) = match parse_name_arg(tokens, i + 1) {
        Ok(found) => found,
        Err(e) => {
            return Err(e);
        },
    };
    let k = match need_space(tokens, j) {
        Ok(k) => k,
        Err(e) => {
            return Err(e);
        },
    };
    if !at_word(tokens, k, "to") {
        return Err(Stop { at: k, expected: Expected::To });
    }
    match parse_name_arg(tokens, k + 1) {
        Ok((to, m)) => Ok((ast::Dir { from, to }, m)),
        Err(e) => Err(e),
    }
}

fn parse_dir_arg(tokens: &Vec<Spanned>, i: usize) -> (r: Result<(ast::Dir, usize), Stop>)
    requires
        i <= tokens.len(),
    ensures
        parsed(r, dir_arg(kinds(tokens@), i as int)),
        r is Ok ==> i < r->Ok_0.1 <= tokens.len(),
{
    match need_space(tokens, i) {
        Ok(j) => parse_dir(tokens, j),
        Err(e) => Err(e),
    }
}

fn parse_product(tokens: &Vec<Spanned>, i: usize) -> (r: Result<(ast::Product, usize), Stop>)
    requires
        i <= tokens.len(),
    ensures
        parsed(r, product(kinds(tokens@), i as int)),
        r is Ok ==> i < r->Ok_0.1 <= tokens.len(),
{
    if i < tokens.len() {
        match &tokens[i].token {
            Token::Ident(text) => {
                return Ok((ast::Product::Name(Ident::new(text.clone())), i + 1));
            },
            Token::Integer(_) => {
                return match parse_gtin(tokens, i) {
                    Ok((gtin, j)) => Ok((ast::Product::Id(gtin), j)),
                    Err(e) => Err(e),
                };
            },
            _ => {},
        }
    }
    Err(Stop { at: i, expected: Expected::Product })
}

fn parse_split(tokens: &Vec<Spanned>, i: usize) -> (r: Result<(ast::Ratio, usize), Stop>)
    requires
        i <= tokens.len(),
    ensures
        parsed(r, split(kinds(tokens@), i as int)),
        r is Ok ==> i < r->Ok_0.1 <= tokens.len(),
{
    let (left, j) = match parse_number(tokens, i) {
        Ok(found) => found,
        Err(e) => {
            return Err(e);
        },
    };
    let k = past_space(tokens, j);
    if !(k < tokens.len() && matches!(tokens[k].token, Token::Colon)) {
        return Err(Stop { at: k, expected: Expected::Colon });
    }
    let m = past_space(tokens, k + 1);
    match parse_number(tokens, m) {
        Ok((right, n)) => Ok((ast::Ratio { left, right }, n)),
        Err(e) => Err(e),
    }
}

fn parse_price_option(tokens: &Vec<Spanned>, i: usize) -> (r: Result<(Option<Money>, usize), Stop>)
    requires
        i <= tokens.len(),
    ensures
        match price_option(kinds(tokens@), i as int) {
            Ok((price, j)) => r is Ok && ast::money_view(r->Ok_0.0) == price && r->Ok_0.1 == j,
            Err(e) => r is Err && r->Err_0@ == e,
        },
        r is Ok ==> i <= r->Ok_0.1 <= tokens.len(),
{
    match at_option(tokens, i, "price") {
        None => Ok((None, i)),
        Some(j) => match need_space(tokens, j + 1) {
            Err(e) => Err(e),
            Ok(k) => match parse_money(tokens, k) {
                Err(e) => Err(e),
                Ok((amount, m)) => Ok((Some(amount), m)),
            },
        },
    }
}

fn parse_gtin_option(tokens: &Vec<Spanned>, i: usize) -> (r: Result<(Option<Gtin>, usize), Stop>)
    requires
        i <= tokens.len(),
    ensures
        match gtin_option(kinds(tokens@), i as int) {
            Ok((gtin, j)) => r is Ok && ast::gtin_view(r->Ok_0.0) == gtin && r->Ok_0.1 == j,
            Err(e) => r is Err && r->Err_0@ == e,
        },
        r is Ok ==> i <= r->Ok_0.1 <= tokens.len(),
{
    match at_option(tokens, i, "gtin") {
        None => Ok((None, i)),
        Some(j) => match need_space(tokens, j + 1) {
            Err(e) => Err(e),
            Ok(k) => match parse_gtin(tokens, k) {
                Err(e) => Err(e),
                Ok((gtin, m)) => Ok((Some(gtin), m)),
            },
        },
    }
}

fn parse_parent_option(tokens: &Vec<Spanned>, i: usize) -> (r: Result<
    (Option<Ident>, usize),
    Stop,
>)
    requires
        i <= tokens.len(),
    ensures
        match parent_option(kinds(tokens@), i as int) {
            Ok((parent, j)) => r is Ok && ast::ident_view(r->Ok_0.0) == parent && r->Ok_0.1 == j,
            Err(e) => r is Err && r->Err_0@ == e,
        },
        r is Ok ==> i <= r->Ok_0.1 <= tokens.len(),
{
    match at_option(tokens, i, "parent") {
        None => Ok((None, i)),
        Some(j) => match parse_name_arg(tokens, j + 1) {
            Err(e) => Err(e),
            Ok((parent, m)) => Ok((Some(parent), m)),
        },
    }
}

fn parse_split_option(tokens: &Vec<Spanned>, i: usize) -> (r: Result<
    (Option<ast::Ratio>, usize),
    Stop,
>)
    requires
        i <= tokens.len(),
    ensures
        match split_option(kinds(tokens@), i as int) {
            Ok((split, j)) => r is Ok && r->Ok_0.1 == j && split == match r->Ok_0.0 {
                Some(shares) => Some(shares@),
                None => None,
            },
            Err(e) => r is Err && r->Err_0@ == e,
        },
        r is Ok ==> i <= r->Ok_0.1 <= tokens.len(),
{
    match at_option(tokens, i, "split") {
        None => Ok((None, i)),
        Some(j) => match need_space(tokens, j + 1) {
            Err(e) => Err(e),
            Ok(k) => match parse_split(tokens, k) {
                Err(e) => Err(e),
                Ok((shares, m)) => Ok((Some(shares), m)),
            },
        },
    }
}

fn parse_entity(tokens: &Vec<Spanned>, i: usize) -> (r: Result<(ast::Stmt, usize), Stop>)
    requires
        i <= tokens.len(),
    ensures
        parsed(r, entity(kinds(tokens@), i as int)),
        r is Ok ==> i < r->Ok_0.1 <= tokens.len(),
{
    match parse_name_arg(tokens, i) {
        Err(e) => Err(e),
        Ok((name, j)) => Ok(
            (ast::Stmt::Create(ast::Create { who: ast::Actor::Entity(ast::Entity { name }) }), j),
        ),
    }
}

fn parse_object(tokens: &Vec<Spanned>, i: usize) -> (r: Result<(ast::Stmt, usize), Stop>)
    requires
        i <= tokens.len(),
    ensures
        parsed(r, object(kinds(tokens@), i as int)),
        r is Ok ==> i < r->Ok_0.1 <= tokens.len(),
{
    let (name, j) = match parse_name_arg(tokens, i) {
        Ok(found) => found,
        Err(e) => {
            return Err(e);
        },
    };
    match parse_parent_option(tokens, j) {
        Err(e) => Err(e),
        Ok((parent, k)) => Ok(
            (
                ast::Stmt::Create(
                    ast::Create { who: ast::Actor::Object(ast::Object { name, parent }) },
                ),
                k,
            ),
        ),
    }
}

fn parse_concept(tokens: &Vec<Spanned>, i: usize) -> (r: Result<(ast::Stmt, usize), Stop>)
    requires
        i <= tokens.len(),
    ensures
        parsed(r, concept(kinds(tokens@), i as int)),
        r is Ok ==> i < r->Ok_0.1 <= tokens.len(),
{
    let (name, j) = match parse_name_arg(tokens, i) {
        Ok(found) => found,
        Err(e) => {
            return Err(e);
        },
    };
    let (default_price, k) = match parse_price_option(tokens, j) {
        Ok(found) => found,
        Err(e) => {
            return Err(e);
        },
    };
    match parse_gtin_option(tokens, k) {
        Err(e) => Err(e),
        Ok((gtin, m)) => Ok(
            (
                ast::Stmt::Create(
                    ast::Create {
                        who: ast::Actor::Concept(ast::Concept { name, default_price, gtin }),
                    },
                ),
                m,
            ),
        ),
    }
}

fn parse_create(tokens: &Vec<Spanned>, i: usize) -> (r: Result<(ast::Stmt, usize), Stop>)
    requires
        i <= tokens.len(),
    ensures
        parsed(r, create(kinds(tokens@), i as int)),
        r is Ok ==> i < r->Ok_0.1 <= tokens.len(),
{
    if !(i < tokens.len() && matches!(tokens[i].token, Token::Create)) {
        return Err(Stop { at: i, expected: Expected::Command });
    }
    let j = match need_space(tokens, i + 1) {
        Ok(j) => j,
        Err(e) => {
            return Err(e);
        },
    };
    if at_word(tokens, j, "entity") {
        parse_entity(tokens, j + 1)
    } else if at_word(tokens, j, "object") {
        parse_object(tokens, j + 1)
    } else if at_word(tokens, j, "concept") {
        parse_concept(tokens, j + 1)
    } else {
        Err(Stop { at: j, expected: Expected::Actor })
    }
}

fn parse_pay(tokens: &Vec<Spanned>, i: usize) -> (r: Result<(ast::Pay, usize), Stop>)
    requires
        i <= tokens.len(),
    ensures
        parsed(r, grammar::pay(kinds(tokens@), i as int)),
        r is Ok ==> i < r->Ok_0.1 <= tokens.len(),
{
    if !(i < tokens.len() && matches!(tokens[i].token, Token::Pay)) {
        return Err(Stop { at: i, expected: Expected::Command });
    }
    let j = match need_space(tokens, i + 1) {
        Ok(j) => j,
        Err(e) => {
            return Err(e);
        },
    };
    let (amount, k) = match parse_money(tokens, j) {
        Ok(found) => found,
        Err(e) => {
            return Err(e);
        },
    };
    match parse_dir_arg(tokens, k) {
        Err(e) => Err(e),
        Ok((who, m)) => Ok((ast::Pay { amount, who }, m)),
    }
}

fn parse_deliver(tokens: &Vec<Spanned>, i: usize) -> (r: Result<(ast::Deliver, usize), Stop>)
    requires
        i <= tokens.len(),
    ensures
        parsed(r, grammar::deliver(kinds(tokens@), i as int)),
        r is Ok ==> i < r->Ok_0.1 <= tokens.len(),
{
    if !(i < tokens.len() && matches!(tokens[i].token, Token::Deliver)) {
        return Err(Stop { at: i, expected: Expected::Command });
    }
    let j = match need_space(tokens, i + 1) {
        Ok(j) => j,
        Err(e) => {
            return Err(e);
        },
    };
    let (what, k) = match parse_product(tokens, j) {
        Ok(found) => found,
        Err(e) => {
            return Err(e);
        },
    };
    let (price, m) = match parse_price_option(tokens, k) {
        Ok(found) => found,
        Err(e) => {
            return Err(e);
        },
    };
    let (who, n) = match parse_dir_arg(tokens, m) {
        Ok(found) => found,
        Err(e) => {
            return Err(e);
        },
    };
    match parse_split_option(tokens, n) {
        Err(e) => Err(e),
        Ok((split, o)) => Ok((ast::Deliver { what, who, price, split }, o)),
    }
}

fn parse_balance(tokens: &Vec<Spanned>, i: usize) -> (r: Result<(ast::Dir, usize), Stop>)
    requires
        i <= tokens.len(),
    ensures
        parsed(r, balance(kinds(tokens@), i as int)),
        r is Ok ==> i < r->Ok_0.1 <= tokens.len(),
{
    if !(i < tokens.len() && matches!(tokens[i].token, Token::Balance)) {
        return Err(Stop { at: i, expected: Expected::Command });
    }
    parse_dir_arg(tokens, i + 1)
}

fn parse_statement(tokens: &Vec<Spanned>, i: usize) -> (r: Result<(ast::Stmt, usize), Stop>)
    requires
        i <= tokens.len(),
    ensures
        parsed(r, statement(kinds(tokens@), i as int)),
        r is Ok ==> i < r->Ok_0.1 <= tokens.len(),
{
    if i >= tokens.len() {
        return Err(Stop { at: i, expected: Expected::Command });
    }
    match &tokens[i].token {
        Token::Create => parse_create(tokens, i),
        Token::Pay => match parse_pay(tokens, i) {
            Ok((pay, j)) => Ok((ast::Stmt::Transfer(ast::Transfer::Pay(pay)), j)),
            Err(e) => Err(e),
        },
        Token::Deliver => match parse_deliver(tokens, i) {
            Ok((deliver, j)) => Ok((ast::Stmt::Transfer(ast::Transfer::Deliver(deliver)), j)),
            Err(e) => Err(e),
        },
        Token::Balance => match parse_balance(tokens, i) {
            Ok((between, j)) => Ok(
                (ast::Stmt::Analyze(ast::Analyze::Balance(ast::Balance { between })), j),
            ),
            Err(e) => Err(e),
        },
        _ => Err(Stop { at: i, expected: Expected::Command }),
    }
}

/// A syntax error: where the script stops making sense, what would
/// have fitted there, and what stands there instead.
#[derive(Debug, PartialEq, Eq)]
pub struct SyntaxError {
    /// The bytes of the token that does not fit. Where the script
    /// ends too early, the empty span at its end.
    pub span: Span,
    pub expected: Expected,
    /// The token that does not fit; none where the script ends too early.
    pub found: Option<Token>,
}

impl View for SyntaxError {
    type V = SyntaxErrorView;

    open spec fn view(&self) -> SyntaxErrorView {
        SyntaxErrorView {
            start: self.span.start as nat,
            end: self.span.end as nat,
            expected: self.expected,
            found: match self.found {
                Some(token) => Some(token@),
                None => None,
            },
        }
    }
}

/// Whether an outcome is the one that the grammar gives.
pub open spec fn outcome<T: View>(r: Result<T, SyntaxError>, model: Result<T::V, SyntaxErrorView>)
    -> bool {
    match model {
        Ok(value) => r is Ok && r->Ok_0@ == value,
        Err(e) => r is Err && r->Err_0@ == e,
    }
}

proof fn lemma_kinds(tokens: Seq<Spanned>)
    ensures
        kinds(tokens) == token_kinds(spanned_view(tokens)),
{
    assert(kinds(tokens) =~= token_kinds(spanned_view(tokens)));
}

fn at_delimiter(tokens: &Vec<Spanned>, i: usize) -> (r: bool)
    requires
        i <= tokens.len(),
    ensures
        r == is_delimiter(kinds(tokens@), i as int),
{
    i < tokens.len() && matches!(
        tokens[i].token,
        Token::Newline | Token::Semicolon | Token::Comment
    )
}

fn past_blank(tokens: &Vec<Spanned>, i: usize) -> (r: usize)
    requires
        i <= tokens.len(),
    ensures
        r == skip_blank(kinds(tokens@), i as int),
        i <= r <= tokens.len(),
{
    let mut k: usize = i;
    while at_space(tokens, k) || at_delimiter(tokens, k)
        invariant
            i <= k <= tokens.len(),
            skip_blank(kinds(tokens@), i as int) == skip_blank(kinds(tokens@), k as int),
        decreases tokens.len() - k,
    {
        k = k + 1;
    }
    k
}

/// The error that says where parsing stopped.
fn report(tokens: &Vec<Spanned>, stop: Stop) -> (r: SyntaxError)
    ensures
        r@ == error_at(spanned_view(tokens@), stop@),
{
    if stop.at < tokens.len() {
        SyntaxError {
            span: tokens[stop.at].span,
            expected: stop.expected,
            found: Some(tokens[stop.at].token.clone()),
        }
    } else {
        let end = if tokens.len() == 0 {
            0
        } else {
            tokens[tokens.len() - 1].span.end
        };
        SyntaxError { span: Span { start: end, end }, expected: stop.expected, found: None }
    }
}

/// What a parser came to where nothing may follow.
fn finish<T: View>(tokens: &Vec<Spanned>, r: Result<(T, usize), Stop>, Ghost(model): Ghost<
    Result<(T::V, int), Failure>,
>) -> (out: Result<T, SyntaxError>)
    requires
        parsed(r, model),
    ensures
        outcome(out, alone(spanned_view(tokens@), model)),
{
    proof {
        lemma_kinds(tokens@);
    }
    match r {
        Ok((value, j)) => if j == tokens.len() {
            Ok(value)
        } else {
            Err(report(tokens, Stop { at: j, expected: Expected::End }))
        },
        Err(stop) => Err(report(tokens, stop)),
    }
}

/// The script that the tokens are.
///
/// # Errors
///
/// The first token that does not fit, with what was expected there.
pub fn parse_tokens(tokens: &Vec<Spanned>) -> (r: Result<ast::Script, SyntaxError>)
    ensures
        outcome(r, script_of(spanned_view(tokens@))),
{
    let ghost t = kinds(tokens@);
    proof {
        lemma_kinds(tokens@);
    }
    let mut stmts: Vec<ast::Stmt> = Vec::new();
    let mut i: usize = 0;
    assert(stmts@.map_values(|stmt: ast::Stmt| stmt@) + seq![] =~= seq![]);
    loop
        invariant
            i <= tokens.len(),
            t == kinds(tokens@),
            t == token_kinds(spanned_view(tokens@)),
            script_from(t, 0) == after(
                stmts@.map_values(|stmt: ast::Stmt| stmt@),
                script_from(t, i as int),
            ),
        decreases tokens.len() - i,
    {
        let ghost done = stmts@.map_values(|stmt: ast::Stmt| stmt@);
        let j = past_blank(tokens, i);
        if j >= tokens.len() {
            assert(done + seq![] =~= done);
            return Ok(ast::Script(stmts));
        }
        let (stmt, k) = match parse_statement(tokens, j) {
            Ok(found) => found,
            Err(stop) => {
                return Err(report(tokens, stop));
            },
        };
        let m = past_space(tokens, k);
        if m < tokens.len() && !at_delimiter(tokens, m) {
            return Err(report(tokens, Stop { at: m, expected: Expected::Delimiter }));
        }
        proof {
            let rest = script_from(t, m as int);
            assert(stmts@.push(stmt).map_values(|stmt: ast::Stmt| stmt@) =~= done.push(stmt@));
            if rest is Ok {
                assert(done + (seq![stmt@] + rest->Ok_0) =~= done.push(stmt@) + rest->Ok_0);
            }
        }
        stmts.push(stmt);
        i = m;
    }
}

/// The script that the text is.
///
/// # Errors
///
/// The first token that does not fit, with what was expected there.
pub fn parse(src: &str) -> (r: Result<ast::Script, SyntaxError>)
    ensures
        outcome(r, parse_spec(src@)),
{
    let tokens = lex(src);
    parse_tokens(&tokens)
}

impl ast::Script {
    /// The script that the text is.
    pub fn parse(src: &str) -> (r: Result<ast::Script, SyntaxError>)
        ensures
            outcome(r, parse_spec(src@)),
    {
        parse(src)
    }
}

/// The amount of money that the text is, and nothing else.
pub fn money(src: &str) -> (r: Result<Money, SyntaxError>)
    ensures
        outcome(r, money_spec(src@)),
{
    let tokens = lex(src);
    proof {
        lemma_kinds(tokens@);
    }
    let found = parse_money(&tokens, 0);
    finish(&tokens, found, Ghost(grammar::money(kinds(tokens@), 0)))
}

/// The payment that the text is, and nothing else.
pub fn pay(src: &str) -> (r: Result<ast::Pay, SyntaxError>)
    ensures
        outcome(r, pay_spec(src@)),
{
    let tokens = lex(src);
    proof {
        lemma_kinds(tokens@);
    }
    let found = parse_pay(&tokens, 0);
    finish(&tokens, found, Ghost(grammar::pay(kinds(tokens@), 0)))
}

/// The delivery that the text is, and nothing else.
pub fn deliver(src: &str) -> (r: Result<ast::Deliver, SyntaxError>)
    ensures
        outcome(r, deliver_spec(src@)),
{
    let tokens = lex(src);
    proof {
        lemma_kinds(tokens@);
    }
    let found = parse_deliver(&tokens, 0);
    finish(&tokens, found, Ghost(grammar::deliver(kinds(tokens@), 0)))
}

} // verus!
