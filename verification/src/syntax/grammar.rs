//! The grammar of a script, over its tokens.
//!
//! Every command is a keyword followed by its arguments, each with
//! whitespace in front of it. An argument may itself be a keyword with
//! an argument of its own (`price 3.50€`, `parent Widgets`). Where an
//! argument may be left out, the whitespace in front of it belongs to
//! it: without the argument no whitespace is asked for.
//!
//! Each rule takes the tokens and a position among them. It gives what
//! stands there and the position behind it, or the first token that
//! does not fit and what was expected in its place.

use crate::ext::text::{all_digits, decimal_value, digit_value, is_digits};
use crate::syntax::ast;
use crate::syntax::lex::{lex_spec, SpannedView, TokenView};
use vstd::prelude::*;

verus! {

/// What would have fitted where parsing stopped.
#[derive(Debug, Clone, Copy, PartialEq, Eq, Structural)]
pub enum Expected {
    /// One of `create`, `pay`, `deliver`, `balance`.
    Command,
    /// Whitespace in front of an argument.
    Space,
    /// One of `entity`, `concept`, `object`.
    Actor,
    /// A name.
    Name,
    /// An amount of money.
    Amount,
    /// The euro sign that a decimal amount needs.
    Euro,
    /// A barcode: 8 to 14 digits.
    Barcode,
    /// A name or a barcode.
    Product,
    /// The word `from`.
    From,
    /// The word `to`.
    To,
    /// A whole number.
    Number,
    /// The colon between the two shares of a split.
    Colon,
    /// A newline, a semicolon, a comment or the end of the script.
    Delimiter,
    /// The end of the text.
    End,
}

/// Where parsing stopped, and what would have fitted there.
pub ghost struct Failure {
    /// The index of the token that did not fit; the number of tokens
    /// where the script ended too early.
    pub at: int,
    pub expected: Expected,
}

/// A position among the tokens, or why none was reached.
pub type Reached = Result<int, Failure>;

/// Whether whitespace stands at position `i`.
pub open spec fn is_space(t: Seq<TokenView>, i: int) -> bool {
    0 <= i < t.len() && t[i] == TokenView::Whitespace
}

/// The first position from `i` on at which no whitespace stands.
pub open spec fn skip_space(t: Seq<TokenView>, i: int) -> int
    decreases t.len() - i,
{
    if is_space(t, i) {
        skip_space(t, i + 1)
    } else {
        i
    }
}

/// Whitespace that has to be there: at least one token of it.
pub open spec fn space(t: Seq<TokenView>, i: int) -> Reached {
    if is_space(t, i) {
        Ok(skip_space(t, i))
    } else {
        Err(Failure { at: i, expected: Expected::Space })
    }
}

/// Whether the word `w` stands at position `i`, as a whole.
pub open spec fn is_word(t: Seq<TokenView>, i: int, w: Seq<char>) -> bool {
    0 <= i < t.len() && t[i] == TokenView::Ident(w)
}

/// Where the word `w` stands behind whitespace from `i` on: the
/// start of an argument that may be left out.
pub open spec fn option_at(t: Seq<TokenView>, i: int, w: Seq<char>) -> Option<int> {
    if is_space(t, i) && is_word(t, skip_space(t, i), w) {
        Some(skip_space(t, i))
    } else {
        None
    }
}

/// A name.
pub open spec fn name(t: Seq<TokenView>, i: int) -> Result<(Seq<char>, int), Failure> {
    if 0 <= i < t.len() && t[i] is Ident {
        Ok((t[i]->Ident_0, i + 1))
    } else {
        Err(Failure { at: i, expected: Expected::Name })
    }
}

/// A name as an argument: whitespace, then the name.
pub open spec fn name_arg(t: Seq<TokenView>, i: int) -> Result<(Seq<char>, int), Failure> {
    match space(t, i) {
        Ok(j) => name(t, j),
        Err(e) => Err(e),
    }
}

/// Digits, a dot, and two digits.
pub open spec fn is_decimal(text: Seq<char>) -> bool {
    &&& text.len() >= 4
    &&& is_digits(text.subrange(0, text.len() - 3))
    &&& text[text.len() - 3] == '.'
    &&& is_digits(text.subrange(text.len() - 2, text.len() as int))
}

/// The cents that a decimal amount of euros is: a hundred for each
/// euro, and the two digits behind the dot as they stand.
pub open spec fn decimal_cents(text: Seq<char>) -> nat {
    decimal_value(text.subrange(0, text.len() - 3)) * 100 + decimal_value(
        text.subrange(text.len() - 2, text.len() as int),
    )
}

/// An amount of money, in cents.
///
/// - A whole number with a cent sign, or with no sign at all, is that
///   many cents.
/// - A whole number with a euro sign is a hundred times as many.
/// - A decimal has to have a euro sign.
///
/// Whitespace may stand in front of the sign. Where no sign follows,
/// the whitespace behind the number is left alone.
pub open spec fn money(t: Seq<TokenView>, i: int) -> Result<(nat, int), Failure> {
    let k = skip_space(t, i + 1);
    if !(0 <= i < t.len()) {
        Err(Failure { at: i, expected: Expected::Amount })
    } else {
        match t[i] {
            TokenView::Integer(digits) => if !is_digits(digits) {
                Err(Failure { at: i, expected: Expected::Amount })
            } else if k < t.len() && t[k] == TokenView::SignEuro {
                Ok((decimal_value(digits) * 100, k + 1))
            } else if k < t.len() && t[k] == TokenView::SignCent {
                Ok((decimal_value(digits), k + 1))
            } else {
                Ok((decimal_value(digits), i + 1))
            },
            TokenView::Decimal(text) => if !is_decimal(text) {
                Err(Failure { at: i, expected: Expected::Amount })
            } else if k < t.len() && t[k] == TokenView::SignEuro {
                Ok((decimal_cents(text), k + 1))
            } else {
                Err(Failure { at: k, expected: Expected::Euro })
            },
            _ => Err(Failure { at: i, expected: Expected::Amount }),
        }
    }
}

/// Two digits behind a run of digits count as they stand, and the
/// run in front of them counts a hundredfold.
pub proof fn lemma_two_more_digits(whole: Seq<char>, cents: Seq<char>)
    requires
        cents.len() == 2,
    ensures
        decimal_value(whole + cents) == decimal_value(whole) * 100 + decimal_value(cents),
{
    let all = whole + cents;
    assert(all.drop_last() == whole.push(cents[0]));
    assert(all.drop_last().drop_last() == whole);
    assert(cents.drop_last().drop_last().len() == 0);
    assert(decimal_value(cents.drop_last()) == decimal_value(cents.drop_last().drop_last()) * 10
        + digit_value(cents[0]));
    assert(decimal_value(all.drop_last()) == decimal_value(whole) * 10 + digit_value(cents[0]));
}

/// The ways to write an amount. A whole number is that many cents,
/// with a cent sign or without a sign, and a hundred times as many
/// with a euro sign; whitespace may stand in front of the sign. A
/// decimal with a euro sign is as many cents as its digits write
/// without the dot. So `1337`, `1337¢`, `1337 ct` and `13.37€` are
/// one amount, and `1 EUR` is 100 cents.
pub proof fn lemma_money_forms(whole: Seq<char>, cents: Seq<char>)
    requires
        is_digits(whole),
        is_digits(cents),
        cents.len() == 2,
    ensures
        money(seq![TokenView::Integer(whole)], 0) == Ok::<(nat, int), Failure>(
            (decimal_value(whole), 1),
        ),
        money(seq![TokenView::Integer(whole), TokenView::SignCent], 0) == Ok::<
            (nat, int),
            Failure,
        >((decimal_value(whole), 2)),
        money(seq![TokenView::Integer(whole), TokenView::Whitespace, TokenView::SignCent], 0)
            == Ok::<(nat, int), Failure>((decimal_value(whole), 3)),
        money(seq![TokenView::Integer(whole), TokenView::SignEuro], 0) == Ok::<
            (nat, int),
            Failure,
        >((decimal_value(whole) * 100, 2)),
        money(seq![TokenView::Integer(whole), TokenView::Whitespace, TokenView::SignEuro], 0)
            == Ok::<(nat, int), Failure>((decimal_value(whole) * 100, 3)),
        money(seq![TokenView::Decimal(whole + seq!['.'] + cents), TokenView::SignEuro], 0) == Ok::<
            (nat, int),
            Failure,
        >((decimal_value(whole + cents), 2)),
{
    reveal_with_fuel(skip_space, 3);
    let text = whole + seq!['.'] + cents;
    assert(text.subrange(0, text.len() - 3) == whole);
    assert(text.subrange(text.len() - 2, text.len() as int) == cents);
    lemma_two_more_digits(whole, cents);
}

/// Eight to fourteen digits.
pub open spec fn is_barcode(digits: Seq<char>) -> bool {
    all_digits(digits) && 8 <= digits.len() <= 14
}

/// A barcode. Its length is not held to one of the standard ones:
/// a short one stands for the same digits with zeroes in front.
pub open spec fn gtin(t: Seq<TokenView>, i: int) -> Result<(u64, int), Failure> {
    if 0 <= i < t.len() && t[i] is Integer && is_barcode(t[i]->Integer_0) {
        Ok((decimal_value(t[i]->Integer_0) as u64, i + 1))
    } else {
        Err(Failure { at: i, expected: Expected::Barcode })
    }
}

/// A whole number of any size.
pub open spec fn number(t: Seq<TokenView>, i: int) -> Result<(nat, int), Failure> {
    if 0 <= i < t.len() && t[i] is Integer && is_digits(t[i]->Integer_0) {
        Ok((decimal_value(t[i]->Integer_0), i + 1))
    } else {
        Err(Failure { at: i, expected: Expected::Number })
    }
}

/// Positions only move forward, and stay among the tokens.
pub proof fn lemma_skip_space(t: Seq<TokenView>, i: int)
    requires
        0 <= i <= t.len(),
    ensures
        i <= skip_space(t, i) <= t.len(),
        is_space(t, i) ==> i < skip_space(t, i),
        !is_space(t, skip_space(t, i)),
    decreases t.len() - i,
{
    if is_space(t, i) {
        lemma_skip_space(t, i + 1);
    }
}

/// A direction: `from`, a name, `to`, a name.
pub open spec fn dir(t: Seq<TokenView>, i: int) -> Result<(ast::DirView, int), Failure> {
    if !is_word(t, i, "from"@) {
        Err(Failure { at: i, expected: Expected::From })
    } else {
        match name_arg(t, i + 1) {
            Err(e) => Err(e),
            Ok((from, j)) => match space(t, j) {
                Err(e) => Err(e),
                Ok(k) => if !is_word(t, k, "to"@) {
                    Err(Failure { at: k, expected: Expected::To })
                } else {
                    match name_arg(t, k + 1) {
                        Err(e) => Err(e),
                        Ok((to, m)) => Ok((ast::DirView { from, to }, m)),
                    }
                },
            },
        }
    }
}

/// A direction as an argument: whitespace, then the direction.
pub open spec fn dir_arg(t: Seq<TokenView>, i: int) -> Result<(ast::DirView, int), Failure> {
    match space(t, i) {
        Ok(j) => dir(t, j),
        Err(e) => Err(e),
    }
}

/// A product: a name, or a barcode.
pub open spec fn product(t: Seq<TokenView>, i: int) -> Result<(ast::ProductView, int), Failure> {
    if 0 <= i < t.len() && t[i] is Ident {
        Ok((ast::ProductView::Name(t[i]->Ident_0), i + 1))
    } else if 0 <= i < t.len() && t[i] is Integer {
        match gtin(t, i) {
            Ok((gtin, j)) => Ok((ast::ProductView::Id(gtin), j)),
            Err(e) => Err(e),
        }
    } else {
        Err(Failure { at: i, expected: Expected::Product })
    }
}

/// The two shares of a split: a number, a colon, a number.
/// Whitespace may stand on either side of the colon.
pub open spec fn split(t: Seq<TokenView>, i: int) -> Result<(ast::RatioView, int), Failure> {
    match number(t, i) {
        Err(e) => Err(e),
        Ok((left, j)) => {
            let k = skip_space(t, j);
            if !(0 <= k < t.len() && t[k] == TokenView::Colon) {
                Err(Failure { at: k, expected: Expected::Colon })
            } else {
                match number(t, skip_space(t, k + 1)) {
                    Err(e) => Err(e),
                    Ok((right, m)) => Ok((ast::RatioView { left, right }, m)),
                }
            }
        },
    }
}

/// `price` and an amount, where they are there.
pub open spec fn price_option(t: Seq<TokenView>, i: int) -> Result<(Option<nat>, int), Failure> {
    match option_at(t, i, "price"@) {
        None => Ok((None, i)),
        Some(j) => match space(t, j + 1) {
            Err(e) => Err(e),
            Ok(k) => match money(t, k) {
                Err(e) => Err(e),
                Ok((amount, m)) => Ok((Some(amount), m)),
            },
        },
    }
}

/// `gtin` and a barcode, where they are there.
pub open spec fn gtin_option(t: Seq<TokenView>, i: int) -> Result<(Option<u64>, int), Failure> {
    match option_at(t, i, "gtin"@) {
        None => Ok((None, i)),
        Some(j) => match space(t, j + 1) {
            Err(e) => Err(e),
            Ok(k) => match gtin(t, k) {
                Err(e) => Err(e),
                Ok((gtin, m)) => Ok((Some(gtin), m)),
            },
        },
    }
}

/// `parent` and a name, where they are there.
pub open spec fn parent_option(t: Seq<TokenView>, i: int) -> Result<
    (Option<Seq<char>>, int),
    Failure,
> {
    match option_at(t, i, "parent"@) {
        None => Ok((None, i)),
        Some(j) => match name_arg(t, j + 1) {
            Err(e) => Err(e),
            Ok((parent, m)) => Ok((Some(parent), m)),
        },
    }
}

/// `split` and two shares, where they are there.
pub open spec fn split_option(t: Seq<TokenView>, i: int) -> Result<
    (Option<ast::RatioView>, int),
    Failure,
> {
    match option_at(t, i, "split"@) {
        None => Ok((None, i)),
        Some(j) => match space(t, j + 1) {
            Err(e) => Err(e),
            Ok(k) => match split(t, k) {
                Err(e) => Err(e),
                Ok((shares, m)) => Ok((Some(shares), m)),
            },
        },
    }
}

/// What follows `entity`: a name.
pub open spec fn entity(t: Seq<TokenView>, i: int) -> Result<(ast::StmtView, int), Failure> {
    match name_arg(t, i) {
        Err(e) => Err(e),
        Ok((name, j)) => Ok((ast::StmtView::CreateEntity(name), j)),
    }
}

/// What follows `object`: a name, and the parent where there is one.
pub open spec fn object(t: Seq<TokenView>, i: int) -> Result<(ast::StmtView, int), Failure> {
    match name_arg(t, i) {
        Err(e) => Err(e),
        Ok((name, j)) => match parent_option(t, j) {
            Err(e) => Err(e),
            Ok((parent, k)) => Ok(
                (ast::StmtView::CreateObject(ast::ObjectView { name, parent }), k),
            ),
        },
    }
}

/// What follows `concept`: a name, then the price and then the
/// barcode, where they are there.
pub open spec fn concept(t: Seq<TokenView>, i: int) -> Result<(ast::StmtView, int), Failure> {
    match name_arg(t, i) {
        Err(e) => Err(e),
        Ok((name, j)) => match price_option(t, j) {
            Err(e) => Err(e),
            Ok((default_price, k)) => match gtin_option(t, k) {
                Err(e) => Err(e),
                Ok((gtin, m)) => Ok(
                    (
                        ast::StmtView::CreateConcept(
                            ast::ConceptView { name, default_price, gtin },
                        ),
                        m,
                    ),
                ),
            },
        },
    }
}

/// `create`, and what is to be created.
pub open spec fn create(t: Seq<TokenView>, i: int) -> Result<(ast::StmtView, int), Failure> {
    if !(0 <= i < t.len() && t[i] == TokenView::Create) {
        Err(Failure { at: i, expected: Expected::Command })
    } else {
        match space(t, i + 1) {
            Err(e) => Err(e),
            Ok(j) => if is_word(t, j, "entity"@) {
                entity(t, j + 1)
            } else if is_word(t, j, "object"@) {
                object(t, j + 1)
            } else if is_word(t, j, "concept"@) {
                concept(t, j + 1)
            } else {
                Err(Failure { at: j, expected: Expected::Actor })
            },
        }
    }
}

/// `pay`, an amount and a direction.
pub open spec fn pay(t: Seq<TokenView>, i: int) -> Result<(ast::PayView, int), Failure> {
    if !(0 <= i < t.len() && t[i] == TokenView::Pay) {
        Err(Failure { at: i, expected: Expected::Command })
    } else {
        match space(t, i + 1) {
            Err(e) => Err(e),
            Ok(j) => match money(t, j) {
                Err(e) => Err(e),
                Ok((amount, k)) => match dir_arg(t, k) {
                    Err(e) => Err(e),
                    Ok((who, m)) => Ok((ast::PayView { amount, who }, m)),
                },
            },
        }
    }
}

/// `deliver`, a product, the price where there is one, a direction,
/// and the split where there is one.
pub open spec fn deliver(t: Seq<TokenView>, i: int) -> Result<(ast::DeliverView, int), Failure> {
    if !(0 <= i < t.len() && t[i] == TokenView::Deliver) {
        Err(Failure { at: i, expected: Expected::Command })
    } else {
        match space(t, i + 1) {
            Err(e) => Err(e),
            Ok(j) => match product(t, j) {
                Err(e) => Err(e),
                Ok((what, k)) => match price_option(t, k) {
                    Err(e) => Err(e),
                    Ok((price, m)) => match dir_arg(t, m) {
                        Err(e) => Err(e),
                        Ok((who, n)) => match split_option(t, n) {
                            Err(e) => Err(e),
                            Ok((split, o)) => Ok(
                                (ast::DeliverView { what, who, price, split }, o),
                            ),
                        },
                    },
                },
            },
        }
    }
}

/// `balance` or `bal`, and a direction.
pub open spec fn balance(t: Seq<TokenView>, i: int) -> Result<(ast::DirView, int), Failure> {
    if !(0 <= i < t.len() && t[i] == TokenView::Balance) {
        Err(Failure { at: i, expected: Expected::Command })
    } else {
        dir_arg(t, i + 1)
    }
}

/// One statement. Its first token says which it is.
pub open spec fn statement(t: Seq<TokenView>, i: int) -> Result<(ast::StmtView, int), Failure> {
    if !(0 <= i < t.len()) {
        Err(Failure { at: i, expected: Expected::Command })
    } else {
        match t[i] {
            TokenView::Create => create(t, i),
            TokenView::Pay => match pay(t, i) {
                Ok((pay, j)) => Ok((ast::StmtView::Pay(pay), j)),
                Err(e) => Err(e),
            },
            TokenView::Deliver => match deliver(t, i) {
                Ok((deliver, j)) => Ok((ast::StmtView::Deliver(deliver), j)),
                Err(e) => Err(e),
            },
            TokenView::Balance => match balance(t, i) {
                Ok((between, j)) => Ok((ast::StmtView::Balance(between), j)),
                Err(e) => Err(e),
            },
            _ => Err(Failure { at: i, expected: Expected::Command }),
        }
    }
}

/// Whether a token stands at `i` that ends a statement: a newline,
/// a semicolon or a comment.
pub open spec fn is_delimiter(t: Seq<TokenView>, i: int) -> bool {
    0 <= i < t.len() && (t[i] == TokenView::Newline || t[i] == TokenView::Semicolon || t[i]
        == TokenView::Comment)
}

/// The first position from `i` on at which neither whitespace nor
/// the end of a statement stands.
pub open spec fn skip_blank(t: Seq<TokenView>, i: int) -> int
    decreases t.len() - i,
{
    if is_space(t, i) || is_delimiter(t, i) {
        skip_blank(t, i + 1)
    } else {
        i
    }
}

/// The statements from position `i` to the end. Between two of them
/// at least one delimiter stands. Delimiters and whitespace may stand
/// in front of the first and behind the last, as many as one likes.
pub open spec fn script_from(t: Seq<TokenView>, i: int) -> Result<Seq<ast::StmtView>, Failure>
    decreases t.len() - i,
{
    let j = skip_blank(t, i);
    if !(0 <= i <= j < t.len()) {
        Ok(seq![])
    } else {
        match statement(t, j) {
            Err(e) => Err(e),
            Ok((stmt, k)) => {
                let m = skip_space(t, k);
                if !(j < m <= t.len()) || (m < t.len() && !is_delimiter(t, m)) {
                    Err(Failure { at: m, expected: Expected::Delimiter })
                } else {
                    match script_from(t, m) {
                        Err(e) => Err(e),
                        Ok(rest) => Ok(seq![stmt] + rest),
                    }
                }
            },
        }
    }
}

/// What a construct is where it has to be all there is: nothing may
/// follow it.
pub open spec fn whole<T>(t: Seq<TokenView>, r: Result<(T, int), Failure>) -> Result<T, Failure> {
    match r {
        Ok((value, j)) => if j == t.len() {
            Ok(value)
        } else {
            Err(Failure { at: j, expected: Expected::End })
        },
        Err(e) => Err(e),
    }
}

/// What a syntax error says.
pub ghost struct SyntaxErrorView {
    pub start: nat,
    pub end: nat,
    pub expected: Expected,
    pub found: Option<TokenView>,
}

/// The kinds of a list of tokens, without their places.
pub open spec fn token_kinds(tokens: Seq<SpannedView>) -> Seq<TokenView> {
    tokens.map_values(|t: SpannedView| t.token)
}

/// The byte at which the tokens end.
pub open spec fn end_of(tokens: Seq<SpannedView>) -> nat {
    if tokens.len() == 0 {
        0
    } else {
        tokens.last().end
    }
}

/// The error that a failure is reported as: it names the token at
/// which parsing stopped and the bytes at which that token stands.
pub open spec fn error_at(tokens: Seq<SpannedView>, f: Failure) -> SyntaxErrorView {
    if 0 <= f.at < tokens.len() {
        SyntaxErrorView {
            start: tokens[f.at].start,
            end: tokens[f.at].end,
            expected: f.expected,
            found: Some(tokens[f.at].token),
        }
    } else {
        SyntaxErrorView {
            start: end_of(tokens),
            end: end_of(tokens),
            expected: f.expected,
            found: None,
        }
    }
}

/// What a construct is where the tokens hold it and nothing else.
pub open spec fn alone<T>(tokens: Seq<SpannedView>, r: Result<(T, int), Failure>) -> Result<
    T,
    SyntaxErrorView,
> {
    match whole(token_kinds(tokens), r) {
        Ok(value) => Ok(value),
        Err(f) => Err(error_at(tokens, f)),
    }
}

/// The script that a list of tokens is.
pub open spec fn script_of(tokens: Seq<SpannedView>) -> Result<
    Seq<ast::StmtView>,
    SyntaxErrorView,
> {
    match script_from(token_kinds(tokens), 0) {
        Ok(stmts) => Ok(stmts),
        Err(f) => Err(error_at(tokens, f)),
    }
}

/// The script that a text is.
pub open spec fn parse_spec(src: Seq<char>) -> Result<Seq<ast::StmtView>, SyntaxErrorView> {
    script_of(lex_spec(src))
}

/// The amount of money that a text is.
pub open spec fn money_spec(src: Seq<char>) -> Result<nat, SyntaxErrorView> {
    alone(lex_spec(src), money(token_kinds(lex_spec(src)), 0))
}

/// The payment that a text is.
pub open spec fn pay_spec(src: Seq<char>) -> Result<ast::PayView, SyntaxErrorView> {
    alone(lex_spec(src), pay(token_kinds(lex_spec(src)), 0))
}

/// The delivery that a text is.
pub open spec fn deliver_spec(src: Seq<char>) -> Result<ast::DeliverView, SyntaxErrorView> {
    alone(lex_spec(src), deliver(token_kinds(lex_spec(src)), 0))
}

/// The statements that were read, followed by what is still to come.
pub open spec fn after(done: Seq<ast::StmtView>, rest: Result<Seq<ast::StmtView>, Failure>)
    -> Result<Seq<ast::StmtView>, Failure> {
    match rest {
        Ok(rest) => Ok(done + rest),
        Err(e) => Err(e),
    }
}

/// Positions only move forward, and stay among the tokens.
pub proof fn lemma_skip_blank(t: Seq<TokenView>, i: int)
    requires
        0 <= i <= t.len(),
    ensures
        i <= skip_blank(t, i) <= t.len(),
    decreases t.len() - i,
{
    if is_space(t, i) || is_delimiter(t, i) {
        lemma_skip_blank(t, i + 1);
    }
}

/// Whether a rule that started at `i` among `n` tokens went forward:
/// what it found ends behind `i`, and where it stopped is not before `i`;
/// neither is beyond the tokens.
pub open spec fn forward<T>(r: Result<(T, int), Failure>, i: int, n: int) -> bool {
    match r {
        Ok((_, j)) => i < j <= n,
        Err(f) => i <= f.at <= n,
    }
}

/// Whether a rule for something that may be left out went forward:
/// as [`forward`], but what it found may be nothing, and end at `i`.
pub open spec fn forward_option<T>(r: Result<(T, int), Failure>, i: int, n: int) -> bool {
    match r {
        Ok((_, j)) => i <= j <= n,
        Err(f) => i <= f.at <= n,
    }
}

proof fn lemma_space_forward(t: Seq<TokenView>, i: int)
    requires
        0 <= i <= t.len(),
    ensures
        match space(t, i) {
            Ok(j) => i < j <= t.len(),
            Err(f) => f.at == i,
        },
{
    lemma_skip_space(t, i);
}

proof fn lemma_name_arg_forward(t: Seq<TokenView>, i: int)
    requires
        0 <= i <= t.len(),
    ensures
        forward(name_arg(t, i), i, t.len() as int),
{
    lemma_space_forward(t, i);
}

proof fn lemma_money_forward(t: Seq<TokenView>, i: int)
    requires
        0 <= i <= t.len(),
    ensures
        forward(money(t, i), i, t.len() as int),
{
    if i < t.len() {
        lemma_skip_space(t, i + 1);
    }
}

proof fn lemma_dir_forward(t: Seq<TokenView>, i: int)
    requires
        0 <= i <= t.len(),
    ensures
        forward(dir(t, i), i, t.len() as int),
{
    if is_word(t, i, "from"@) {
        lemma_name_arg_forward(t, i + 1);
        if let Ok((_, j)) = name_arg(t, i + 1) {
            lemma_space_forward(t, j);
            if let Ok(k) = space(t, j) {
                if is_word(t, k, "to"@) {
                    lemma_name_arg_forward(t, k + 1);
                }
            }
        }
    }
}

proof fn lemma_dir_arg_forward(t: Seq<TokenView>, i: int)
    requires
        0 <= i <= t.len(),
    ensures
        forward(dir_arg(t, i), i, t.len() as int),
{
    lemma_space_forward(t, i);
    if let Ok(j) = space(t, i) {
        lemma_dir_forward(t, j);
    }
}

proof fn lemma_split_forward(t: Seq<TokenView>, i: int)
    requires
        0 <= i <= t.len(),
    ensures
        forward(split(t, i), i, t.len() as int),
{
    if let Ok((_, j)) = number(t, i) {
        lemma_skip_space(t, j);
        let k = skip_space(t, j);
        if k < t.len() {
            lemma_skip_space(t, k + 1);
        }
    }
}

proof fn lemma_options_forward(t: Seq<TokenView>, i: int)
    requires
        0 <= i <= t.len(),
    ensures
        forward_option(price_option(t, i), i, t.len() as int),
        forward_option(gtin_option(t, i), i, t.len() as int),
        forward_option(parent_option(t, i), i, t.len() as int),
        forward_option(split_option(t, i), i, t.len() as int),
{
    lemma_skip_space(t, i);
    let j = skip_space(t, i);
    if is_space(t, i) && j < t.len() {
        lemma_space_forward(t, j + 1);
        lemma_name_arg_forward(t, j + 1);
        if let Ok(k) = space(t, j + 1) {
            lemma_money_forward(t, k);
            lemma_split_forward(t, k);
        }
    }
}

proof fn lemma_create_forward(t: Seq<TokenView>, i: int)
    requires
        0 <= i <= t.len(),
    ensures
        forward(create(t, i), i, t.len() as int),
{
    if i < t.len() {
        lemma_space_forward(t, i + 1);
        if let Ok(j) = space(t, i + 1) {
            if j < t.len() {
                lemma_name_arg_forward(t, j + 1);
                if let Ok((_, k)) = name_arg(t, j + 1) {
                    lemma_options_forward(t, k);
                    if let Ok((_, m)) = price_option(t, k) {
                        lemma_options_forward(t, m);
                    }
                }
            }
        }
    }
}

proof fn lemma_pay_forward(t: Seq<TokenView>, i: int)
    requires
        0 <= i <= t.len(),
    ensures
        forward(pay(t, i), i, t.len() as int),
{
    if i < t.len() {
        lemma_space_forward(t, i + 1);
        if let Ok(j) = space(t, i + 1) {
            lemma_money_forward(t, j);
            if let Ok((_, k)) = money(t, j) {
                lemma_dir_arg_forward(t, k);
            }
        }
    }
}

proof fn lemma_deliver_forward(t: Seq<TokenView>, i: int)
    requires
        0 <= i <= t.len(),
    ensures
        forward(deliver(t, i), i, t.len() as int),
{
    if i < t.len() {
        lemma_space_forward(t, i + 1);
        if let Ok(j) = space(t, i + 1) {
            if let Ok((_, k)) = product(t, j) {
                lemma_options_forward(t, k);
                if let Ok((_, m)) = price_option(t, k) {
                    lemma_dir_arg_forward(t, m);
                    if let Ok((_, n)) = dir_arg(t, m) {
                        lemma_options_forward(t, n);
                    }
                }
            }
        }
    }
}

/// A statement has at least one token and ends among the tokens; and
/// where none stands, the token that is named as not fitting is one
/// of those looked at, or the end.
pub proof fn lemma_statement_forward(t: Seq<TokenView>, i: int)
    requires
        0 <= i <= t.len(),
    ensures
        forward(statement(t, i), i, t.len() as int),
{
    lemma_create_forward(t, i);
    lemma_pay_forward(t, i);
    lemma_deliver_forward(t, i);
    if i < t.len() {
        lemma_dir_arg_forward(t, i + 1);
    }
}

/// Where a script is refused, the token that is named as not fitting
/// is one of its tokens, or its end. And a delimiter is only missed
/// where something else stands: a token that is neither a delimiter
/// nor whitespace.
pub proof fn lemma_script_failure(t: Seq<TokenView>, i: int)
    requires
        0 <= i <= t.len(),
    ensures
        match script_from(t, i) {
            Ok(_) => true,
            Err(f) => i <= f.at <= t.len() && (f.expected == Expected::Delimiter ==> f.at < t.len()
                && !is_delimiter(t, f.at) && !is_space(t, f.at)),
        },
    decreases t.len() - i,
{
    lemma_skip_blank(t, i);
    let j = skip_blank(t, i);
    if j < t.len() {
        lemma_statement_forward(t, j);
        lemma_statement_expects(t, j);
        if let Ok((_, k)) = statement(t, j) {
            lemma_skip_space(t, k);
            let m = skip_space(t, k);
            if m == t.len() || is_delimiter(t, m) {
                lemma_script_failure(t, m);
            }
        }
    }
}

/// No statement stops for want of a delimiter: that is for the
/// script to ask for, once the statement is read.
proof fn lemma_statement_expects(t: Seq<TokenView>, i: int)
    ensures
        statement(t, i) is Err ==> statement(t, i)->Err_0.expected != Expected::Delimiter,
{
}

} // verus!
