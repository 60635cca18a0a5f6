//! How a statement is written, token by token.
//!
//! Every statement has a plain way to be written: its words in order,
//! one token of whitespace between them, amounts in cents without a
//! sign, barcodes with all of their fourteen digits. The grammar reads
//! each statement back from what is written here.

use crate::ext::text::{decimal_value, digit_value, is_digit, is_digits};
use crate::ext::{lemma_digits_bound, spec_digits, GTIN_MAX};
use crate::syntax::ast::{
    ConceptView, DeliverView, DirView, ObjectView, PayView, ProductView, RatioView, StmtView,
};
use crate::syntax::grammar::{
    create, dir, dir_arg, gtin, gtin_option, is_barcode, is_delimiter, is_word, money, name_arg,
    number, option_at, parent_option, price_option, product, script_from, skip_blank, skip_space,
    space, split, split_option, statement, Failure,
};
use crate::syntax::lex::TokenView;
use vstd::arithmetic::power::pow;
use vstd::prelude::*;

verus! {

/// The digit that stands for a number below ten.
pub open spec fn digit_char(d: nat) -> char {
    if d == 0 {
        '0'
    } else if d == 1 {
        '1'
    } else if d == 2 {
        '2'
    } else if d == 3 {
        '3'
    } else if d == 4 {
        '4'
    } else if d == 5 {
        '5'
    } else if d == 6 {
        '6'
    } else if d == 7 {
        '7'
    } else if d == 8 {
        '8'
    } else {
        '9'
    }
}

/// The digits that write a number in base 10, without zeroes in front.
pub open spec fn digits_of(n: nat) -> Seq<char>
    decreases n,
{
    if n < 10 {
        seq![digit_char(n)]
    } else {
        digits_of(n / 10).push(digit_char(n % 10))
    }
}

/// The digits of a number write that number, and are as many as the
/// number has digits.
pub proof fn lemma_digits_of(n: nat)
    ensures
        is_digits(digits_of(n)),
        decimal_value(digits_of(n)) == n,
        digits_of(n).len() == spec_digits(n),
    decreases n,
{
    let d = digits_of(n);
    if n < 10 {
        assert(d.drop_last().len() == 0);
        assert(decimal_value(d) == decimal_value(d.drop_last()) * 10 + digit_value(d.last()));
    } else {
        lemma_digits_of(n / 10);
        assert(d.drop_last() == digits_of(n / 10));
        assert(d.last() == digit_char(n % 10));
        assert(is_digit(digit_char(n % 10)));
        assert forall|i: int| 0 <= i < d.len() implies is_digit(#[trigger] d[i]) by {
            if i < d.len() - 1 {
                assert(d[i] == digits_of(n / 10)[i]);
            }
        }
    }
}

/// Zeroes in front of digits change nothing of the number.
pub proof fn lemma_leading_zeroes(k: nat, digits: Seq<char>)
    ensures
        decimal_value(Seq::new(k, |i: int| '0') + digits) == decimal_value(digits),
    decreases digits.len(), k,
{
    let zeroes = Seq::new(k, |i: int| '0');
    let all = zeroes + digits;
    if digits.len() > 0 {
        assert(all.drop_last() == zeroes + digits.drop_last());
        lemma_leading_zeroes(k, digits.drop_last());
    } else if k > 0 {
        let fewer = Seq::new((k - 1) as nat, |i: int| '0');
        assert(all.drop_last() == fewer + digits);
        lemma_leading_zeroes((k - 1) as nat, digits);
    } else {
        assert(all.len() == 0);
    }
}

/// The fourteen digits of a barcode.
pub open spec fn barcode_of(gtin: u64) -> Seq<char> {
    Seq::new((14 - digits_of(gtin as nat).len()) as nat, |i: int| '0') + digits_of(gtin as nat)
}

/// The fourteen digits of a barcode are a barcode, and write its number.
pub proof fn lemma_barcode_of(gtin: u64)
    requires
        gtin <= GTIN_MAX,
    ensures
        is_barcode(barcode_of(gtin)),
        barcode_of(gtin).len() == 14,
        decimal_value(barcode_of(gtin)) == gtin,
{
    lemma_digits_of(gtin as nat);
    lemma_digits_bound(gtin as nat, 14);
    assert(pow(10, 14) == 100_000_000_000_000int) by {
        reveal_with_fuel(pow, 15);
    }
    let digits = digits_of(gtin as nat);
    let k = (14 - digits.len()) as nat;
    lemma_leading_zeroes(k, digits);
    let all = barcode_of(gtin);
    assert forall|i: int| 0 <= i < all.len() implies is_digit(#[trigger] all[i]) by {
        if i >= k {
            assert(all[i] == digits[i - k]);
        }
    }
}

/// A direction as it is written.
pub open spec fn written_dir(d: DirView) -> Seq<TokenView> {
    seq![
        TokenView::Ident("from"@),
        TokenView::Whitespace,
        TokenView::Ident(d.from),
        TokenView::Whitespace,
        TokenView::Ident("to"@),
        TokenView::Whitespace,
        TokenView::Ident(d.to),
    ]
}

/// A product as it is written.
pub open spec fn written_product(p: ProductView) -> TokenView {
    match p {
        ProductView::Name(name) => TokenView::Ident(name),
        ProductView::Id(gtin) => TokenView::Integer(barcode_of(gtin)),
    }
}

/// An argument that may be left out, as it is written: whitespace,
/// its word, whitespace, and what it says.
pub open spec fn written_option(word: Seq<char>, value: Option<Seq<TokenView>>) -> Seq<TokenView> {
    match value {
        Some(value) => seq![TokenView::Whitespace, TokenView::Ident(word), TokenView::Whitespace]
            + value,
        None => seq![],
    }
}

/// An amount as it is written: in cents, without a sign.
pub open spec fn written_money(amount: Option<nat>) -> Option<Seq<TokenView>> {
    match amount {
        Some(amount) => Some(seq![TokenView::Integer(digits_of(amount))]),
        None => None,
    }
}

/// A barcode as it is written.
pub open spec fn written_gtin(gtin: Option<u64>) -> Option<Seq<TokenView>> {
    match gtin {
        Some(gtin) => Some(seq![TokenView::Integer(barcode_of(gtin))]),
        None => None,
    }
}

/// A name as it is written.
pub open spec fn written_name(name: Option<Seq<char>>) -> Option<Seq<TokenView>> {
    match name {
        Some(name) => Some(seq![TokenView::Ident(name)]),
        None => None,
    }
}

/// A split as it is written.
pub open spec fn written_split(split: Option<RatioView>) -> Option<Seq<TokenView>> {
    match split {
        Some(split) => Some(
            seq![
                TokenView::Integer(digits_of(split.left)),
                TokenView::Colon,
                TokenView::Integer(digits_of(split.right)),
            ],
        ),
        None => None,
    }
}

/// A statement as it is written.
pub open spec fn written(stmt: StmtView) -> Seq<TokenView> {
    match stmt {
        StmtView::CreateEntity(name) => seq![
            TokenView::Create,
            TokenView::Whitespace,
            TokenView::Ident("entity"@),
            TokenView::Whitespace,
            TokenView::Ident(name),
        ],
        StmtView::CreateObject(object) => seq![
            TokenView::Create,
            TokenView::Whitespace,
            TokenView::Ident("object"@),
            TokenView::Whitespace,
            TokenView::Ident(object.name),
        ] + written_option("parent"@, written_name(object.parent)),
        StmtView::CreateConcept(concept) => seq![
            TokenView::Create,
            TokenView::Whitespace,
            TokenView::Ident("concept"@),
            TokenView::Whitespace,
            TokenView::Ident(concept.name),
        ] + written_option("price"@, written_money(concept.default_price)) + written_option(
            "gtin"@,
            written_gtin(concept.gtin),
        ),
        StmtView::Pay(pay) => seq![
            TokenView::Pay,
            TokenView::Whitespace,
            TokenView::Integer(digits_of(pay.amount)),
            TokenView::Whitespace,
        ] + written_dir(pay.who),
        StmtView::Deliver(deliver) => seq![
            TokenView::Deliver,
            TokenView::Whitespace,
            written_product(deliver.what),
        ] + written_option("price"@, written_money(deliver.price)) + seq![TokenView::Whitespace]
            + written_dir(deliver.who) + written_option("split"@, written_split(deliver.split)),
        StmtView::Balance(between) => seq![TokenView::Balance, TokenView::Whitespace]
            + written_dir(between),
    }
}

/// A script as it is written: each statement on a line of its own.
pub open spec fn written_script(stmts: Seq<StmtView>) -> Seq<TokenView>
    decreases stmts.len(),
{
    if stmts.len() == 0 {
        seq![]
    } else {
        written(stmts[0]) + seq![TokenView::Newline] + written_script(stmts.drop_first())
    }
}

/// Whether every barcode in the statement is one: a number of at
/// most fourteen digits.
pub open spec fn barcodes_fit(stmt: StmtView) -> bool {
    match stmt {
        StmtView::CreateConcept(concept) => concept.gtin is Some ==> concept.gtin->0 <= GTIN_MAX,
        StmtView::Deliver(deliver) => deliver.what is Id ==> deliver.what->Id_0 <= GTIN_MAX,
        _ => true,
    }
}

/// The words of the grammar are different words.
proof fn lemma_words()
    ensures
        "entity"@ != "object"@,
        "entity"@ != "concept"@,
        "object"@ != "concept"@,
        "from"@ != "price"@,
        "gtin"@ != "price"@,
{
    reveal_strlit("entity");
    reveal_strlit("object");
    reveal_strlit("concept");
    reveal_strlit("from");
    reveal_strlit("price");
    reveal_strlit("gtin");
    assert("entity"@[0] != "object"@[0]);
    assert("entity"@[0] != "concept"@[0]);
    assert("object"@[0] != "concept"@[0]);
    assert("from"@[0] != "price"@[0]);
    assert("gtin"@[0] != "price"@[0]);
}

/// How many tokens write an argument that may be left out.
pub open spec fn option_len<T>(value: Option<T>, n: int) -> int {
    if value is Some {
        n
    } else {
        0
    }
}

/// How many tokens write a statement.
pub open spec fn written_len(stmt: StmtView) -> int {
    match stmt {
        StmtView::CreateEntity(_) => 5,
        StmtView::CreateObject(object) => 5 + option_len(object.parent, 4),
        StmtView::CreateConcept(concept) => 5 + option_len(concept.default_price, 4) + option_len(
            concept.gtin,
            4,
        ),
        StmtView::Pay(_) => 11,
        StmtView::Deliver(deliver) => 11 + option_len(deliver.price, 4) + option_len(
            deliver.split,
            6,
        ),
        StmtView::Balance(_) => 9,
    }
}

/// Whether something that is written ends at `j`: the tokens end
/// there, or a newline stands there.
pub open spec fn ends(t: Seq<TokenView>, j: int) -> bool {
    j == t.len() || (0 <= j < t.len() && t[j] == TokenView::Newline)
}

/// Whether the tokens from `i` on are the seven of a direction.
pub open spec fn dir_stands(t: Seq<TokenView>, i: int, d: DirView) -> bool {
    &&& 0 <= i
    &&& i + 7 <= t.len()
    &&& t[i] == TokenView::Ident("from"@)
    &&& t[i + 1] == TokenView::Whitespace
    &&& t[i + 2] == TokenView::Ident(d.from)
    &&& t[i + 3] == TokenView::Whitespace
    &&& t[i + 4] == TokenView::Ident("to"@)
    &&& t[i + 5] == TokenView::Whitespace
    &&& t[i + 6] == TokenView::Ident(d.to)
}

/// Whether the tokens from `i` on are those of an argument that may
/// be left out: none, or whitespace, the word, whitespace, and one
/// token for what it says.
pub open spec fn option_stands(
    t: Seq<TokenView>,
    i: int,
    word: Seq<char>,
    value: Option<TokenView>,
) -> bool {
    value is Some ==> {
        &&& 0 <= i
        &&& i + 4 <= t.len()
        &&& t[i] == TokenView::Whitespace
        &&& t[i + 1] == TokenView::Ident(word)
        &&& t[i + 2] == TokenView::Whitespace
        &&& t[i + 3] == value->0
    }
}

/// Whether the tokens from `i` on are `create`, the kind of actor
/// and its name.
pub open spec fn create_stands(t: Seq<TokenView>, i: int, kind: Seq<char>, name: Seq<char>)
    -> bool {
    &&& 0 <= i
    &&& i + 5 <= t.len()
    &&& t[i] == TokenView::Create
    &&& t[i + 1] == TokenView::Whitespace
    &&& t[i + 2] == TokenView::Ident(kind)
    &&& t[i + 3] == TokenView::Whitespace
    &&& t[i + 4] == TokenView::Ident(name)
}

/// The token that writes an amount, where there is one.
pub open spec fn money_token(amount: Option<nat>) -> Option<TokenView> {
    match amount {
        Some(amount) => Some(TokenView::Integer(digits_of(amount))),
        None => None,
    }
}

/// The token that writes a barcode, where there is one.
pub open spec fn gtin_token(gtin: Option<u64>) -> Option<TokenView> {
    match gtin {
        Some(gtin) => Some(TokenView::Integer(barcode_of(gtin))),
        None => None,
    }
}

/// The token that writes a name, where there is one.
pub open spec fn name_token(name: Option<Seq<char>>) -> Option<TokenView> {
    match name {
        Some(name) => Some(TokenView::Ident(name)),
        None => None,
    }
}

/// The first token of a split, where there is one.
pub open spec fn split_token(split: Option<RatioView>) -> Option<TokenView> {
    match split {
        Some(split) => Some(TokenView::Integer(digits_of(split.left))),
        None => None,
    }
}

/// Whether the tokens from `i` on are those of a delivery, each part
/// at its place.
pub open spec fn deliver_stands(t: Seq<TokenView>, i: int, deliver: DeliverView) -> bool {
    let p = i + 3 + option_len(deliver.price, 4);
    &&& 0 <= i
    &&& p + 8 + option_len(deliver.split, 6) <= t.len()
    &&& t[i] == TokenView::Deliver
    &&& t[i + 1] == TokenView::Whitespace
    &&& t[i + 2] == written_product(deliver.what)
    &&& option_stands(t, i + 3, "price"@, money_token(deliver.price))
    &&& t[p] == TokenView::Whitespace
    &&& dir_stands(t, p + 1, deliver.who)
    &&& option_stands(t, p + 8, "split"@, split_token(deliver.split))
    &&& deliver.split is Some ==> t[p + 12] == TokenView::Colon && t[p + 13]
        == TokenView::Integer(digits_of(deliver.split->0.right))
}

/// Whether the tokens from `i` on are those of the statement, each
/// part at its place.
pub open spec fn stands(t: Seq<TokenView>, i: int, stmt: StmtView) -> bool {
    match stmt {
        StmtView::CreateEntity(name) => create_stands(t, i, "entity"@, name),
        StmtView::CreateObject(object) => create_stands(t, i, "object"@, object.name)
            && option_stands(t, i + 5, "parent"@, name_token(object.parent)),
        StmtView::CreateConcept(concept) => create_stands(t, i, "concept"@, concept.name)
            && option_stands(t, i + 5, "price"@, money_token(concept.default_price))
            && option_stands(
            t,
            i + 5 + option_len(concept.default_price, 4),
            "gtin"@,
            gtin_token(concept.gtin),
        ),
        StmtView::Pay(pay) => {
            &&& 0 <= i
            &&& i + 11 <= t.len()
            &&& t[i] == TokenView::Pay
            &&& t[i + 1] == TokenView::Whitespace
            &&& t[i + 2] == TokenView::Integer(digits_of(pay.amount))
            &&& t[i + 3] == TokenView::Whitespace
            &&& dir_stands(t, i + 4, pay.who)
        },
        StmtView::Deliver(deliver) => deliver_stands(t, i, deliver),
        StmtView::Balance(between) => {
            &&& 0 <= i
            &&& i + 9 <= t.len()
            &&& t[i] == TokenView::Balance
            &&& t[i + 1] == TokenView::Whitespace
            &&& dir_stands(t, i + 2, between)
        },
    }
}

/// A direction is read from where it stands.
proof fn lemma_dir_read(t: Seq<TokenView>, i: int, d: DirView)
    requires
        dir_stands(t, i, d),
    ensures
        dir(t, i) == Ok::<(DirView, int), Failure>((d, i + 7)),
{
    reveal_with_fuel(skip_space, 2);
    assert(name_arg(t, i + 1) == Ok::<(Seq<char>, int), Failure>((d.from, i + 3)));
    assert(space(t, i + 3) == Ok::<int, Failure>(i + 4));
    assert(name_arg(t, i + 5) == Ok::<(Seq<char>, int), Failure>((d.to, i + 7)));
}

/// A direction is read as an argument from behind whitespace.
proof fn lemma_dir_arg_read(t: Seq<TokenView>, i: int, d: DirView)
    requires
        0 <= i,
        t[i] == TokenView::Whitespace,
        dir_stands(t, i + 1, d),
    ensures
        dir_arg(t, i) == Ok::<(DirView, int), Failure>((d, i + 8)),
{
    reveal_with_fuel(skip_space, 2);
    lemma_dir_read(t, i + 1, d);
    assert(space(t, i) == Ok::<int, Failure>(i + 1));
}

/// Whether what follows at `j` is a word behind whitespace.
pub open spec fn word_follows(t: Seq<TokenView>, j: int) -> bool {
    0 <= j && j + 2 <= t.len() && t[j] == TokenView::Whitespace && t[j + 1] is Ident
}

/// An amount that is written as a whole number is read as that many
/// cents, where no sign follows it.
proof fn lemma_cents_read(t: Seq<TokenView>, i: int, amount: nat)
    requires
        0 <= i < t.len(),
        t[i] == TokenView::Integer(digits_of(amount)),
        ends(t, i + 1) || word_follows(t, i + 1),
    ensures
        money(t, i) == Ok::<(nat, int), Failure>((amount, i + 1)),
{
    reveal_with_fuel(skip_space, 3);
    lemma_digits_of(amount);
    let k = skip_space(t, i + 1);
    assert(k == i + 1 || k == i + 2);
}

/// A price is read from where it stands, and none where none stands.
proof fn lemma_price_read(t: Seq<TokenView>, i: int, price: Option<nat>)
    requires
        0 <= i <= t.len(),
        option_stands(t, i, "price"@, money_token(price)),
        ends(t, i + option_len(price, 4)) || (word_follows(t, i + option_len(price, 4)) && t[i
            + option_len(price, 4) + 1]->Ident_0 != "price"@),
    ensures
        price_option(t, i) == Ok::<(Option<nat>, int), Failure>((price, i + option_len(price, 4))),
{
    reveal_with_fuel(skip_space, 2);
    if price is Some {
        lemma_cents_read(t, i + 3, price->0);
        assert(option_at(t, i, "price"@) == Some(i + 1));
        assert(space(t, i + 2) == Ok::<int, Failure>(i + 3));
    } else {
        assert(option_at(t, i, "price"@) is None);
    }
}

/// A barcode is read from where it stands, and none where what is
/// written ends.
proof fn lemma_gtin_read(t: Seq<TokenView>, i: int, code: Option<u64>)
    requires
        0 <= i <= t.len(),
        option_stands(t, i, "gtin"@, gtin_token(code)),
        code is Some ==> code->0 <= GTIN_MAX,
        ends(t, i + option_len(code, 4)),
    ensures
        gtin_option(t, i) == Ok::<(Option<u64>, int), Failure>((code, i + option_len(code, 4))),
{
    reveal_with_fuel(skip_space, 2);
    if code is Some {
        lemma_barcode_of(code->0);
        assert(option_at(t, i, "gtin"@) == Some(i + 1));
        assert(space(t, i + 2) == Ok::<int, Failure>(i + 3));
        assert(gtin(t, i + 3) == Ok::<(u64, int), Failure>((code->0, i + 4)));
    } else {
        assert(option_at(t, i, "gtin"@) is None);
    }
}

/// A parent is read from where it stands, and none where what is
/// written ends.
proof fn lemma_parent_read(t: Seq<TokenView>, i: int, parent: Option<Seq<char>>)
    requires
        0 <= i <= t.len(),
        option_stands(t, i, "parent"@, name_token(parent)),
        ends(t, i + option_len(parent, 4)),
    ensures
        parent_option(t, i) == Ok::<(Option<Seq<char>>, int), Failure>(
            (parent, i + option_len(parent, 4)),
        ),
{
    reveal_with_fuel(skip_space, 2);
    if parent is Some {
        assert(option_at(t, i, "parent"@) == Some(i + 1));
        assert(name_arg(t, i + 2) == Ok::<(Seq<char>, int), Failure>((parent->0, i + 4)));
    } else {
        assert(option_at(t, i, "parent"@) is None);
    }
}

/// A split is read from where it stands, and none where what is
/// written ends.
proof fn lemma_split_read(t: Seq<TokenView>, i: int, shares: Option<RatioView>)
    requires
        0 <= i <= t.len(),
        option_stands(t, i, "split"@, split_token(shares)),
        shares is Some ==> i + 6 <= t.len() && t[i + 4] == TokenView::Colon && t[i + 5]
            == TokenView::Integer(digits_of(shares->0.right)),
        ends(t, i + option_len(shares, 6)),
    ensures
        split_option(t, i) == Ok::<(Option<RatioView>, int), Failure>(
            (shares, i + option_len(shares, 6)),
        ),
{
    reveal_with_fuel(skip_space, 2);
    if shares is Some {
        lemma_digits_of(shares->0.left);
        lemma_digits_of(shares->0.right);
        assert(option_at(t, i, "split"@) == Some(i + 1));
        assert(space(t, i + 2) == Ok::<int, Failure>(i + 3));
        assert(number(t, i + 3) == Ok::<(nat, int), Failure>((shares->0.left, i + 4)));
        assert(skip_space(t, i + 4) == i + 4);
        assert(skip_space(t, i + 5) == i + 5);
        assert(number(t, i + 5) == Ok::<(nat, int), Failure>((shares->0.right, i + 6)));
        assert(split(t, i + 3) == Ok::<(RatioView, int), Failure>((shares->0, i + 6)));
    } else {
        assert(option_at(t, i, "split"@) is None);
    }
}

proof fn lemma_create_read(t: Seq<TokenView>, i: int, kind: Seq<char>, name: Seq<char>)
    requires
        create_stands(t, i, kind, name),
    ensures
        space(t, i + 1) == Ok::<int, Failure>(i + 2),
        name_arg(t, i + 3) == Ok::<(Seq<char>, int), Failure>((name, i + 5)),
        is_word(t, i + 2, kind),
{
    reveal_with_fuel(skip_space, 2);
}

proof fn lemma_entity_read(t: Seq<TokenView>, i: int, name: Seq<char>)
    requires
        create_stands(t, i, "entity"@, name),
    ensures
        statement(t, i) == Ok::<(StmtView, int), Failure>((StmtView::CreateEntity(name), i + 5)),
{
    lemma_create_read(t, i, "entity"@, name);
}

proof fn lemma_object_read(t: Seq<TokenView>, i: int, object: ObjectView)
    requires
        create_stands(t, i, "object"@, object.name),
        parent_option(t, i + 5) == Ok::<(Option<Seq<char>>, int), Failure>(
            (object.parent, i + 5 + option_len(object.parent, 4)),
        ),
    ensures
        statement(t, i) == Ok::<(StmtView, int), Failure>(
            (StmtView::CreateObject(object), i + 5 + option_len(object.parent, 4)),
        ),
{
    lemma_create_read(t, i, "object"@, object.name);
    lemma_words();
    assert(!is_word(t, i + 2, "entity"@));
    assert(create(t, i) == crate::syntax::grammar::object(t, i + 3));
}

proof fn lemma_concept_read(t: Seq<TokenView>, i: int, concept: ConceptView)
    requires
        create_stands(t, i, "concept"@, concept.name),
        price_option(t, i + 5) == Ok::<(Option<nat>, int), Failure>(
            (concept.default_price, i + 5 + option_len(concept.default_price, 4)),
        ),
        gtin_option(t, i + 5 + option_len(concept.default_price, 4)) == Ok::<
            (Option<u64>, int),
            Failure,
        >((concept.gtin, i + written_len(StmtView::CreateConcept(concept)))),
    ensures
        statement(t, i) == Ok::<(StmtView, int), Failure>(
            (
                StmtView::CreateConcept(concept),
                i + written_len(StmtView::CreateConcept(concept)),
            ),
        ),
{
    lemma_create_read(t, i, "concept"@, concept.name);
    lemma_words();
    assert(!is_word(t, i + 2, "entity"@));
    assert(!is_word(t, i + 2, "object"@));
    assert(create(t, i) == crate::syntax::grammar::concept(t, i + 3));
}

proof fn lemma_concept_options(t: Seq<TokenView>, i: int, concept: ConceptView)
    requires
        concept.gtin is Some ==> concept.gtin->0 <= GTIN_MAX,
        stands(t, i, StmtView::CreateConcept(concept)),
        ends(t, i + written_len(StmtView::CreateConcept(concept))),
    ensures
        price_option(t, i + 5) == Ok::<(Option<nat>, int), Failure>(
            (concept.default_price, i + 5 + option_len(concept.default_price, 4)),
        ),
        gtin_option(t, i + 5 + option_len(concept.default_price, 4)) == Ok::<
            (Option<u64>, int),
            Failure,
        >((concept.gtin, i + written_len(StmtView::CreateConcept(concept)))),
{
    lemma_words();
    lemma_price_read(t, i + 5, concept.default_price);
    lemma_gtin_read(t, i + 5 + option_len(concept.default_price, 4), concept.gtin);
}

proof fn lemma_pay_read(t: Seq<TokenView>, i: int, pay: PayView)
    requires
        stands(t, i, StmtView::Pay(pay)),
    ensures
        statement(t, i) == Ok::<(StmtView, int), Failure>((StmtView::Pay(pay), i + 11)),
{
    reveal_with_fuel(skip_space, 2);
    lemma_cents_read(t, i + 2, pay.amount);
    lemma_dir_arg_read(t, i + 3, pay.who);
    assert(space(t, i + 1) == Ok::<int, Failure>(i + 2));
}

proof fn lemma_balance_read(t: Seq<TokenView>, i: int, between: DirView)
    requires
        stands(t, i, StmtView::Balance(between)),
    ensures
        statement(t, i) == Ok::<(StmtView, int), Failure>((StmtView::Balance(between), i + 9)),
{
    lemma_dir_arg_read(t, i + 1, between);
}

proof fn lemma_deliver_price(t: Seq<TokenView>, i: int, deliver: DeliverView)
    requires
        deliver_stands(t, i, deliver),
    ensures
        price_option(t, i + 3) == Ok::<(Option<nat>, int), Failure>(
            (deliver.price, i + 3 + option_len(deliver.price, 4)),
        ),
{
    lemma_words();
    lemma_price_read(t, i + 3, deliver.price);
}

proof fn lemma_deliver_who(t: Seq<TokenView>, i: int, deliver: DeliverView)
    requires
        deliver_stands(t, i, deliver),
    ensures
        dir_arg(t, i + 3 + option_len(deliver.price, 4)) == Ok::<(DirView, int), Failure>(
            (deliver.who, i + 11 + option_len(deliver.price, 4)),
        ),
{
    lemma_dir_arg_read(t, i + 3 + option_len(deliver.price, 4), deliver.who);
}

proof fn lemma_deliver_split(t: Seq<TokenView>, i: int, deliver: DeliverView)
    requires
        deliver_stands(t, i, deliver),
        ends(t, i + written_len(StmtView::Deliver(deliver))),
    ensures
        split_option(t, i + 11 + option_len(deliver.price, 4)) == Ok::<
            (Option<RatioView>, int),
            Failure,
        >((deliver.split, i + written_len(StmtView::Deliver(deliver)))),
{
    lemma_split_read(t, i + 11 + option_len(deliver.price, 4), deliver.split);
}

proof fn lemma_deliver_tokens(t: Seq<TokenView>, i: int, deliver: DeliverView, p: int, end: int)
    requires
        deliver.what is Id ==> deliver.what->Id_0 <= GTIN_MAX,
        0 <= i,
        i + 3 <= t.len(),
        t[i] == TokenView::Deliver,
        t[i + 1] == TokenView::Whitespace,
        t[i + 2] == written_product(deliver.what),
        price_option(t, i + 3) == Ok::<(Option<nat>, int), Failure>((deliver.price, p)),
        dir_arg(t, p) == Ok::<(DirView, int), Failure>((deliver.who, p + 8)),
        split_option(t, p + 8) == Ok::<(Option<RatioView>, int), Failure>((deliver.split, end)),
    ensures
        statement(t, i) == Ok::<(StmtView, int), Failure>((StmtView::Deliver(deliver), end)),
{
    reveal_with_fuel(skip_space, 2);
    if deliver.what is Id {
        lemma_barcode_of(deliver.what->Id_0);
    }
    assert(product(t, i + 2) == Ok::<(ProductView, int), Failure>((deliver.what, i + 3)));
    assert(space(t, i + 1) == Ok::<int, Failure>(i + 2));
}

proof fn lemma_deliver_read(t: Seq<TokenView>, i: int, deliver: DeliverView)
    requires
        deliver.what is Id ==> deliver.what->Id_0 <= GTIN_MAX,
        deliver_stands(t, i, deliver),
        ends(t, i + written_len(StmtView::Deliver(deliver))),
    ensures
        statement(t, i) == Ok::<(StmtView, int), Failure>(
            (StmtView::Deliver(deliver), i + written_len(StmtView::Deliver(deliver))),
        ),
{
    lemma_deliver_price(t, i, deliver);
    lemma_deliver_who(t, i, deliver);
    lemma_deliver_split(t, i, deliver);
    lemma_deliver_tokens(
        t,
        i,
        deliver,
        i + 3 + option_len(deliver.price, 4),
        i + written_len(StmtView::Deliver(deliver)),
    );
}

/// A statement is read from where it stands, up to where it ends.
pub proof fn lemma_stands_read(t: Seq<TokenView>, i: int, stmt: StmtView)
    requires
        barcodes_fit(stmt),
        stands(t, i, stmt),
        ends(t, i + written_len(stmt)),
    ensures
        statement(t, i) == Ok::<(StmtView, int), Failure>((stmt, i + written_len(stmt))),
{
    match stmt {
        StmtView::CreateEntity(name) => lemma_entity_read(t, i, name),
        StmtView::CreateObject(object) => {
            lemma_parent_read(t, i + 5, object.parent);
            lemma_object_read(t, i, object);
        },
        StmtView::CreateConcept(concept) => {
            lemma_concept_options(t, i, concept);
            lemma_concept_read(t, i, concept);
        },
        StmtView::Pay(pay) => lemma_pay_read(t, i, pay),
        StmtView::Deliver(deliver) => lemma_deliver_read(t, i, deliver),
        StmtView::Balance(between) => lemma_balance_read(t, i, between),
    }
}

/// An argument that may be left out stands where it is written.
proof fn lemma_option_layout(
    front: Seq<TokenView>,
    word: Seq<char>,
    value: Option<Seq<TokenView>>,
    back: Seq<TokenView>,
)
    ensures
        ({
            let t = front + written_option(word, value) + back;
            let i = front.len() as int;
            value is Some ==> {
                &&& t[i] == TokenView::Whitespace
                &&& t[i + 1] == TokenView::Ident(word)
                &&& t[i + 2] == TokenView::Whitespace
                &&& forall|k: int|
                    0 <= k < value->0.len() ==> t[i + 3 + k] == #[trigger] value->0[k]
            }
        }),
        written_option(word, value).len() == if value is Some {
            3 + value->0.len()
        } else {
            0
        },
{
    let w = written_option(word, value);
    let t = front + w + back;
    let i = front.len() as int;
    if value is Some {
        assert(t[i] == w[0] && t[i + 1] == w[1] && t[i + 2] == w[2]);
        assert forall|k: int| 0 <= k < value->0.len() implies t[i + 3 + k]
            == #[trigger] value->0[k] by {
            assert(t[i + 3 + k] == w[3 + k]);
        }
    }
}

/// A direction stands where it is written.
proof fn lemma_dir_layout(front: Seq<TokenView>, d: DirView, back: Seq<TokenView>)
    ensures
        dir_stands(front + written_dir(d) + back, front.len() as int, d),
{
    let t = front + written_dir(d) + back;
    let w = written_dir(d);
    let i = front.len() as int;
    assert(t[i] == w[0] && t[i + 1] == w[1] && t[i + 2] == w[2] && t[i + 3] == w[3] && t[i + 4]
        == w[4] && t[i + 5] == w[5] && t[i + 6] == w[6]);
}

proof fn lemma_object_layout(object: ObjectView)
    ensures
        stands(written(StmtView::CreateObject(object)), 0, StmtView::CreateObject(object)),
        written(StmtView::CreateObject(object)).len() == written_len(
            StmtView::CreateObject(object),
        ),
{
    let t = written(StmtView::CreateObject(object));
    let head = seq![
        TokenView::Create,
        TokenView::Whitespace,
        TokenView::Ident("object"@),
        TokenView::Whitespace,
        TokenView::Ident(object.name),
    ];
    let parent = written_name(object.parent);
    assert(t == head + written_option("parent"@, parent) + Seq::<TokenView>::empty());
    lemma_option_layout(head, "parent"@, parent, Seq::empty());
    assert(t[0] == head[0] && t[1] == head[1] && t[2] == head[2] && t[3] == head[3] && t[4]
        == head[4]);
    if object.parent is Some {
        assert(t[8] == parent->0[0]);
    }
}

proof fn lemma_concept_layout(concept: ConceptView)
    ensures
        stands(written(StmtView::CreateConcept(concept)), 0, StmtView::CreateConcept(concept)),
        written(StmtView::CreateConcept(concept)).len() == written_len(
            StmtView::CreateConcept(concept),
        ),
{
    let t = written(StmtView::CreateConcept(concept));
    let head = seq![
        TokenView::Create,
        TokenView::Whitespace,
        TokenView::Ident("concept"@),
        TokenView::Whitespace,
        TokenView::Ident(concept.name),
    ];
    let price = written_money(concept.default_price);
    let code = written_gtin(concept.gtin);
    let price_tokens = written_option("price"@, price);
    let code_tokens = written_option("gtin"@, code);
    assert(t == head + price_tokens + code_tokens);
    assert(t == (head + price_tokens) + code_tokens + Seq::<TokenView>::empty());
    lemma_option_layout(head, "price"@, price, code_tokens);
    lemma_option_layout(head + price_tokens, "gtin"@, code, Seq::empty());
    assert(t[0] == head[0] && t[1] == head[1] && t[2] == head[2] && t[3] == head[3] && t[4]
        == head[4]);
    let p = 5 + option_len(concept.default_price, 4);
    if concept.default_price is Some {
        assert(t[8] == price->0[0]);
    }
    if concept.gtin is Some {
        assert(t[p + 3] == code->0[0]);
    }
}

proof fn lemma_pay_layout(pay: PayView)
    ensures
        stands(written(StmtView::Pay(pay)), 0, StmtView::Pay(pay)),
        written(StmtView::Pay(pay)).len() == 11,
{
    let t = written(StmtView::Pay(pay));
    let head = seq![
        TokenView::Pay,
        TokenView::Whitespace,
        TokenView::Integer(digits_of(pay.amount)),
        TokenView::Whitespace,
    ];
    assert(t == head + written_dir(pay.who) + Seq::<TokenView>::empty());
    lemma_dir_layout(head, pay.who, Seq::empty());
    assert(t[0] == head[0] && t[1] == head[1] && t[2] == head[2] && t[3] == head[3]);
}

proof fn lemma_balance_layout(between: DirView)
    ensures
        stands(written(StmtView::Balance(between)), 0, StmtView::Balance(between)),
        written(StmtView::Balance(between)).len() == 9,
{
    let t = written(StmtView::Balance(between));
    let head = seq![TokenView::Balance, TokenView::Whitespace];
    assert(t == head + written_dir(between) + Seq::<TokenView>::empty());
    lemma_dir_layout(head, between, Seq::empty());
    assert(t[0] == head[0] && t[1] == head[1]);
}

proof fn lemma_deliver_layout(deliver: DeliverView)
    ensures
        deliver_stands(written(StmtView::Deliver(deliver)), 0, deliver),
        written(StmtView::Deliver(deliver)).len() == written_len(StmtView::Deliver(deliver)),
{
    let t = written(StmtView::Deliver(deliver));
    let head = seq![TokenView::Deliver, TokenView::Whitespace, written_product(deliver.what)];
    let price = written_money(deliver.price);
    let shares = written_split(deliver.split);
    let price_tokens = written_option("price"@, price);
    let gap = seq![TokenView::Whitespace];
    let who = written_dir(deliver.who);
    let share_tokens = written_option("split"@, shares);
    assert(t == head + price_tokens + gap + who + share_tokens);
    assert(t == head + price_tokens + (gap + who + share_tokens));
    assert(t == (head + price_tokens + gap) + who + share_tokens);
    assert(t == (head + price_tokens + gap + who) + share_tokens + Seq::<TokenView>::empty());
    lemma_option_layout(head, "price"@, price, gap + who + share_tokens);
    lemma_dir_layout(head + price_tokens + gap, deliver.who, share_tokens);
    lemma_option_layout(head + price_tokens + gap + who, "split"@, shares, Seq::empty());
    let p = 3 + option_len(deliver.price, 4);
    assert(t[0] == head[0] && t[1] == head[1] && t[2] == head[2]);
    assert(t[p] == gap[0]);
    if deliver.price is Some {
        assert(t[6] == price->0[0]);
    }
    if deliver.split is Some {
        assert(t[p + 11] == shares->0[0]);
        assert(t[p + 12] == shares->0[1]);
        assert(t[p + 13] == shares->0[2]);
    }
}

/// The parts of a statement stand where they are written.
pub proof fn lemma_written_stands(stmt: StmtView)
    ensures
        stands(written(stmt), 0, stmt),
        written(stmt).len() == written_len(stmt),
{
    match stmt {
        StmtView::CreateEntity(name) => {},
        StmtView::CreateObject(object) => lemma_object_layout(object),
        StmtView::CreateConcept(concept) => lemma_concept_layout(concept),
        StmtView::Pay(pay) => lemma_pay_layout(pay),
        StmtView::Deliver(deliver) => lemma_deliver_layout(deliver),
        StmtView::Balance(between) => lemma_balance_layout(between),
    }
}

/// What is written is what is read: the grammar reads each statement
/// back from its written form, and uses all of it.
pub proof fn lemma_written_is_read(stmt: StmtView)
    requires
        barcodes_fit(stmt),
    ensures
        statement(written(stmt), 0) == Ok::<(StmtView, int), Failure>(
            (stmt, written(stmt).len() as int),
        ),
{
    lemma_written_stands(stmt);
    lemma_stands_read(written(stmt), 0, stmt);
}

/// What stands in a list of tokens stands in a longer one, further on.
proof fn lemma_stands_within(
    front: Seq<TokenView>,
    w: Seq<TokenView>,
    back: Seq<TokenView>,
    stmt: StmtView,
)
    requires
        stands(w, 0, stmt),
        w.len() == written_len(stmt),
    ensures
        stands(front + w + back, front.len() as int, stmt),
{
    let t = front + w + back;
    let i = front.len() as int;
    assert forall|k: int| 0 <= k < w.len() implies #[trigger] t[i + k] == w[k] by {}
    assert(forall|k: int| i <= k < i + w.len() ==> t[k] == w[k - i]) by {
        assert forall|k: int| i <= k < i + w.len() implies t[k] == w[k - i] by {
            assert(t[i + (k - i)] == w[k - i]);
        }
    }
}

/// A statement starts with its command, which is neither whitespace
/// nor a delimiter.
proof fn lemma_stands_starts(t: Seq<TokenView>, i: int, stmt: StmtView)
    requires
        stands(t, i, stmt),
    ensures
        skip_blank(t, i) == i,
        0 <= i < t.len(),
{
}

/// A delimiter in front of a script changes nothing of it.
proof fn lemma_delimiter_skipped(t: Seq<TokenView>, m: int)
    requires
        is_delimiter(t, m),
    ensures
        script_from(t, m) == script_from(t, m + 1),
{
    assert(skip_blank(t, m) == skip_blank(t, m + 1));
    crate::syntax::grammar::lemma_skip_blank(t, m + 1);
}

/// The step from a statement to the script that starts with it.
proof fn lemma_script_step(t: Seq<TokenView>, i: int, stmt: StmtView, rest: Seq<StmtView>)
    requires
        0 <= i < t.len(),
        skip_blank(t, i) == i,
        written_len(stmt) > 0,
        i + written_len(stmt) < t.len(),
        statement(t, i) == Ok::<(StmtView, int), Failure>((stmt, i + written_len(stmt))),
        t[i + written_len(stmt)] == TokenView::Newline,
        script_from(t, i + written_len(stmt) + 1) == Ok::<Seq<StmtView>, Failure>(rest),
    ensures
        script_from(t, i) == Ok::<Seq<StmtView>, Failure>(seq![stmt] + rest),
{
    let m = i + written_len(stmt);
    assert(skip_space(t, m) == m);
    lemma_delimiter_skipped(t, m);
}

/// Whether the statements are read from the tokens, from `i` on.
#[verifier::opaque]
pub open spec fn reads(t: Seq<TokenView>, i: int, stmts: Seq<StmtView>) -> bool {
    script_from(t, i) == Ok::<Seq<StmtView>, Failure>(stmts)
}

/// A statement is read from where it stands on a line of its own,
/// and the script goes on behind the line.
proof fn lemma_script_cons(t: Seq<TokenView>, i: int, stmt: StmtView, rest: Seq<StmtView>)
    requires
        barcodes_fit(stmt),
        stands(t, i, stmt),
        i + written_len(stmt) < t.len(),
        t[i + written_len(stmt)] == TokenView::Newline,
        reads(t, i + written_len(stmt) + 1, rest),
    ensures
        reads(t, i, seq![stmt] + rest),
{
    reveal(reads);
    lemma_stands_starts(t, i, stmt);
    lemma_stands_read(t, i, stmt);
    lemma_script_step(t, i, stmt, rest);
}

/// Where nothing is written, nothing is read.
proof fn lemma_script_end(t: Seq<TokenView>)
    ensures
        reads(t, t.len() as int, Seq::empty()),
{
    reveal(reads);
    assert(skip_blank(t, t.len() as int) == t.len());
}

/// Where a statement and its line stand in front of more tokens.
proof fn lemma_line_layout(front: Seq<TokenView>, stmt: StmtView, more: Seq<TokenView>)
    ensures
        ({
            let t = front + (written(stmt) + seq![TokenView::Newline] + more);
            let i = front.len() as int;
            &&& stands(t, i, stmt)
            &&& i + written_len(stmt) < t.len()
            &&& t[i + written_len(stmt)] == TokenView::Newline
            &&& t == (front + written(stmt) + seq![TokenView::Newline]) + more
            &&& (front + written(stmt) + seq![TokenView::Newline]).len() == i + written_len(stmt)
                + 1
        }),
{
    let w = written(stmt);
    let line = seq![TokenView::Newline];
    let back = line + more;
    let t = front + (w + line + more);
    assert(t == front + w + back);
    assert(t == (front + w + line) + more);
    lemma_written_stands(stmt);
    lemma_stands_within(front, w, back, stmt);
    assert(t[front.len() as int + w.len()] == back[0]);
}

/// A script is read from where it is written, whatever stands in
/// front of it.
proof fn lemma_script_read(front: Seq<TokenView>, stmts: Seq<StmtView>)
    requires
        forall|k: int| 0 <= k < stmts.len() ==> barcodes_fit(#[trigger] stmts[k]),
    ensures
        reads(front + written_script(stmts), front.len() as int, stmts),
    decreases stmts.len(),
{
    let t = front + written_script(stmts);
    let i = front.len() as int;
    if stmts.len() == 0 {
        assert(t == front);
        assert(stmts == Seq::<StmtView>::empty());
        lemma_script_end(t);
    } else {
        let stmt = stmts[0];
        let rest = stmts.drop_first();
        let more = written_script(rest);
        assert(barcodes_fit(stmt));
        assert forall|k: int| 0 <= k < rest.len() implies barcodes_fit(#[trigger] rest[k]) by {
            assert(rest[k] == stmts[k + 1]);
        }
        lemma_line_layout(front, stmt, more);
        lemma_script_read(front + written(stmt) + seq![TokenView::Newline], rest);
        lemma_script_cons(t, i, stmt, rest);
        assert(seq![stmt] + rest == stmts);
    }
}

/// What is written is what is read: the grammar reads every script
/// back from its written form.
pub proof fn lemma_written_script_is_read(stmts: Seq<StmtView>)
    requires
        forall|k: int| 0 <= k < stmts.len() ==> barcodes_fit(#[trigger] stmts[k]),
    ensures
        script_from(written_script(stmts), 0) == Ok::<Seq<StmtView>, Failure>(stmts),
{
    reveal(reads);
    assert(Seq::<TokenView>::empty() + written_script(stmts) == written_script(stmts));
    lemma_script_read(Seq::empty(), stmts);
}

} // verus!
