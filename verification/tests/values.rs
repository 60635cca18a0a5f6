use ledger_lang::ext::big::{Integer, Natural};
use ledger_lang::ext::text::{
    char_width, chars_of, digit_of, digits_only, natural_of_digits, parse_u64, string_of, text_is,
    DecimalError,
};
use ledger_lang::ext::{digits, Balance, Gtin, GtinParseError, Money, TooLongError, GTIN_MAX};
use ledger_lang::runtime::error::BothZero;
use ledger_lang::runtime::model::{Entity, Ratio};
use ledger_lang::runtime::name::Name;
use ledger_lang::runtime::table::{Key, Table};
use ledger_lang::eval;

fn natural(n: u64) -> Natural {
    Natural::from(n)
}

#[test]
fn gtin_has_at_most_fourteen_digits() {
    assert_eq!(GTIN_MAX, 10u64.pow(14) - 1);
    assert_eq!(Gtin::new(0).unwrap().get(), 0);
    assert_eq!(Gtin::new(12345678).unwrap().get(), 12345678);
    assert_eq!(Gtin::new(GTIN_MAX).unwrap().get(), GTIN_MAX);
    assert_eq!(
        Gtin::new(GTIN_MAX + 1),
        Err(TooLongError {
            orig: 100_000_000_000_000,
            n: 15
        })
    );
    assert_eq!(
        Gtin::new(u64::MAX),
        Err(TooLongError {
            orig: u64::MAX,
            n: 20
        })
    );
    // a short barcode has zeroes in front, which do not count
    assert_eq!(Gtin::new(4029764001807).unwrap().digits(), 13);
    assert_eq!(Gtin::new(0).unwrap().digits(), 1);
}

#[test]
fn gtin_from_text() {
    assert_eq!(Gtin::from_str("12345678").unwrap().get(), 12345678);
    assert_eq!(Gtin::from_str("00012345678").unwrap().get(), 12345678);
    assert_eq!(Gtin::from_str("+12345678").unwrap().get(), 12345678);
    assert_eq!(Gtin::from_str("7").unwrap().get(), 7);
    assert_eq!("4029764001807".parse::<Gtin>().unwrap().get(), 4029764001807);
    assert_eq!(
        "x".parse::<Gtin>(),
        Err(GtinParseError::ExpectedInteger(DecimalError::InvalidDigit))
    );
    assert_eq!(
        Gtin::from_str(""),
        Err(GtinParseError::ExpectedInteger(DecimalError::Empty))
    );
    assert_eq!(
        Gtin::from_str("+"),
        Err(GtinParseError::ExpectedInteger(DecimalError::InvalidDigit))
    );
    assert_eq!(
        Gtin::from_str("1234 678"),
        Err(GtinParseError::ExpectedInteger(DecimalError::InvalidDigit))
    );
    assert_eq!(
        Gtin::from_str("-12345678"),
        Err(GtinParseError::ExpectedInteger(DecimalError::InvalidDigit))
    );
    assert_eq!(
        Gtin::from_str("18446744073709551616"),
        Err(GtinParseError::ExpectedInteger(DecimalError::Overflow))
    );
    assert_eq!(
        Gtin::from_str("123456789012345"),
        Err(GtinParseError::TooLong(TooLongError {
            orig: 123456789012345,
            n: 15
        }))
    );
}

#[test]
fn digits_counts_base_ten() {
    assert_eq!(digits(0), 1);
    assert_eq!(digits(9), 1);
    assert_eq!(digits(10), 2);
    assert_eq!(digits(99), 2);
    assert_eq!(digits(100), 3);
    assert_eq!(digits(99_999_999_999_999), 14);
    assert_eq!(digits(100_000_000_000_000), 15);
    assert_eq!(digits(u64::MAX), 20);
}

#[test]
fn numbers_of_64_bits() {
    let read = |s: &str| parse_u64(&chars_of(s));
    assert_eq!(read("0"), Ok(0));
    assert_eq!(read("007"), Ok(7));
    assert_eq!(read("+42"), Ok(42));
    assert_eq!(read("18446744073709551615"), Ok(u64::MAX));
    assert_eq!(read("18446744073709551616"), Err(DecimalError::Overflow));
    assert_eq!(read("99999999999999999999"), Err(DecimalError::Overflow));
    assert_eq!(read(""), Err(DecimalError::Empty));
    assert_eq!(read("+"), Err(DecimalError::InvalidDigit));
    assert_eq!(read("++1"), Err(DecimalError::InvalidDigit));
    assert_eq!(read("1_000"), Err(DecimalError::InvalidDigit));
    assert_eq!(read(" 1"), Err(DecimalError::InvalidDigit));
    assert_eq!(read("١"), Err(DecimalError::InvalidDigit));
}

#[test]
fn money_arithmetic() {
    let five = Money::from_cents(5);
    let seven = Money::from_cents(7);
    assert_eq!(five, Money(natural(5)));
    assert_eq!(Money::from_cents(0), Money(natural(0)));
    assert_eq!(five.add(&seven), Money(natural(12)));
    assert_eq!(seven.sub(&five), Money(natural(2)));
    assert_eq!(seven.sub(&seven), Money(natural(0)));
    assert!(five.same(&Money(natural(5))));
    assert!(!five.same(&seven));
    assert_eq!(five.clone(), five);
    assert!(five.at_most(&seven));
    assert!(five.at_most(&five));
    assert!(!seven.at_most(&five));
    assert_eq!(seven.checked_sub(&five), Some(Money(natural(2))));
    assert_eq!(five.checked_sub(&five), Some(Money(natural(0))));
    assert_eq!(five.checked_sub(&seven), None);

    // beyond 64 bits
    let big = Money::from_cents(u64::MAX);
    assert_eq!(
        big.add(&big),
        Money(Natural::from(u64::MAX as u128 * 2))
    );
}

#[test]
fn balance_arithmetic() {
    let owed = Balance::from_cents(-250);
    assert_eq!(owed, Balance(Integer::from(-250)));
    assert_eq!(Balance::zero(), Balance(Integer::from(0)));
    assert_eq!(
        Balance::from_money(Money::from_cents(9)),
        Balance(Integer::from(9))
    );
    assert_eq!(Balance::from(Money::from_cents(9)), Balance(Integer::from(9)));
    assert!(owed.is_negative());
    assert!(!Balance::zero().is_negative());
    assert!(!Balance::from_cents(1).is_negative());
    assert_eq!(owed.abs(), Money::from_cents(250));
    assert_eq!(Balance::from_cents(250).abs(), Money::from_cents(250));
    assert_eq!(Balance::zero().abs(), Money::from_cents(0));

    let mut flipped = owed.clone();
    flipped.flip();
    assert_eq!(flipped, Balance::from_cents(250));
    flipped.flip();
    assert_eq!(flipped, owed);
    let mut zero = Balance::zero();
    zero.flip();
    assert_eq!(zero, Balance::zero());

    assert_eq!(owed.add(&Balance::from_cents(100)), Balance::from_cents(-150));
    assert_eq!(owed.sub(&Balance::from_cents(100)), Balance::from_cents(-350));
    assert_eq!(owed.sub(&owed), Balance::zero());
    assert!(owed.same(&Balance::from_cents(-250)));
    assert!(!owed.same(&Balance::from_cents(250)));
}

#[test]
fn ratio_splits() {
    let split = |s: u64, t: u64, full: u64| {
        Ratio::new(natural(s), natural(t))
            .unwrap()
            .split(Money::from_cents(full))
    };
    let parts = |s: u64, t: u64| (Money::from_cents(s), Money::from_cents(t));

    assert_eq!(split(1, 1, 10), parts(5, 5));
    assert_eq!(split(1, 1, 11), parts(5, 6));
    assert_eq!(split(3, 4, 10), parts(4, 6));
    assert_eq!(split(2, 1, 100), parts(66, 34));
    assert_eq!(split(1, 2, 100), parts(33, 67));
    assert_eq!(split(1, 0, 99), parts(99, 0));
    assert_eq!(split(0, 1, 99), parts(0, 99));
    assert_eq!(split(7, 3, 0), parts(0, 0));
    assert_eq!(split(1, 999, 998), parts(0, 998));

    assert_eq!(Ratio::new(natural(0), natural(0)), Err(BothZero));
    assert_eq!(Ratio::new(natural(2), natural(3)).unwrap().denominator(), natural(5));
    assert_eq!(Ratio::default(), Ratio::new(natural(0), natural(1)).unwrap());
    assert_eq!(
        Ratio::default().split(Money::from_cents(123)),
        parts(0, 123)
    );

    // the parts are the whole, whatever the numbers
    for (s, t) in [(1u64, 3u64), (5, 2), (13, 7), (1, 1), (1000, 1)] {
        for full in [0u64, 1, 2, 99, 100, 101, 12345] {
            let (source, target) = split(s, t, full);
            assert_eq!(source.add(&target), Money::from_cents(full));
            assert_eq!(source, Money::from_cents(full * s / (s + t)));
        }
    }
}

#[test]
fn names_compare() {
    let ann = Name::new("Ann");
    assert_eq!(ann.as_str(), "Ann");
    assert!(ann.is("Ann"));
    assert!(!ann.is("Anna"));
    assert!(!ann.is("ann"));
    assert!(!ann.is(""));
    assert!(Name::new("").is(""));
    assert!(ann.same(&Name::new("Ann")));
    assert!(!ann.same(&Name::new("Bob")));
    assert_eq!(ann.clone(), ann);

    let before = |a: &str, b: &str| Name::new(a).sorts_before(&Name::new(b));
    assert!(before("Ann", "Bob"));
    assert!(!before("Bob", "Ann"));
    assert!(!before("Ann", "Ann"));
    assert!(before("", "A"));
    assert!(!before("A", ""));
    assert!(before("Ann", "Anna"));
    assert!(before("Z", "a"));
    assert!(before("z", "é"));
    // as `String` has it
    for (a, b) in [("Ann", "Bob"), ("é", "z"), ("Ab", "A"), ("日本", "日本語"), ("x", "x")] {
        assert_eq!(before(a, b), a.to_string() < b.to_string());
    }
}

#[test]
fn text_helpers() {
    assert!(text_is("", ""));
    assert!(text_is("grün", "grün"));
    assert!(!text_is("grün", "grun"));
    assert!(!text_is("a", "ab"));

    assert_eq!(char_width('a'), 1);
    assert_eq!(char_width('\u{7f}'), 1);
    assert_eq!(char_width('é'), 2);
    assert_eq!(char_width('¢'), 2);
    assert_eq!(char_width('€'), 3);
    assert_eq!(char_width('✨'), 3);
    assert_eq!(char_width('😀'), 4);
    for c in ['a', 'é', '€', '😀', '\0', '\u{7ff}', '\u{800}', '\u{ffff}', '\u{10000}'] {
        assert_eq!(char_width(c), c.len_utf8());
    }

    let chars = chars_of("1€ = 100¢");
    assert_eq!(chars, "1€ = 100¢".chars().collect::<Vec<_>>());
    assert_eq!(string_of(&chars, 0, 2), "1€");
    assert_eq!(string_of(&chars, 5, 9), "100¢");
    assert_eq!(string_of(&chars, 3, 3), "");

    assert_eq!(digit_of('0'), Some(0));
    assert_eq!(digit_of('9'), Some(9));
    assert_eq!(digit_of('a'), None);
    assert_eq!(digit_of('/'), None);
    assert_eq!(digit_of(':'), None);
    assert_eq!(digit_of('٣'), None);

    assert!(digits_only(&chars, 5, 8));
    assert!(!digits_only(&chars, 5, 9));
    assert!(digits_only(&chars, 2, 2));
    assert_eq!(natural_of_digits(&chars, 5, 8), natural(100));
    assert_eq!(natural_of_digits(&chars, 5, 5), natural(0));
    let long = chars_of("340282366920938463463374607431768211456");
    assert_eq!(
        natural_of_digits(&long, 0, long.len()),
        Natural::from(u128::MAX) + 1u8
    );
}

fn entity(name: &str) -> Entity {
    eval(&format!("create entity {name}"))
        .unwrap()
        .state()
        .get_entity(name)
        .unwrap()
        .clone()
}

#[test]
fn table_keeps_one_value_for_each_key() {
    let mut table: Table<Name, Entity> = Table::new();
    assert_eq!(table.len(), 0);
    assert!(table.get(&Name::new("a")).is_none());

    table.insert(Name::new("a"), entity("first"));
    table.insert(Name::new("b"), entity("second"));
    assert_eq!(table.len(), 2);
    assert_eq!(table.get(&Name::new("a")).unwrap().name(), "first");
    assert_eq!(table.get(&Name::new("b")).unwrap().name(), "second");
    assert!(table.get(&Name::new("c")).is_none());

    // a value under a key that is there replaces what was there
    table.insert(Name::new("a"), entity("third"));
    assert_eq!(table.len(), 2);
    assert_eq!(table.get(&Name::new("a")).unwrap().name(), "third");
    assert_eq!(table.get(&Name::new("b")).unwrap().name(), "second");
    assert_eq!(table.entry(0).0, Name::new("a"));
    assert_eq!(table.entry(0).1.name(), "third");
    assert_eq!(table.entry(1).0, Name::new("b"));
}

#[test]
fn entities_are_their_names() {
    let a = entity("A");
    assert_eq!(a.name(), "A");
    assert!(a.same(&entity("A")));
    assert!(!a.same(&entity("B")));
    assert_eq!(a.clone(), a);
}
