use ledger_lang::ext::big::Natural;
use ledger_lang::ext::{Gtin, Money};
use ledger_lang::syntax::ast::{Deliver, Dir, Ident, Pay, Product, Script};
use ledger_lang::syntax::lex::{lex, Token};
use ledger_lang::syntax::parse::{deliver, money, parse, pay};
use ledger_lang::syntax::ast::{
    Actor, Analyze, Balance, Concept, Create, Entity, Object, Ratio, Stmt, Transfer,
};
use ledger_lang::syntax::grammar::Expected;
use ledger_lang::syntax::lex::{next_token, Span, Spanned};
use ledger_lang::syntax::parse::{parse_tokens, SyntaxError};

fn ident(text: &str) -> Ident {
    Ident::new(text.to_string())
}

fn kinds(src: &str) -> Vec<Token> {
    lex(src).into_iter().map(|t| t.token).collect()
}

#[test]
fn tests_basic() {
    let a = || ident("A");
    let b = || ident("B");
    let gtin = 12345678901234u64;

    // a comment runs to the end of its line, whatever stands in it
    assert_eq!(
        kinds("# this is a comment with ✨ special ✨ emojis\nabc"),
        vec![Token::Comment, Token::Newline, Token::Ident("abc".to_string())],
    );
    assert_eq!(
        kinds("# this is one single comment — even with ✨ special ✨ emojis"),
        vec![Token::Comment],
    );
    assert_eq!(
        parse("# this is one single comment — even with ✨ special ✨ emojis"),
        Ok(Script(vec![])),
    );

    assert_eq!(
        pay("pay 30ct from A to B"),
        Ok(Pay {
            amount: Money(30u8.into()),
            who: Dir { from: a(), to: b() },
        }),
    );

    assert_eq!(
        deliver(&format!("deliver {gtin} price 1€ from A to B")),
        Ok(Deliver {
            what: Product::Id(Gtin::new(gtin).unwrap()),
            who: Dir { from: a(), to: b() },
            price: Some(Money(100u8.into())),
            split: None,
        }),
    );
}

#[test]
fn tests_stonks() {
    // all of these should be the same!
    for src in ["1337", "1337¢", "1337 ct", "13.37€"] {
        assert_eq!(money(src), Ok(Money(1337u16.into())));
    }

    // what about a non-fractional euro?
    assert_eq!(money("1 EUR"), Ok(Money(100u16.into())));

    // what about absurdly large numbers?
    let src = u128::MAX.to_string();
    assert_eq!(money(&src), Ok(Money(u128::MAX.into())));
}


fn word(text: &str) -> Token {
    Token::Ident(text.to_string())
}

fn whole(text: &str) -> Token {
    Token::Integer(text.to_string())
}

fn cents(n: u64) -> Money {
    Money::from_cents(n)
}

fn dir(from: &str, to: &str) -> Dir {
    Dir {
        from: ident(from),
        to: ident(to),
    }
}

fn refused(src: &str) -> (Expected, Option<Token>, (usize, usize)) {
    let e = parse(src).unwrap_err();
    (e.expected, e.found, (e.span.start, e.span.end))
}

#[test]
fn tokens_of_a_payment() {
    assert_eq!(
        lex("pay 1€ from A to B"),
        vec![
            Spanned { token: Token::Pay, span: Span { start: 0, end: 3 } },
            Spanned { token: Token::Whitespace, span: Span { start: 3, end: 4 } },
            Spanned { token: whole("1"), span: Span { start: 4, end: 5 } },
            // the euro sign has three bytes
            Spanned { token: Token::SignEuro, span: Span { start: 5, end: 8 } },
            Spanned { token: Token::Whitespace, span: Span { start: 8, end: 9 } },
            Spanned { token: word("from"), span: Span { start: 9, end: 13 } },
            Spanned { token: Token::Whitespace, span: Span { start: 13, end: 14 } },
            Spanned { token: word("A"), span: Span { start: 14, end: 15 } },
            Spanned { token: Token::Whitespace, span: Span { start: 15, end: 16 } },
            Spanned { token: word("to"), span: Span { start: 16, end: 18 } },
            Spanned { token: Token::Whitespace, span: Span { start: 18, end: 19 } },
            Spanned { token: word("B"), span: Span { start: 19, end: 20 } },
        ],
    );
    assert_eq!(lex(""), vec![]);
}

#[test]
fn words_are_taken_whole() {
    assert_eq!(kinds("create"), vec![Token::Create]);
    assert_eq!(kinds("created"), vec![word("created")]);
    assert_eq!(kinds("Create"), vec![word("Create")]);
    assert_eq!(kinds("pay"), vec![Token::Pay]);
    assert_eq!(kinds("payer"), vec![word("payer")]);
    assert_eq!(kinds("deliver"), vec![Token::Deliver]);
    assert_eq!(kinds("balance"), vec![Token::Balance]);
    assert_eq!(kinds("bal"), vec![Token::Balance]);
    assert_eq!(kinds("bala"), vec![word("bala")]);
    assert_eq!(kinds("balanced"), vec![word("balanced")]);
    for euro in ["eur", "eurs", "EUR", "€"] {
        assert_eq!(kinds(euro), vec![Token::SignEuro]);
    }
    for cent in ["cent", "cents", "ct", "¢"] {
        assert_eq!(kinds(cent), vec![Token::SignCent]);
    }
    assert_eq!(kinds("euro"), vec![word("euro")]);
    assert_eq!(kinds("Eur"), vec![word("Eur")]);
    assert_eq!(kinds("cts"), vec![word("cts")]);
    // the words of the arguments are names like any other
    for text in ["entity", "concept", "object", "price", "gtin", "parent", "from", "to", "split"] {
        assert_eq!(kinds(text), vec![word(text)]);
    }
}

#[test]
fn names_are_unicode_identifiers() {
    assert_eq!(kinds("Émile"), vec![word("Émile")]);
    assert_eq!(kinds("Jean-Luc"), vec![word("Jean-Luc")]);
    assert_eq!(kinds("日本語"), vec![word("日本語")]);
    assert_eq!(kinds("a1_b2"), vec![word("a1_b2")]);
    assert_eq!(kinds("x-"), vec![word("x-")]);
    // neither a hyphen, an underscore nor a digit starts a name
    assert_eq!(kinds("-x"), vec![Token::Error, word("x")]);
    assert_eq!(kinds("_x"), vec![Token::Error, word("x")]);
    assert_eq!(kinds("1x"), vec![whole("1"), word("x")]);
    // and nothing else that is no letter
    assert_eq!(kinds("✨"), vec![Token::Error]);
    assert_eq!(kinds("a✨b"), vec![word("a"), Token::Error, word("b")]);
    assert_eq!(kinds("a=b"), vec![word("a"), Token::Error, word("b")]);
    // a combining mark goes on with a name, but starts none
    assert_eq!(kinds("e\u{301}"), vec![word("e\u{301}")]);
    assert_eq!(kinds("\u{301}e"), vec![Token::Error, word("e")]);
}

#[test]
fn numbers_are_whole_or_have_two_digits_behind_the_dot() {
    let dec = |text: &str| Token::Decimal(text.to_string());
    assert_eq!(kinds("1337"), vec![whole("1337")]);
    assert_eq!(kinds("007"), vec![whole("007")]);
    assert_eq!(kinds("13.37"), vec![dec("13.37")]);
    assert_eq!(kinds("0.00"), vec![dec("0.00")]);
    assert_eq!(kinds("13.3"), vec![whole("13"), Token::Dot, whole("3")]);
    assert_eq!(kinds("13."), vec![whole("13"), Token::Dot]);
    assert_eq!(kinds("13.375"), vec![dec("13.37"), whole("5")]);
    assert_eq!(kinds(".50"), vec![Token::Dot, whole("50")]);
    assert_eq!(kinds("1.2.3"), vec![whole("1"), Token::Dot, whole("2"), Token::Dot, whole("3")]);
    assert_eq!(kinds("13.37.00"), vec![dec("13.37"), Token::Dot, whole("00")]);
    assert_eq!(kinds("-5"), vec![Token::Error, whole("5")]);
    assert_eq!(kinds("30ct"), vec![whole("30"), Token::SignCent]);
    assert_eq!(kinds("3:4"), vec![whole("3"), Token::Colon, whole("4")]);
    // other scripts' digits are no digits here
    assert_eq!(kinds("١٢"), vec![Token::Error, Token::Error]);
}

#[test]
fn lines_comments_and_whitespace() {
    assert_eq!(kinds("\n"), vec![Token::Newline]);
    assert_eq!(kinds("\r\n"), vec![Token::Newline]);
    assert_eq!(kinds("\r"), vec![Token::Error]);
    assert_eq!(kinds("\n\n"), vec![Token::Newline, Token::Newline]);
    assert_eq!(kinds(" \t  "), vec![Token::Whitespace]);
    assert_eq!(kinds(" \n "), vec![Token::Whitespace, Token::Newline, Token::Whitespace]);
    assert_eq!(kinds(";"), vec![Token::Semicolon]);
    assert_eq!(kinds("#"), vec![Token::Comment]);
    assert_eq!(kinds("# a ; b # c"), vec![Token::Comment]);
    assert_eq!(kinds("#a\r\n#b"), vec![Token::Comment, Token::Newline, Token::Comment]);
    assert_eq!(kinds("a#b\nc"), vec![word("a"), Token::Comment, Token::Newline, word("c")]);
    // a no-break space is no whitespace
    assert_eq!(kinds("\u{a0}"), vec![Token::Error]);
}

#[test]
fn tokens_lie_end_to_end() {
    for src in [
        "pay 1€ from A to B",
        "create concept Café price 13.37€ gtin 12345678 # ☕\r\n\tbal from Émile to X;;",
        "✨✨ = \r 1.5 €¢ ¢ -- 😀",
        "\n",
        " ",
    ] {
        let tokens = lex(src);
        let mut at = 0;
        for t in &tokens {
            assert_eq!(t.span.start, at);
            assert!(t.span.end > t.span.start);
            assert!(src.is_char_boundary(t.span.end));
            at = t.span.end;
        }
        assert_eq!(at, src.len());

        // lexing can start again at any token
        let chars: Vec<char> = src.chars().collect();
        let mut i = 0;
        let mut again = Vec::new();
        while i < chars.len() {
            let (token, next) = next_token(&chars, i);
            assert!(next > i);
            again.push(token);
            i = next;
        }
        assert_eq!(again, tokens.into_iter().map(|t| t.token).collect::<Vec<_>>());
    }
}

#[test]
fn every_statement() {
    let script = parse(
        "create entity A
         create object O
         create object P parent C
         create concept C
         create concept D price 3.50€
         create concept E gtin 012345678
         create concept F price 99 ct gtin 12345678901234
         pay 5 EUR from A to B
         deliver O from A to B
         deliver 00000042 price 0 from A to B split 1:2
         deliver C from A to B split 3 : 0
         balance from A to B
         bal from B to A",
    )
    .unwrap();

    let create = |who: Actor| Stmt::Create(Create { who });
    let concept = |name: &str, default_price: Option<Money>, gtin: Option<u64>| {
        create(Actor::Concept(Concept {
            name: ident(name),
            default_price,
            gtin: gtin.map(|g| Gtin::new(g).unwrap()),
        }))
    };
    let deliver = |what: Product, price: Option<Money>, split: Option<(u8, u8)>| {
        Stmt::Transfer(Transfer::Deliver(Deliver {
            what,
            who: dir("A", "B"),
            price,
            split: split.map(|(left, right)| Ratio {
                left: left.into(),
                right: right.into(),
            }),
        }))
    };

    assert_eq!(
        script,
        Script(vec![
            create(Actor::Entity(Entity { name: ident("A") })),
            create(Actor::Object(Object { name: ident("O"), parent: None })),
            create(Actor::Object(Object { name: ident("P"), parent: Some(ident("C")) })),
            concept("C", None, None),
            concept("D", Some(cents(350)), None),
            concept("E", None, Some(12345678)),
            concept("F", Some(cents(99)), Some(12345678901234)),
            Stmt::Transfer(Transfer::Pay(Pay { amount: cents(500), who: dir("A", "B") })),
            deliver(Product::Name(ident("O")), None, None),
            deliver(Product::Id(Gtin::new(42).unwrap()), Some(cents(0)), Some((1, 2))),
            deliver(Product::Name(ident("C")), None, Some((3, 0))),
            Stmt::Analyze(Analyze::Balance(Balance { between: dir("A", "B") })),
            Stmt::Analyze(Analyze::Balance(Balance { between: dir("B", "A") })),
        ])
    );
}

#[test]
fn delimiters_may_lead_trail_and_repeat() {
    let one = Script(vec![Stmt::Create(Create {
        who: Actor::Entity(Entity { name: ident("A") }),
    })]);
    for src in [
        "create entity A",
        "create entity A\n",
        "\ncreate entity A",
        "\n\n  \t create entity A  ;; \n # done\n\n",
        ";create entity A;",
        "# first\ncreate entity A # that was it",
        "create   entity \t A",
        "create entity A\r\n",
    ] {
        assert_eq!(parse(src).as_ref(), Ok(&one), "{src:?}");
    }
    for src in ["", "\n", " ", ";;;", "# nothing", " \n\t# nothing\n;"] {
        assert_eq!(parse(src), Ok(Script(vec![])), "{src:?}");
    }

    let two = parse("create entity A;create entity B").unwrap();
    assert_eq!(two.0.len(), 2);
    assert_eq!(parse("create entity A # one\n create entity B").unwrap(), two);
    assert_eq!(parse("create entity A ; \n ; create entity B").unwrap(), two);
}

#[test]
fn words_of_arguments_may_be_names() {
    assert_eq!(
        pay("pay 1 from from to to"),
        Ok(Pay { amount: cents(1), who: dir("from", "to") })
    );
    assert_eq!(
        deliver("deliver price from A to B"),
        Ok(Deliver {
            what: Product::Name(ident("price")),
            who: dir("A", "B"),
            price: None,
            split: None,
        })
    );
    assert_eq!(
        deliver("deliver price price 1 from A to B"),
        Ok(Deliver {
            what: Product::Name(ident("price")),
            who: dir("A", "B"),
            price: Some(cents(1)),
            split: None,
        })
    );
    assert_eq!(
        parse("create object parent parent parent"),
        Ok(Script(vec![Stmt::Create(Create {
            who: Actor::Object(Object {
                name: ident("parent"),
                parent: Some(ident("parent")),
            }),
        })]))
    );
}

#[test]
fn amounts_in_statements() {
    let paid = |src: &str| pay(src).unwrap().amount;
    assert_eq!(paid("pay 30ct from A to B"), cents(30));
    assert_eq!(paid("pay 30 ct from A to B"), cents(30));
    assert_eq!(paid("pay 30 from A to B"), cents(30));
    assert_eq!(paid("pay 30cents from A to B"), cents(30));
    assert_eq!(paid("pay 1 cent from A to B"), cents(1));
    assert_eq!(paid("pay 30€ from A to B"), cents(3000));
    assert_eq!(paid("pay 30 eur from A to B"), cents(3000));
    assert_eq!(paid("pay 2 eurs from A to B"), cents(200));
    assert_eq!(paid("pay 0.05€ from A to B"), cents(5));
    assert_eq!(paid("pay 0.50 € from A to B"), cents(50));
    assert_eq!(paid("pay 007.10 EUR from A to B"), cents(710));
    assert_eq!(paid("pay 0 from A to B"), cents(0));
    assert_eq!(
        paid("pay 340282366920938463463374607431768211456.01€ from A to B"),
        Money((Natural::from(u128::MAX) + 1u8) * 100u8 + 1u8)
    );
}


#[test]
fn each_syntax_error() {
    let found = |t: Token| Some(t);

    assert_eq!(refused("foo"), (Expected::Command, found(word("foo")), (0, 3)));
    assert_eq!(refused("entity A"), (Expected::Command, found(word("entity")), (0, 6)));
    assert_eq!(refused("1"), (Expected::Command, found(whole("1")), (0, 1)));
    assert_eq!(refused("✨"), (Expected::Command, found(Token::Error), (0, 3)));

    assert_eq!(refused("create"), (Expected::Space, None, (6, 6)));
    assert_eq!(refused("pay1"), (Expected::Command, found(word("pay1")), (0, 4)));
    assert_eq!(refused("pay€"), (Expected::Space, found(Token::SignEuro), (3, 6)));
    assert_eq!(refused("pay 1from A to B"), (Expected::Space, found(word("from")), (5, 9)));
    assert_eq!(refused("create entity"), (Expected::Space, None, (13, 13)));
    assert_eq!(refused("pay 1 from A"), (Expected::Space, None, (12, 12)));
    assert_eq!(refused("pay 1€\n"), (Expected::Space, found(Token::Newline), (8, 9)));

    assert_eq!(refused("create thing X"), (Expected::Actor, found(word("thing")), (7, 12)));
    assert_eq!(refused("create 5"), (Expected::Actor, found(whole("5")), (7, 8)));

    assert_eq!(refused("create entity 5"), (Expected::Name, found(whole("5")), (14, 15)));
    assert_eq!(refused("create entity pay"), (Expected::Name, found(Token::Pay), (14, 17)));
    assert_eq!(refused("create entity ct"), (Expected::Name, found(Token::SignCent), (14, 16)));
    assert_eq!(refused("create object O parent "), (Expected::Name, None, (23, 23)));
    assert_eq!(refused("pay 1 from A to ;"), (Expected::Name, found(Token::Semicolon), (16, 17)));

    assert_eq!(refused("pay x from A to B"), (Expected::Amount, found(word("x")), (4, 5)));
    assert_eq!(refused("pay € from A to B"), (Expected::Amount, found(Token::SignEuro), (4, 7)));
    assert_eq!(refused("create concept C price free"), (Expected::Amount, found(word("free")), (23, 27)));

    assert_eq!(refused("pay 1.50 from A to B"), (Expected::Euro, found(word("from")), (9, 13)));
    assert_eq!(refused("pay 1.50ct from A to B"), (Expected::Euro, found(Token::SignCent), (8, 10)));
    assert_eq!(refused("pay 1.50"), (Expected::Euro, None, (8, 8)));

    assert_eq!(refused("create concept C gtin 1234567"), (Expected::Barcode, found(whole("1234567")), (22, 29)));
    assert_eq!(
        refused("create concept C gtin 123456789012345"),
        (Expected::Barcode, found(whole("123456789012345")), (22, 37))
    );
    assert_eq!(refused("create concept C gtin X"), (Expected::Barcode, found(word("X")), (22, 23)));
    assert_eq!(refused("deliver 123 from A to B"), (Expected::Barcode, found(whole("123")), (8, 11)));

    assert_eq!(refused("deliver : from A to B"), (Expected::Product, found(Token::Colon), (8, 9)));
    assert_eq!(refused("deliver 1.50 from A to B"), (
        Expected::Product,
        found(Token::Decimal("1.50".to_string())),
        (8, 12)
    ));

    assert_eq!(refused("pay 1 to A"), (Expected::From, found(word("to")), (6, 8)));
    assert_eq!(refused("balance A B"), (Expected::From, found(word("A")), (8, 9)));
    assert_eq!(refused("deliver X price 1 price 2 from A to B"), (Expected::From, found(word("price")), (18, 23)));

    assert_eq!(refused("pay 1 from A from B"), (Expected::To, found(word("from")), (13, 17)));
    assert_eq!(refused("pay 1 from A B"), (Expected::To, found(word("B")), (13, 14)));

    assert_eq!(refused("deliver X from A to B split a:1"), (Expected::Number, found(word("a")), (28, 29)));
    assert_eq!(refused("deliver X from A to B split 1:"), (Expected::Number, None, (30, 30)));
    assert_eq!(refused("deliver X from A to B split 1:1.50"), (
        Expected::Number,
        found(Token::Decimal("1.50".to_string())),
        (30, 34)
    ));

    assert_eq!(refused("deliver X from A to B split 1 2"), (Expected::Colon, found(whole("2")), (30, 31)));
    assert_eq!(refused("deliver X from A to B split 1"), (Expected::Colon, None, (29, 29)));

    assert_eq!(refused("create entity A B"), (Expected::Delimiter, found(word("B")), (16, 17)));
    assert_eq!(refused("create entity A create entity B"), (Expected::Delimiter, found(Token::Create), (16, 22)));
    assert_eq!(refused("pay 1€ from A to B €"), (Expected::Delimiter, found(Token::SignEuro), (21, 24)));
    assert_eq!(
        refused("create concept X gtin 12345678 price 5"),
        (Expected::Delimiter, found(word("price")), (31, 36))
    );
    // the first error is the one reported
    assert_eq!(refused("create entity A\nnope\nnor this"), (Expected::Command, found(word("nope")), (16, 20)));

    // a single construct has to be all of the text
    let alone = |e: SyntaxError| (e.expected, e.found, (e.span.start, e.span.end));
    assert_eq!(alone(money("1 2").unwrap_err()), (Expected::End, found(Token::Whitespace), (1, 2)));
    assert_eq!(alone(money("1€€").unwrap_err()), (Expected::End, found(Token::SignEuro), (4, 7)));
    assert_eq!(alone(money("").unwrap_err()), (Expected::Amount, None, (0, 0)));
    assert_eq!(alone(money(" 1").unwrap_err()), (Expected::Amount, found(Token::Whitespace), (0, 1)));
    assert_eq!(alone(pay("pay 1 from A to B\n").unwrap_err()), (Expected::End, found(Token::Newline), (17, 18)));
    assert_eq!(alone(pay("deliver X from A to B").unwrap_err()), (Expected::Command, found(Token::Deliver), (0, 7)));
    assert_eq!(alone(deliver("pay 1 from A to B").unwrap_err()), (Expected::Command, found(Token::Pay), (0, 3)));
}

#[test]
fn tokens_made_by_hand() {
    let at = |token: Token, start: usize| Spanned {
        token,
        span: Span { start, end: start + 1 },
    };
    // two tokens of whitespace in a row are whitespace
    let tokens = vec![
        at(Token::Balance, 0),
        at(Token::Whitespace, 1),
        at(Token::Whitespace, 2),
        at(word("from"), 3),
        at(Token::Whitespace, 4),
        at(word("A"), 5),
        at(Token::Whitespace, 6),
        at(word("to"), 7),
        at(Token::Whitespace, 8),
        at(word("B"), 9),
    ];
    assert_eq!(
        parse_tokens(&tokens),
        Ok(Script(vec![Stmt::Analyze(Analyze::Balance(Balance {
            between: dir("A", "B")
        }))]))
    );

    // a number token is held to its shape
    let tokens = vec![at(Token::Pay, 0), at(Token::Whitespace, 1), at(whole("12x"), 2)];
    let e = parse_tokens(&tokens).unwrap_err();
    assert_eq!((e.expected, e.span), (Expected::Amount, Span { start: 2, end: 3 }));
    let tokens = vec![
        at(Token::Pay, 0),
        at(Token::Whitespace, 1),
        at(Token::Decimal("1.5".to_string()), 2),
        at(Token::SignEuro, 3),
    ];
    let e = parse_tokens(&tokens).unwrap_err();
    assert_eq!((e.expected, e.span), (Expected::Amount, Span { start: 2, end: 3 }));
    assert_eq!(parse_tokens(&vec![]), Ok(Script(vec![])));
}
