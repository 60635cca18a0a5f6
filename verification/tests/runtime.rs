use std::collections::HashSet;

use ledger_lang::eval;
use ledger_lang::ext::big::Integer;
use ledger_lang::ext::{Balance, Gtin, Money};
use ledger_lang::runtime::cmd::Balance as Query;
use ledger_lang::runtime::error::{
    BothZero, Repr, Same, UnknownActor, UnknownConcept, UnknownConceptGtin, UnknownEntity,
    UnknownObject, UnknownProductName,
};
use ledger_lang::runtime::model::{Object, Pair, Product, State};
use ledger_lang::runtime::name::Name;
use ledger_lang::syntax::ast::Script;
use ledger_lang::syntax::parse::parse;
use ledger_lang::EvalError;
use ledger_lang::Runtime;

fn run(src: &str) -> Runtime {
    eval(src).unwrap()
}

/// Runs the script and hands back where it halted.
fn halt(src: &str) -> (Runtime, Repr) {
    match eval(src) {
        Err(EvalError::Halted { runtime, error }) => (runtime, error),
        other => panic!("expected the script to halt, got {other:?}"),
    }
}

fn owed(state: &State, from: &str, to: &str) -> Balance {
    state.balance(state.get_dir(from, to).unwrap())
}

fn cents(n: i64) -> Balance {
    Balance(Integer::from(n))
}

fn balances(state: &State) -> HashSet<(Vec<String>, Integer)> {
    (0..state.balances.len())
        .map(|i| state.balances.entry(i))
        .map(|(pair, bal)| {
            (
                vec![pair.a().name().to_owned(), pair.b().name().to_owned()],
                bal.0.clone(),
            )
        })
        .collect()
}

#[test]
fn smoke() {
    let rt = run(
        "
        # who is there
        create entity A
        create entity B

        create concept Mate price 1.50€ gtin 4029764001807
        create object Crate

        pay 5€ from A to B; pay 5€ from B to A   # lent and given back
        deliver Mate from A to B
        deliver Crate price 50ct from A to B
        bal from A to B
        ",
    );
    let dir = rt.state().get_dir("A", "B").unwrap();
    assert_eq!(rt.state().balance(dir), Balance(Integer::from(-200)));
}

#[test]
fn balance_basic() {
    let mut rt = Runtime::new();
    let script = "
        create entity A
        create entity B

        pay 1€ from A to B
        pay 4€ from B to A
        pay 1€ from A to B
    ";

    rt.run(Script::parse(script).unwrap()).unwrap();

    let debit = rt.balance(Query {
        between: rt.state().get_dir("A", "B").unwrap(),
    });
    // A has paid 2€ and received 4€: A owes B 2€
    assert_eq!(debit.between.source().name(), "A");
    assert_eq!(debit.between.target().name(), "B");
    assert_eq!(debit.amount, Money(200u8.into()));

    // asked the other way round, the answer is the same debt
    let debit = rt.balance(Query {
        between: rt.state().get_dir("B", "A").unwrap(),
    });
    assert_eq!(debit.between.source().name(), "A");
    assert_eq!(debit.between.target().name(), "B");
    assert_eq!(debit.amount, Money(200u8.into()));
}

#[test]
fn inherit() {
    let state = run(
        "
        create entity A
        create entity B

        create concept E price 13.37€ gtin 10000000
        create object O parent E
        create object T parent E

        create entity C
        ",
    )
    .to_state();

    // all entities there?
    assert_eq!(
        (0..state.entities.len())
            .map(|i| state.entities.entry(i).0.as_str())
            .collect::<HashSet<_>>(),
        ["A", "B", "C"].into_iter().collect(),
    );

    assert_eq!(
        (0..state.objects.len())
            .map(|i| &state.objects.entry(i).1)
            .map(|o| {
                (
                    o.name().unwrap().to_owned(),
                    o.parent().unwrap().name().to_owned(),
                )
            })
            .collect::<HashSet<_>>(),
        HashSet::from([("O".into(), "E".into()), ("T".into(), "E".into())])
    );

    // the parent is the concept as it was written
    let parent = state.get_object("O").unwrap().parent().unwrap();
    assert_eq!(parent.default_price(), Some(&Money(1337u16.into())));
    assert_eq!(parent.gtin().map(|g| g.get()), Some(10000000));
}

#[test]
fn pay_basic() {
    let rt = run(
        "
        create entity A
        create entity B
        create entity C

        pay 1€ from A to B
        pay 5€ from B to A
        pay 3€ from A to C
        ",
    );

    let s = |lit: &str| lit.to_string();
    let i = Integer::from;

    assert_eq!(
        balances(&rt.to_state()),
        [
            (vec![s("A"), s("B")], i(400)),
            (vec![s("A"), s("C")], i(-300))
        ]
        .into_iter()
        .collect::<HashSet<_>>(),
    );
}

#[test]
fn pair_is_the_same_in_either_order() {
    let rt = run("create entity Zoe\ncreate entity Adam");
    let zoe = || rt.state().get_entity("Zoe").unwrap().clone();
    let adam = || rt.state().get_entity("Adam").unwrap().clone();

    let one = Pair::new(zoe(), adam()).unwrap();
    let other = Pair::new(adam(), zoe()).unwrap();
    assert_eq!(one, other);
    assert_eq!(one.a().name(), "Adam");
    assert_eq!(one.b().name(), "Zoe");

    assert_eq!(Pair::new(zoe(), zoe()), Err(Same(zoe(), zoe())));

    let dir = rt.state().get_dir("Zoe", "Adam").unwrap();
    assert!(dir.would_reorder());
    let mut back = dir.clone();
    back.flip();
    assert!(!back.would_reorder());
    assert_eq!(back.source().name(), "Adam");
    assert_eq!(back.target().name(), "Zoe");
    assert_eq!(Pair::from(dir.clone()), one);
    assert_eq!(dir.into_pair(), back.into_pair());
}

#[test]
fn names_sort_as_their_bytes_do() {
    // a prefix comes first, upper case before lower case,
    // and ASCII before everything else
    let rt = run(
        "create entity Ann\ncreate entity Anna\ncreate entity ann\ncreate entity Émile",
    );
    let before = |x: &str, y: &str| !rt.state().get_dir(x, y).unwrap().would_reorder();
    assert!(before("Ann", "Anna"));
    assert!(!before("Anna", "Ann"));
    assert!(before("Anna", "ann"));
    assert!(before("ann", "Émile"));
    assert!(!before("Émile", "Ann"));
}

#[test]
fn balance_one_way_is_the_negation_of_the_other() {
    let rt = run(
        "
        create entity A
        create entity B
        pay 12.34€ from A to B
        pay 7 from B to A
        pay 1€ from A to B
        ",
    );
    assert_eq!(owed(rt.state(), "A", "B"), cents(-1327));
    assert_eq!(owed(rt.state(), "B", "A"), cents(1327));
}

#[test]
fn balance_without_a_transfer_is_zero() {
    let rt = run(
        "create entity A\ncreate entity B\ncreate entity C\npay 1€ from A to C",
    );
    assert_eq!(owed(rt.state(), "A", "B"), cents(0));
    assert_eq!(owed(rt.state(), "B", "A"), cents(0));
    assert_eq!(owed(rt.state(), "B", "C"), cents(0));
    assert_eq!(rt.state().balances.len(), 1);
}

#[test]
fn payments_between_the_same_two_share_one_entry() {
    let rt = run(
        "create entity A\ncreate entity B\npay 1 from A to B\npay 2 from B to A\npay 3 from A to B",
    );
    assert_eq!(rt.state().balances.len(), 1);
    assert_eq!(owed(rt.state(), "A", "B"), cents(-2));
}

#[test]
fn split_rounds_the_source_down() {
    // 3:4 of 10 cents: the source bears floor(30 / 7) = 4, the target 6
    let rt = run(
        "create entity A\ncreate entity B\ncreate object O\n\
         deliver O price 10 from A to B split 3:4",
    );
    assert_eq!(owed(rt.state(), "A", "B"), cents(-6));

    // 1:2 of 1€: 33 and 67
    let rt = run(
        "create entity A\ncreate entity B\ncreate object O\n\
         deliver O price 1€ from B to A split 1 : 2",
    );
    assert_eq!(owed(rt.state(), "B", "A"), cents(-67));
    assert_eq!(owed(rt.state(), "A", "B"), cents(67));

    // all to the source: nothing is paid
    let rt = run(
        "create entity A\ncreate entity B\ncreate object O\n\
         deliver O price 99 from A to B split 1:0",
    );
    assert_eq!(owed(rt.state(), "A", "B"), cents(0));

    // without a split, all to the target
    let rt = run(
        "create entity A\ncreate entity B\ncreate object O\n\
         deliver O price 99 from A to B",
    );
    assert_eq!(owed(rt.state(), "A", "B"), cents(-99));
}

#[test]
fn split_of_nothing_is_refused() {
    let (rt, error) = halt(
        "create entity A\ncreate entity B\ncreate object O\n\
         deliver O price 10 from A to B split 0:0",
    );
    assert_eq!(error, Repr::BothZero(BothZero));
    assert_eq!(rt.state().balances.len(), 0);
}

#[test]
fn delivery_falls_back_on_the_default_price() {
    let rt = run(
        "
        create entity A
        create entity B
        create concept C price 5€
        deliver C from A to B
        ",
    );
    assert_eq!(owed(rt.state(), "A", "B"), cents(-500));

    // an object has the price of its parent
    let rt = run(
        "
        create entity A
        create entity B
        create concept C price 5€
        create object O parent C
        deliver O from A to B
        ",
    );
    assert_eq!(owed(rt.state(), "A", "B"), cents(-500));

    // a price on the statement goes first
    let rt = run(
        "
        create entity A
        create entity B
        create concept C price 5€ gtin 12345678
        deliver 12345678 price 0 from A to B
        deliver C price 2 from A to B
        ",
    );
    assert_eq!(owed(rt.state(), "A", "B"), cents(-2));
}

#[test]
fn delivery_without_a_price_is_refused() {
    let (rt, error) = halt(
        "
        create entity A
        create entity B
        create concept C
        create object O parent C
        deliver O from A to B
        ",
    );
    let Repr::DeliveryPaymentUnclear(e) = error else {
        panic!("expected no price, got {error:?}");
    };
    assert_eq!(
        e.product,
        Product::Object(rt.state().get_object("O").unwrap().clone())
    );

    let (_, error) = halt("create entity A\ncreate entity B\ncreate object O\ndeliver O from A to B");
    assert!(matches!(error, Repr::DeliveryPaymentUnclear(_)));
}

#[test]
fn self_transfer_is_refused() {
    let (rt, error) = halt(
        "
        create entity A
        create entity B
        pay 2€ from A to B
        pay 1€ from A to A
        pay 3€ from A to B
        ",
    );
    let a = rt.state().get_entity("A").unwrap().clone();
    assert_eq!(error, Repr::Same(Same(a.clone(), a)));
    // the ledger is as the first payment left it
    assert_eq!(balances(rt.state()).len(), 1);
    assert_eq!(owed(rt.state(), "A", "B"), cents(-200));

    // asking for a balance with oneself is refused as well
    let (_, error) = halt("create entity A\nbalance from A to A");
    assert!(matches!(error, Repr::Same(_)));
}

#[test]
fn end_to_end() {
    let (rt, error) = halt(
        "
        create entity A
        create entity B
        pay 1€ from A to B
        pay 5€ from B to A
        pay 3€ from A to C   # C undeclared
        ",
    );
    assert_eq!(
        error,
        Repr::UnknownActor(UnknownActor::Entity(UnknownEntity(Name::new("C"))))
    );
    assert_eq!(owed(rt.state(), "A", "B"), cents(400));
    assert_eq!(owed(rt.state(), "B", "A"), cents(-400));
    assert_eq!(
        balances(rt.state()),
        HashSet::from([(vec!["A".to_string(), "B".to_string()], Integer::from(400))])
    );
}

#[test]
fn later_concept_shadows_the_name_only() {
    let rt = run(
        "
        create entity A
        create entity B
        create concept X price 1€ gtin 11111111
        create object O parent X
        create concept X price 2€
        deliver X from A to B
        ",
    );
    // the delivery went by the later price
    assert_eq!(owed(rt.state(), "A", "B"), cents(-200));
    // the object still has the concept that was there when it was made
    let parent = rt.state().get_object("O").unwrap().parent().unwrap();
    assert_eq!(parent.default_price(), Some(&Money(100u8.into())));
    // and so has the barcode
    let gtin = parent.gtin().unwrap();
    let by_gtin = rt.state().get_concept_by_gtin(&gtin).unwrap();
    assert_eq!(by_gtin.default_price(), Some(&Money(100u8.into())));
    assert_eq!(
        rt.state().get_concept("X").unwrap().default_price(),
        Some(&Money(200u8.into()))
    );
    assert_eq!(rt.state().get_concept("X").unwrap().gtin(), None);
}

#[test]
fn objects_go_before_concepts_of_the_same_name() {
    let rt = run(
        "
        create entity A
        create entity B
        create concept W price 7
        create object W
        deliver W price 1 from A to B
        ",
    );
    assert_eq!(owed(rt.state(), "A", "B"), cents(-1));

    // the object has no parent and so no price, though the concept has one
    let (_, error) = halt(
        "
        create entity A
        create entity B
        create concept W price 7
        create object W
        deliver W from A to B
        ",
    );
    assert!(matches!(error, Repr::DeliveryPaymentUnclear(_)));
}

#[test]
fn unknown_actors_are_named() {
    let (_, error) = halt("create object O parent Nothing");
    assert_eq!(
        error,
        Repr::UnknownActor(UnknownActor::Concept(UnknownConcept(Name::new("Nothing"))))
    );

    let (_, error) = halt("create entity A\ncreate entity B\ndeliver 12345678 from A to B");
    let Repr::UnknownActor(UnknownActor::ConceptGtin(UnknownConceptGtin(gtin))) = error else {
        panic!("expected an unknown barcode, got {error:?}");
    };
    assert_eq!(gtin.get(), 12345678);

    let (_, error) = halt("create entity A\ncreate entity B\ndeliver Thing price 1 from A to B");
    assert_eq!(
        error,
        Repr::UnknownActor(UnknownActor::ProductName(UnknownProductName(Name::new("Thing"))))
    );

    // the source is looked up first
    let (_, error) = halt("pay 1 from X to Y");
    assert_eq!(
        error,
        Repr::UnknownActor(UnknownActor::Entity(UnknownEntity(Name::new("X"))))
    );
    let (_, error) = halt("create entity X\npay 1 from X to Y");
    assert_eq!(
        error,
        Repr::UnknownActor(UnknownActor::Entity(UnknownEntity(Name::new("Y"))))
    );

    // the product is looked up before the entities
    let (_, error) = halt("deliver Thing from X to Y");
    assert!(matches!(
        error,
        Repr::UnknownActor(UnknownActor::ProductName(_))
    ));
}

#[test]
fn step_answers_balance_queries() {
    let mut rt = Runtime::new();
    let script = parse("create entity A; create entity B; pay 3 from B to A; bal from B to A")
        .unwrap();
    let mut answers = Vec::new();
    for stmt in script.0 {
        answers.push(rt.step(stmt).unwrap());
    }
    assert!(answers[0].is_none() && answers[1].is_none() && answers[2].is_none());
    let debit = answers[3].as_ref().unwrap();
    // B has paid 3 cents ahead: it is A who owes them
    assert_eq!(debit.between.source().name(), "A");
    assert_eq!(debit.between.target().name(), "B");
    assert_eq!(debit.amount, Money(3u8.into()));
}

#[test]
fn syntax_errors_run_nothing() {
    let r = eval("create entity A\npay\n");
    assert!(matches!(r, Err(EvalError::Syntax(_))));
}

#[test]
fn lookups_name_what_is_missing() {
    let rt = run("create entity A\ncreate concept C gtin 12345678\ncreate object O");
    let state = rt.state();

    assert_eq!(state.get_entity("A").unwrap().name(), "A");
    assert_eq!(state.get_entity("B"), Err(UnknownEntity(Name::new("B"))));
    assert_eq!(state.get_concept("C").unwrap().name(), "C");
    assert_eq!(state.get_concept("O"), Err(UnknownConcept(Name::new("O"))));
    assert_eq!(state.get_object("O").unwrap().name(), Some("O"));
    assert_eq!(state.get_object("C"), Err(UnknownObject(Name::new("C"))));

    let known = state.get_concept("C").unwrap().gtin().unwrap();
    assert_eq!(state.get_concept_by_gtin(&known).unwrap().name(), "C");
    let unknown = Gtin::new(87654321).unwrap();
    assert_eq!(
        state.get_concept_by_gtin(&unknown),
        Err(UnknownConceptGtin(unknown))
    );

    // names are looked up as they are spelled
    assert!(state.get_entity("a").is_err());
    assert!(state.get_entity("A ").is_err());
    assert!(state.get_entity("").is_err());
}

#[test]
fn a_fresh_ledger_is_empty() {
    for rt in [Runtime::new(), Runtime::default(), run("")] {
        let state = rt.state();
        assert_eq!(state.entities.len(), 0);
        assert_eq!(state.concepts.len(), 0);
        assert_eq!(state.concepts_gtin.len(), 0);
        assert_eq!(state.objects.len(), 0);
        assert_eq!(state.balances.len(), 0);
    }
}

#[test]
fn realizing_makes_objects() {
    let rt = run("create concept C price 5\ncreate object O");
    let concept = rt.state().get_concept("C").unwrap();
    let anonymous = concept.realize();
    assert_eq!(anonymous.name(), None);
    assert_eq!(anonymous.parent(), Some(concept));
    let named = concept.realize_named(Name::new("N"));
    assert_eq!(named.name(), Some("N"));
    assert_eq!(named.parent(), Some(concept));

    assert_eq!(Product::Concept(concept.clone()).realize(), anonymous);
    let object = rt.state().get_object("O").unwrap();
    assert_eq!(&Product::Object(object.clone()).realize(), object);
    assert_eq!(object, &Object::new(Name::new("O")));

    assert_eq!(
        Product::Concept(concept.clone()).default_price(),
        Ok(&Money(5u8.into()))
    );
    assert_eq!(
        Product::Object(named.clone()).default_price(),
        Ok(&Money(5u8.into()))
    );
    assert!(Product::Object(object.clone()).default_price().is_err());
}
