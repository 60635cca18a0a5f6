//! What a script says, before any name in it is looked up.

use crate::ext::big::{natural_value, Natural};
use crate::ext::{Gtin, Money};
use vstd::prelude::*;

verus! {

/// A whole script: its statements in order.
#[derive(Debug, PartialEq, Eq)]
pub struct Script(pub Vec<Stmt>);

/// Something that can be done.
#[derive(Debug, PartialEq, Eq)]
pub enum Stmt {
    Create(Create),
    Transfer(Transfer),
    Analyze(Analyze),
}

/// Commands that introduce new state.
#[derive(Debug, PartialEq, Eq)]
pub struct Create {
    pub who: Actor,
}

/// Actions that do something and modify state.
#[derive(Debug, PartialEq, Eq)]
pub enum Transfer {
    Pay(Pay),
    Deliver(Deliver),
}

/// Read-only commands.
#[derive(Debug, PartialEq, Eq)]
pub enum Analyze {
    Balance(Balance),
}

/// Money transfer.
#[derive(Debug, PartialEq, Eq)]
pub struct Pay {
    pub amount: Money,
    pub who: Dir,
}

/// Physical transfer implying a money transfer.
#[derive(Debug, PartialEq, Eq)]
pub struct Deliver {
    pub what: Product,
    pub who: Dir,
    pub price: Option<Money>,
    pub split: Option<Ratio>,
}

/// How much one entity owes another.
#[derive(Debug, PartialEq, Eq)]
pub struct Balance {
    pub between: Dir,
}

/// What can be created.
#[derive(Debug, PartialEq, Eq)]
pub enum Actor {
    Entity(Entity),
    Object(Object),
    Concept(Concept),
}

/// Holds money and resources.
#[derive(Debug, PartialEq, Eq)]
pub struct Entity {
    pub name: Ident,
}

/// Can be delivered and passed around.
#[derive(Debug, PartialEq, Eq)]
pub struct Object {
    pub name: Ident,
    pub parent: Option<Ident>,
}

/// A kind of thing, with what is known of every thing of that kind.
#[derive(Debug, PartialEq, Eq)]
pub struct Concept {
    pub name: Ident,
    pub default_price: Option<Money>,
    pub gtin: Option<Gtin>,
}

/// The thing that a delivery hands over, by name or by barcode.
#[derive(Debug, PartialEq, Eq)]
pub enum Product {
    Name(Ident),
    Id(Gtin),
}

/// Directional specification.
/// Source and recipient.
#[derive(Debug, PartialEq, Eq)]
pub struct Dir {
    /// Who gives something away.
    pub from: Ident,
    /// Who receives it.
    pub to: Ident,
}

/// The two sides of a split, as written.
#[derive(Debug, PartialEq, Eq)]
pub struct Ratio {
    pub left: Natural,
    pub right: Natural,
}

/// A name as it stands in the script.
#[derive(Debug, PartialEq, Eq, PartialOrd, Ord, Hash)]
pub struct Ident(String);

impl View for Ident {
    type V = Seq<char>;

    closed spec fn view(&self) -> Seq<char> {
        self.0@
    }
}

impl Ident {
    pub fn new(ident: String) -> (r: Ident)
        ensures
            r@ == ident@,
    {
        Ident(ident)
    }

    pub fn get(&self) -> (r: &str)
        ensures
            r@ == self@,
    {
        self.0.as_str()
    }

    /// The text itself.
    pub fn take(self) -> (r: String)
        ensures
            r@ == self@,
    {
        self.0
    }
}

/// What an optional amount says.
pub open spec fn money_view(m: Option<Money>) -> Option<nat> {
    match m {
        Some(m) => Some(m@),
        None => None,
    }
}

/// What an optional barcode says.
pub open spec fn gtin_view(g: Option<Gtin>) -> Option<u64> {
    match g {
        Some(g) => Some(g@),
        None => None,
    }
}

/// What an optional name says.
pub open spec fn ident_view(i: Option<Ident>) -> Option<Seq<char>> {
    match i {
        Some(i) => Some(i@),
        None => None,
    }
}

/// What a direction says.
pub ghost struct DirView {
    pub from: Seq<char>,
    pub to: Seq<char>,
}

impl View for Dir {
    type V = DirView;

    open spec fn view(&self) -> DirView {
        DirView { from: self.from@, to: self.to@ }
    }
}

/// What a split says.
pub ghost struct RatioView {
    pub left: nat,
    pub right: nat,
}

impl View for Ratio {
    type V = RatioView;

    open spec fn view(&self) -> RatioView {
        RatioView { left: natural_value(self.left), right: natural_value(self.right) }
    }
}

/// What a product says.
pub ghost enum ProductView {
    Name(Seq<char>),
    Id(u64),
}

impl View for Product {
    type V = ProductView;

    open spec fn view(&self) -> ProductView {
        match *self {
            Product::Name(name) => ProductView::Name(name@),
            Product::Id(gtin) => ProductView::Id(gtin@),
        }
    }
}

/// What a concept says.
pub ghost struct ConceptView {
    pub name: Seq<char>,
    pub default_price: Option<nat>,
    pub gtin: Option<u64>,
}

impl View for Concept {
    type V = ConceptView;

    open spec fn view(&self) -> ConceptView {
        ConceptView {
            name: self.name@,
            default_price: money_view(self.default_price),
            gtin: gtin_view(self.gtin),
        }
    }
}

/// What an object says.
pub ghost struct ObjectView {
    pub name: Seq<char>,
    pub parent: Option<Seq<char>>,
}

impl View for Object {
    type V = ObjectView;

    open spec fn view(&self) -> ObjectView {
        ObjectView { name: self.name@, parent: ident_view(self.parent) }
    }
}

/// What a payment says.
pub ghost struct PayView {
    pub amount: nat,
    pub who: DirView,
}

impl View for Pay {
    type V = PayView;

    open spec fn view(&self) -> PayView {
        PayView { amount: self.amount@, who: self.who@ }
    }
}

/// What a delivery says.
pub ghost struct DeliverView {
    pub what: ProductView,
    pub who: DirView,
    pub price: Option<nat>,
    pub split: Option<RatioView>,
}

impl View for Deliver {
    type V = DeliverView;

    open spec fn view(&self) -> DeliverView {
        DeliverView {
            what: self.what@,
            who: self.who@,
            price: money_view(self.price),
            split: match self.split {
                Some(split) => Some(split@),
                None => None,
            },
        }
    }
}

/// What a statement says.
pub ghost enum StmtView {
    CreateEntity(Seq<char>),
    CreateObject(ObjectView),
    CreateConcept(ConceptView),
    Pay(PayView),
    Deliver(DeliverView),
    Balance(DirView),
}

impl View for Stmt {
    type V = StmtView;

    open spec fn view(&self) -> StmtView {
        match *self {
            Stmt::Create(create) => match create.who {
                Actor::Entity(entity) => StmtView::CreateEntity(entity.name@),
                Actor::Object(object) => StmtView::CreateObject(object@),
                Actor::Concept(concept) => StmtView::CreateConcept(concept@),
            },
            Stmt::Transfer(Transfer::Pay(pay)) => StmtView::Pay(pay@),
            Stmt::Transfer(Transfer::Deliver(deliver)) => StmtView::Deliver(deliver@),
            Stmt::Analyze(Analyze::Balance(balance)) => StmtView::Balance(balance.between@),
        }
    }
}

impl View for Script {
    type V = Seq<StmtView>;

    open spec fn view(&self) -> Seq<StmtView> {
        self.0@.map_values(|stmt: Stmt| stmt@)
    }
}

} // verus!
