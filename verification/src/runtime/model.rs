//! Live actors, bundled, cuddled and wrapped up into [`State`].
//!
//! # On field privacy
//!
//! The fields are all private.
//! Why?
//! The answer is type safety.
//! Actors can only be created by issuing a [`super::cmd::Create`] command
//! to the runtime.
//! This implies that the runtime doesn't need to take care of
//! returning errors about non-existent
//! [`Entity`]ies, [`Concept`]s or [`Object`]s:
//! if there is one, it has to exist and hence be created at some point.

use crate::ext::big::{
    natural_add, natural_clone, natural_div, natural_eq, natural_from_u64, natural_mul,
    natural_sub, natural_value, Natural,
};
use crate::ext::{Balance, Gtin, Money};
use crate::runtime::error::{
    BothZero, PriceUnspecified, Repr, ReprView, Same, UnknownActor, UnknownConcept,
    UnknownConceptGtin, UnknownEntity, UnknownObject,
};
use crate::runtime::name::{lemma_name_order_total, name_lt, Name};
use crate::runtime::table::{Key, Table};
use vstd::prelude::*;

verus! {

/// Someone who holds money and deliver things.
#[derive(Debug, PartialEq, Eq, PartialOrd, Ord, Hash)]
pub struct Entity {
    name: Name,
}

impl View for Entity {
    type V = Seq<char>;

    /// An entity is its name.
    closed spec fn view(&self) -> Seq<char> {
        self.name@
    }
}

impl Clone for Entity {
    fn clone(&self) -> (r: Self)
        ensures
            r@ == self@,
    {
        Entity { name: self.name.clone() }
    }
}

impl Entity {
    pub(crate) fn create(name: Name) -> (r: Entity)
        ensures
            r@ == name@,
    {
        Entity { name }
    }

    pub fn name(&self) -> (r: &str)
        ensures
            r@ == self@,
    {
        self.name.as_str()
    }

    /// Whether both are the same entity.
    pub fn same(&self, other: &Entity) -> (r: bool)
        ensures
            r == (self@ == other@),
    {
        self.name.0 == other.name.0
    }
}

/// What a concept says.
pub ghost struct ConceptView {
    pub name: Seq<char>,
    pub default_price: Option<nat>,
    pub gtin: Option<u64>,
}

/// Designed idea of [`Object`]s.
#[derive(Debug, PartialEq, Eq, PartialOrd, Ord, Hash)]
pub struct Concept {
    name: Name,
    default_price: Option<Money>,
    gtin: Option<Gtin>,
}

impl View for Concept {
    type V = ConceptView;

    closed spec fn view(&self) -> ConceptView {
        ConceptView {
            name: self.name@,
            default_price: match self.default_price {
                Some(price) => Some(price@),
                None => None,
            },
            gtin: match self.gtin {
                Some(gtin) => Some(gtin@),
                None => None,
            },
        }
    }
}

impl Clone for Concept {
    fn clone(&self) -> (r: Self)
        ensures
            r@ == self@,
    {
        Concept {
            name: self.name.clone(),
            default_price: match &self.default_price {
                Some(price) => Some(price.clone()),
                None => None,
            },
            gtin: self.gtin,
        }
    }
}

impl Concept {
    pub(crate) fn create(name: Name, default_price: Option<Money>, gtin: Option<Gtin>) -> (r:
        Concept)
        ensures
            r@ == (ConceptView {
                name: name@,
                default_price: match default_price {
                    Some(price) => Some(price@),
                    None => None,
                },
                gtin: match gtin {
                    Some(gtin) => Some(gtin@),
                    None => None,
                },
            }),
    {
        Concept { name, default_price, gtin }
    }

    pub fn name(&self) -> (r: &str)
        ensures
            r@ == self@.name,
    {
        self.name.as_str()
    }

    pub fn default_price(&self) -> (r: Option<&Money>)
        ensures
            match r {
                Some(price) => self@.default_price == Some(price@),
                None => self@.default_price is None,
            },
    {
        match &self.default_price {
            Some(price) => Some(price),
            None => None,
        }
    }

    pub fn gtin(&self) -> (r: Option<Gtin>)
        ensures
            match r {
                Some(gtin) => self@.gtin == Some(gtin@),
                None => self@.gtin is None,
            },
    {
        self.gtin
    }

    /// Return a real instanced [`Object`] of this concept.
    pub fn realize(&self) -> (r: Object)
        ensures
            r@ == (ObjectView { name: None, parent: Some(self@) }),
    {
        Object { name: None, parent: Some(self.clone()) }
    }

    /// Return a real instanced [`Object`] of this concept
    /// and give it an accessible name.
    pub fn realize_named(&self, name: Name) -> (r: Object)
        ensures
            r@ == (ObjectView { name: Some(name@), parent: Some(self@) }),
    {
        Object { name: Some(name), parent: Some(self.clone()) }
    }
}

/// What an object says.
pub ghost struct ObjectView {
    pub name: Option<Seq<char>>,
    pub parent: Option<ConceptView>,
}

/// Physically holdable something.
#[derive(Debug, PartialEq, Eq, PartialOrd, Ord, Hash)]
pub struct Object {
    name: Option<Name>,
    parent: Option<Concept>,
}

impl View for Object {
    type V = ObjectView;

    closed spec fn view(&self) -> ObjectView {
        ObjectView {
            name: match self.name {
                Some(name) => Some(name@),
                None => None,
            },
            parent: match self.parent {
                Some(parent) => Some(parent@),
                None => None,
            },
        }
    }
}

impl Clone for Object {
    fn clone(&self) -> (r: Self)
        ensures
            r@ == self@,
    {
        Object {
            name: match &self.name {
                Some(name) => Some(name.clone()),
                None => None,
            },
            parent: match &self.parent {
                Some(parent) => Some(parent.clone()),
                None => None,
            },
        }
    }
}

impl Object {
    pub(crate) fn create(name: Name, parent: Option<Concept>) -> (r: Object)
        ensures
            r@ == (ObjectView {
                name: Some(name@),
                parent: match parent {
                    Some(parent) => Some(parent@),
                    None => None,
                },
            }),
    {
        Object { name: Some(name), parent }
    }

    pub fn name(&self) -> (r: Option<&str>)
        ensures
            match r {
                Some(name) => self@.name == Some(name@),
                None => self@.name is None,
            },
    {
        match &self.name {
            Some(name) => Some(name.as_str()),
            None => None,
        }
    }

    pub fn parent(&self) -> (r: Option<&Concept>)
        ensures
            match r {
                Some(parent) => self@.parent == Some(parent@),
                None => self@.parent is None,
            },
    {
        match &self.parent {
            Some(parent) => Some(parent),
            None => None,
        }
    }

    /// Create a standalone object that has *no* parent [`Concept`].
    pub fn new(name: Name) -> (r: Object)
        ensures
            r@ == (ObjectView { name: Some(name@), parent: None }),
    {
        Object { name: Some(name), parent: None }
    }
}

/// What a product says.
pub ghost enum ProductView {
    Concept(ConceptView),
    Object(ObjectView),
}

impl ProductView {
    /// The price that the product has where a delivery names none: its
    /// own if it is a concept, that of its parent if it is an object.
    pub open spec fn default_price(self) -> Option<nat> {
        match self {
            ProductView::Concept(concept) => concept.default_price,
            ProductView::Object(object) => match object.parent {
                Some(concept) => concept.default_price,
                None => None,
            },
        }
    }
}

/// Don't care about hypotheticality, the user just wants one *thing*? Use this.
#[derive(Debug, PartialEq, Eq, PartialOrd, Ord, Hash)]
pub enum Product {
    /// Instantiate this concept into an anonymous object.
    Concept(Concept),
    /// Take this object directly.
    Object(Object),
}

impl View for Product {
    type V = ProductView;

    open spec fn view(&self) -> ProductView {
        match *self {
            Product::Concept(concept) => ProductView::Concept(concept@),
            Product::Object(object) => ProductView::Object(object@),
        }
    }
}

impl Clone for Product {
    fn clone(&self) -> (r: Self)
        ensures
            r@ == self@,
    {
        match self {
            Product::Concept(concept) => Product::Concept(concept.clone()),
            Product::Object(object) => Product::Object(object.clone()),
        }
    }
}

impl Product {
    /// How much is this product worth by default,
    /// iff that is set (either directly or by parent)?
    pub fn default_price(&self) -> (r: Result<&Money, PriceUnspecified>)
        ensures
            match self@.default_price() {
                Some(price) => r is Ok && r->Ok_0@ == price,
                None => r is Err && r->Err_0.product@ == self@,
            },
    {
        let concept = match self {
            Product::Concept(concept) => Some(concept),
            Product::Object(object) => object.parent(),
        };
        let price = match concept {
            Some(concept) => concept.default_price(),
            None => None,
        };
        match price {
            Some(price) => Ok(price),
            None => Err(PriceUnspecified { product: self.clone() }),
        }
    }

    /// Instantiate or directly return the desired [`Object`].
    pub fn realize(&self) -> (r: Object)
        ensures
            r@ == match self@ {
                ProductView::Concept(concept) => ObjectView { name: None, parent: Some(concept) },
                ProductView::Object(object) => object,
            },
    {
        match self {
            Product::Object(object) => object.clone(),
            Product::Concept(concept) => concept.realize(),
        }
    }
}

/// Who gives and who receives.
pub ghost struct DirView {
    pub source: Seq<char>,
    pub target: Seq<char>,
}

impl DirView {
    /// The two are different entities.
    pub open spec fn wf(self) -> bool {
        self.source != self.target
    }

    /// The same two, the other way round.
    pub open spec fn flip(self) -> DirView {
        DirView { source: self.target, target: self.source }
    }

    /// Whether the target sorts before the source.
    pub open spec fn would_reorder(self) -> bool {
        name_lt(self.target, self.source)
    }

    /// The same two without a direction.
    pub open spec fn pair(self) -> PairView {
        pair_of(self.source, self.target)
    }
}

/// **Directed** edge between 2 different [`Entity`]ies.
#[derive(Debug, PartialEq, Eq, PartialOrd, Ord, Hash)]
pub struct Dir {
    source: Entity,
    target: Entity,
}

impl View for Dir {
    type V = DirView;

    closed spec fn view(&self) -> DirView {
        DirView { source: self.source@, target: self.target@ }
    }
}

impl Clone for Dir {
    fn clone(&self) -> (r: Self)
        ensures
            r@ == self@,
    {
        proof {
            use_type_invariant(self);
        }
        Dir { source: self.source.clone(), target: self.target.clone() }
    }
}

impl Dir {
    /// Source and target are never the same entity.
    #[verifier::type_invariant]
    pub open spec fn wf(&self) -> bool {
        self@.wf()
    }

    /// Tries to construct a directed edge from `source` to `target`.
    ///
    /// # Errors
    ///
    /// Returns a [`Same`] iff the two entities are the same.
    pub fn new(source: Entity, target: Entity) -> (r: Result<Dir, Same>)
        ensures
            source@ != target@ ==> r is Ok && r->Ok_0@ == (DirView {
                source: source@,
                target: target@,
            }),
            source@ == target@ ==> r == Err::<Dir, Same>(Same(source, target)),
    {
        if source.same(&target) {
            return Err(Same(source, target));
        }
        Ok(Dir { source, target })
    }

    pub fn source(&self) -> (r: &Entity)
        ensures
            r@ == self@.source,
            self@.wf(),
    {
        proof {
            use_type_invariant(self);
        }
        &self.source
    }

    pub fn target(&self) -> (r: &Entity)
        ensures
            r@ == self@.target,
            self@.wf(),
    {
        proof {
            use_type_invariant(self);
        }
        &self.target
    }

    /// Returns [`true`]
    /// iff converting to a [`Pair`]
    /// would put `target` as first argument
    /// and `source` as second,
    /// otherwise the other way around
    pub fn would_reorder(&self) -> (r: bool)
        ensures
            r == self@.would_reorder(),
            self@.wf(),
    {
        proof {
            use_type_invariant(self);
        }
        self.target.name.sorts_before(&self.source.name)
    }

    /// Exchanges `source` and `target`.
    pub fn flip(&mut self)
        ensures
            final(self)@ == old(self)@.flip(),
    {
        proof {
            use_type_invariant(&*self);
        }
        let source = self.source.clone();
        let target = self.target.clone();
        *self = Dir { source: target, target: source };
    }

    /// The two entities, source first.
    pub fn into_entities(self) -> (r: (Entity, Entity))
        ensures
            r.0@ == self@.source,
            r.1@ == self@.target,
            self@.wf(),
    {
        proof {
            use_type_invariant(&self);
        }
        (self.source, self.target)
    }

    /// The same two entities without a direction.
    pub fn into_pair(self) -> (r: Pair)
        ensures
            r@ == self@.pair(),
            self@.wf(),
    {
        proof {
            use_type_invariant(&self);
            lemma_name_order_total(self@.source, self@.target);
        }
        if self.would_reorder() {
            Pair { a: self.target, b: self.source }
        } else {
            Pair { a: self.source, b: self.target }
        }
    }
}

impl From<Dir> for Pair {
    /// The same two entities without a direction.
    fn from(dir: Dir) -> (r: Self)
        ensures
            r@ == dir@.pair(),
    {
        dir.into_pair()
    }
}

impl vstd::std_specs::convert::FromSpecImpl<Dir> for Pair {
    open spec fn obeys_from_spec() -> bool {
        false
    }

    open spec fn from_spec(dir: Dir) -> Self {
        arbitrary()
    }
}

/// Two entities, the one that sorts first in front.
pub ghost struct PairView {
    pub a: Seq<char>,
    pub b: Seq<char>,
}

impl PairView {
    /// The first sorts before the second.
    pub open spec fn wf(self) -> bool {
        name_lt(self.a, self.b)
    }
}

/// The pair of `x` and `y`, whichever is given first.
pub open spec fn pair_of(x: Seq<char>, y: Seq<char>) -> PairView {
    if name_lt(y, x) {
        PairView { a: y, b: x }
    } else {
        PairView { a: x, b: y }
    }
}

/// Two different entities make the same pair in either order, and in
/// it the one that sorts first stands in front.
pub proof fn lemma_pair_symmetric(x: Seq<char>, y: Seq<char>)
    requires
        x != y,
    ensures
        pair_of(x, y) == pair_of(y, x),
        pair_of(x, y).wf(),
{
    lemma_name_order_total(x, y);
}

/// **Undirected** edge between 2 different [`Entity`]ies.
#[derive(Debug, PartialEq, Eq, PartialOrd, Ord, Hash)]
pub struct Pair {
    a: Entity,
    b: Entity,
}

impl View for Pair {
    type V = PairView;

    closed spec fn view(&self) -> PairView {
        PairView { a: self.a@, b: self.b@ }
    }
}

impl Clone for Pair {
    fn clone(&self) -> (r: Self)
        ensures
            r@ == self@,
    {
        proof {
            use_type_invariant(self);
        }
        Pair { a: self.a.clone(), b: self.b.clone() }
    }
}

impl Key for Pair {
    fn same(&self, other: &Self) -> (r: bool) {
        self.a.same(&other.a) && self.b.same(&other.b)
    }
}

impl Pair {
    /// The first entity sorts before the second.
    #[verifier::type_invariant]
    pub open spec fn wf(&self) -> bool {
        self@.wf()
    }

    /// Tries to construct an **undirected** edge between `a` and `b`.
    /// The order does not matter:
    /// the pair `a`, `b` is equivalent to the pair `b`, `a`.
    ///
    /// # Errors
    ///
    /// Returns a [`Same`] iff the two entities are the same.
    pub fn new(a: Entity, b: Entity) -> (r: Result<Pair, Same>)
        ensures
            a@ != b@ ==> r is Ok && r->Ok_0@ == pair_of(a@, b@),
            a@ == b@ ==> r == Err::<Pair, Same>(Same(a, b)),
    {
        match Dir::new(a, b) {
            Ok(dir) => Ok(dir.into_pair()),
            Err(same) => Err(same),
        }
    }

    pub fn a(&self) -> (r: &Entity)
        ensures
            r@ == self@.a,
            self@.wf(),
    {
        proof {
            use_type_invariant(self);
        }
        &self.a
    }

    pub fn b(&self) -> (r: &Entity)
        ensures
            r@ == self@.b,
            self@.wf(),
    {
        proof {
            use_type_invariant(self);
        }
        &self.b
    }

    /// The two entities, the one that sorts first in front.
    pub fn into_entities(self) -> (r: (Entity, Entity))
        ensures
            r.0@ == self@.a,
            r.1@ == self@.b,
    {
        (self.a, self.b)
    }
}

impl Key for Name {
    fn same(&self, other: &Self) -> (r: bool) {
        self.0 == other.0
    }
}

impl Key for Gtin {
    fn same(&self, other: &Self) -> (r: bool) {
        self.get() == other.get()
    }
}

impl Balance {
    /// Turns a balance that is meant along `dir` into the one that is
    /// kept for the pair of the same two entities, and returns that pair.
    pub fn take_order(&mut self, dir: Dir) -> (r: Pair)
        ensures
            final(self)@ == if dir@.would_reorder() {
                -old(self)@
            } else {
                old(self)@
            },
            r@ == dir@.pair(),
            dir@.wf(),
    {
        if dir.would_reorder() {
            self.flip();
        }
        dir.into_pair()
    }
}

/// The two shares of a split.
pub ghost struct RatioView {
    pub source: nat,
    pub target: nat,
}

impl RatioView {
    /// At least one side has a share.
    pub open spec fn wf(self) -> bool {
        self.source + self.target > 0
    }

    /// How many parts the split is over.
    pub open spec fn denominator(self) -> nat {
        self.source + self.target
    }

    /// What the source bears of `full`: its share, rounded down to
    /// whole cents.
    pub open spec fn source_part(self, full: nat) -> nat {
        (full * self.source) / self.denominator()
    }

    /// What the target bears of `full`: all that the source does not.
    pub open spec fn target_part(self, full: nat) -> nat {
        (full - self.source_part(full)) as nat
    }
}

/// Neither part is more than the whole, and together they are the whole.
pub proof fn lemma_split_sums(ratio: RatioView, full: nat)
    requires
        ratio.wf(),
    ensures
        ratio.source_part(full) <= full,
        ratio.source_part(full) + ratio.target_part(full) == full,
        ratio.source_part(full) * ratio.denominator() <= full * ratio.source,
        full * ratio.source < (ratio.source_part(full) + 1) * ratio.denominator(),
{
    let s = ratio.source;
    let d = ratio.denominator();
    assert((full * s) / d <= full) by (nonlinear_arith)
        requires
            0 <= s <= d,
            d > 0,
            full >= 0,
    ;
    assert(((full * s) / d) * d <= full * s < ((full * s) / d + 1) * d) by (nonlinear_arith)
        requires
            d > 0,
    ;
}

/// Split an amount between 2 parties.
#[derive(Debug, PartialEq, Eq, PartialOrd, Ord, Hash)]
pub struct Ratio {
    source: Natural,
    target: Natural,
}

impl View for Ratio {
    type V = RatioView;

    closed spec fn view(&self) -> RatioView {
        RatioView { source: natural_value(self.source), target: natural_value(self.target) }
    }
}

impl Clone for Ratio {
    fn clone(&self) -> (r: Self)
        ensures
            r@ == self@,
    {
        proof {
            use_type_invariant(self);
        }
        Ratio { source: natural_clone(&self.source), target: natural_clone(&self.target) }
    }
}

impl Default for Ratio {
    /// All to the target: an ordinary purchase.
    fn default() -> (r: Self)
        ensures
            r@ == (RatioView { source: 0, target: 1 }),
    {
        Ratio { source: natural_from_u64(0), target: natural_from_u64(1) }
    }
}

impl Ratio {
    /// At least one of the two shares is not zero.
    #[verifier::type_invariant]
    pub open spec fn wf(&self) -> bool {
        self@.wf()
    }

    /// The split in which the source has `source` shares and the
    /// target `target`.
    ///
    /// # Errors
    ///
    /// Returns [`BothZero`] iff both are zero.
    pub fn new(source: Natural, target: Natural) -> (r: Result<Ratio, BothZero>)
        ensures
            natural_value(source) + natural_value(target) > 0 ==> r is Ok && r->Ok_0@ == (
            RatioView { source: natural_value(source), target: natural_value(target) }),
            natural_value(source) + natural_value(target) == 0 ==> r is Err,
    {
        let zero = natural_from_u64(0);
        if natural_eq(&source, &zero) && natural_eq(&target, &zero) {
            return Err(BothZero);
        }
        Ok(Ratio { source, target })
    }

    /// How many parts is this ratio over?
    pub fn denominator(self) -> (r: Natural)
        ensures
            natural_value(r) == self@.denominator(),
            self@.wf(),
    {
        proof {
            use_type_invariant(&self);
        }
        natural_add(&self.source, &self.target)
    }

    /// Distribute the money according to this ratio.
    ///
    /// # Rounding
    ///
    /// If the ratio causes the money to be split into fractional cents,
    /// the source part is rounded down to whole cents and
    /// the target part covers the rest.
    pub fn split(self, full: Money) -> (r: (Money, Money))
        ensures
            r.0@ == self@.source_part(full@),
            r.1@ == self@.target_part(full@),
            r.0@ + r.1@ == full@,
            self@.wf(),
    {
        proof {
            use_type_invariant(&self);
            lemma_split_sums(self@, full@);
        }
        let weighted = natural_mul(&full.0, &self.source);
        let denominator = natural_add(&self.source, &self.target);
        let source = natural_div(&weighted, &denominator);
        let target = natural_sub(&full.0, &source);
        (Money(source), Money(target))
    }
}

/// What a [`State`] holds, with names as sequences of characters.
pub ghost struct StateView {
    pub entities: Map<Seq<char>, Seq<char>>,
    pub concepts: Map<Seq<char>, ConceptView>,
    pub concepts_gtin: Map<u64, ConceptView>,
    pub objects: Map<Seq<char>, ObjectView>,
    pub balances: Map<PairView, int>,
}

impl StateView {
    /// The state in which nothing was created and nobody owes anything.
    pub open spec fn empty() -> StateView {
        StateView {
            entities: Map::empty(),
            concepts: Map::empty(),
            concepts_gtin: Map::empty(),
            objects: Map::empty(),
            balances: Map::empty(),
        }
    }

    /// The directed relation between the entities of these two names:
    /// both have to be known, the source is looked up first, and they
    /// may not be the same entity.
    pub open spec fn dir(self, source: Seq<char>, target: Seq<char>) -> Result<DirView, ReprView> {
        if !self.entities.contains_key(source) {
            Err(ReprView::UnknownEntity(source))
        } else if !self.entities.contains_key(target) {
            Err(ReprView::UnknownEntity(target))
        } else if self.entities[source] == self.entities[target] {
            Err(ReprView::Same(self.entities[source], self.entities[target]))
        } else {
            Ok(DirView { source: self.entities[source], target: self.entities[target] })
        }
    }

    /// What is kept for a pair: zero until something was transferred.
    pub open spec fn stored(self, pair: PairView) -> int {
        if self.balances.contains_key(pair) {
            self.balances[pair]
        } else {
            0
        }
    }

    /// How much the source of `dir` owes its target: what is kept for
    /// the pair, negated where the pair has the two the other way round.
    pub open spec fn balance(self, dir: DirView) -> int {
        if dir.would_reorder() {
            -self.stored(dir.pair())
        } else {
            self.stored(dir.pair())
        }
    }
}

/// What one direction owes is what the other is owed: the balance
/// along a direction is the negation of the balance along its flip.
pub proof fn lemma_balance_flip(state: StateView, dir: DirView)
    requires
        dir.wf(),
    ensures
        state.balance(dir) == -state.balance(dir.flip()),
{
    lemma_name_order_total(dir.source, dir.target);
    lemma_pair_symmetric(dir.source, dir.target);
}

/// Between two entities without a recorded transfer the balance is
/// zero in both directions.
pub proof fn lemma_balance_unseen(state: StateView, dir: DirView)
    requires
        dir.wf(),
        !state.balances.contains_key(dir.pair()),
    ensures
        state.balance(dir) == 0,
        state.balance(dir.flip()) == 0,
{
    lemma_pair_symmetric(dir.source, dir.target);
}

/// An index of directly accessible actors.
///
/// # On being complete
///
/// Note that over time,
/// actors might be come inaccessible
/// as their names (or GTIN, in case of a concept)
/// can be shadowed.
/// In this case, they will never become accessible again.
/// ***However***, they will still be referred to
/// when referenced elsewhere.
///
/// For example, take this script:
///
/// ```text
/// create concept C price 1€
/// create object O parent C
/// create concept C price 2€
/// ```
///
/// After this script was ran,
/// object `O` still has the former concept `C` with price 1€
/// as parent.
/// However, only the latter concept `C` with price 2€
/// can be referred to by its name.
#[derive(Debug)]
pub struct State {
    pub entities: Table<Name, Entity>,
    pub concepts: Table<Name, Concept>,
    pub concepts_gtin: Table<Gtin, Concept>,
    pub objects: Table<Name, Object>,
    pub balances: Table<Pair, Balance>,
}

impl View for State {
    type V = StateView;

    open spec fn view(&self) -> StateView {
        StateView {
            entities: self.entities@,
            concepts: self.concepts@,
            concepts_gtin: self.concepts_gtin@,
            objects: self.objects@,
            balances: self.balances@,
        }
    }
}

impl Default for State {
    fn default() -> (r: Self)
        ensures
            r@ == StateView::empty(),
    {
        State {
            entities: Table::new(),
            concepts: Table::new(),
            concepts_gtin: Table::new(),
            objects: Table::new(),
            balances: Table::new(),
        }
    }
}

impl State {
    /// Looks up an already created [`Entity`] by name.
    pub fn get_entity(&self, name: &str) -> (r: Result<&Entity, UnknownEntity>)
        ensures
            match r {
                Ok(entity) => self@.entities.contains_key(name@) && self@.entities[name@]
                    == entity@,
                Err(e) => !self@.entities.contains_key(name@) && e.0@ == name@,
            },
    {
        let key = Name::new(name);
        match self.entities.get(&key) {
            Some(entity) => Ok(entity),
            None => Err(UnknownEntity(key)),
        }
    }

    /// Looks up an already created [`Concept`] by name.
    pub fn get_concept(&self, name: &str) -> (r: Result<&Concept, UnknownConcept>)
        ensures
            match r {
                Ok(concept) => self@.concepts.contains_key(name@) && self@.concepts[name@]
                    == concept@,
                Err(e) => !self@.concepts.contains_key(name@) && e.0@ == name@,
            },
    {
        let key = Name::new(name);
        match self.concepts.get(&key) {
            Some(concept) => Ok(concept),
            None => Err(UnknownConcept(key)),
        }
    }

    /// Looks up an already created [`Concept`]
    /// that had a GTIN specified on creation
    /// by [`Gtin`].
    ///
    /// # Caveats
    ///
    /// This might have unintended consequences with shadowing!
    /// For example, take the following script:
    ///
    /// ```text
    /// create concept A price 1€ gtin 12345678
    /// create concept A price 2€
    /// create concept A price 3€
    /// ```
    ///
    /// There are now 3 concepts with the name `A`,
    /// but only the last one with price `3€` is reachable by the name `A`.
    /// The first one with the GTIN `12345678`
    /// can be reached via that GTIN.
    /// The second one, however, is inaccessible
    /// (assuming it is not a parent of an object).
    pub fn get_concept_by_gtin(&self, gtin: &Gtin) -> (r: Result<&Concept, UnknownConceptGtin>)
        ensures
            match r {
                Ok(concept) => self@.concepts_gtin.contains_key(gtin@)
                    && self@.concepts_gtin[gtin@] == concept@,
                Err(e) => !self@.concepts_gtin.contains_key(gtin@) && e.0@ == gtin@,
            },
    {
        match self.concepts_gtin.get(gtin) {
            Some(concept) => Ok(concept),
            None => Err(UnknownConceptGtin(*gtin)),
        }
    }

    /// Looks up an already created [`Object`] by name.
    pub fn get_object(&self, name: &str) -> (r: Result<&Object, UnknownObject>)
        ensures
            match r {
                Ok(object) => self@.objects.contains_key(name@) && self@.objects[name@]
                    == object@,
                Err(e) => !self@.objects.contains_key(name@) && e.0@ == name@,
            },
    {
        let key = Name::new(name);
        match self.objects.get(&key) {
            Some(object) => Ok(object),
            None => Err(UnknownObject(key)),
        }
    }

    /// The directed relation from the entity called `source` to the
    /// one called `target`.
    ///
    /// # Errors
    ///
    /// An unknown name, the source's first, or [`Same`] where both
    /// names lead to the same entity.
    pub fn get_dir(&self, source: &str, target: &str) -> (r: Result<Dir, Repr>)
        ensures
            match self@.dir(source@, target@) {
                Ok(dir) => r is Ok && r->Ok_0@ == dir,
                Err(e) => r is Err && r->Err_0@ == e,
            },
    {
        let source = match self.get_entity(source) {
            Ok(entity) => entity.clone(),
            Err(e) => {
                return Err(Repr::UnknownActor(UnknownActor::Entity(e)));
            },
        };
        let target = match self.get_entity(target) {
            Ok(entity) => entity.clone(),
            Err(e) => {
                return Err(Repr::UnknownActor(UnknownActor::Entity(e)));
            },
        };
        match Dir::new(source, target) {
            Ok(dir) => Ok(dir),
            Err(same) => Err(Repr::Same(same)),
        }
    }

    /// Returns how much the [`Dir::source`] owes [`Dir::target`].
    ///
    /// If the balance is _negative_, that means the balance is _in reverse_,
    /// how much [`Dir::target`] owes [`Dir::source`] in absolute value!
    pub fn balance(&self, dir: Dir) -> (r: Balance)
        ensures
            r@ == self@.balance(dir@),
            dir@.wf(),
    {
        let reorder = dir.would_reorder();
        let pair = dir.into_pair();
        let mut stored = match self.balances.get(&pair) {
            Some(balance) => balance.clone(),
            None => Balance::zero(),
        };
        if reorder {
            stored.flip();
        }
        stored
    }
}

} // verus!
