//! Refine what's semantically meaningful and what not.
//!
//! A statement of a script speaks of names. A command speaks of the
//! actors that bear them. Each kind of statement has one rule that
//! leads from the one to the other, in the state as it is at that
//! moment; no rule changes the state.

use crate::ext::Money;
use crate::runtime::cmd::{
    Balance, Command, CommandView, Concept, Create, Deliver, Entity, Object, Pay,
};
use crate::runtime::error::{Repr, ReprView, UnknownActor, UnknownProductName};
use crate::runtime::model::{Dir, Product, ProductView, Ratio, RatioView, StateView};
use crate::runtime::name::Name;
use crate::runtime::Runtime;
use crate::syntax::ast;
use vstd::prelude::*;

verus! {

impl StateView {
    /// The concept that an object names as its parent, if it names one.
    pub open spec fn parent(self, parent: Option<Seq<char>>) -> Result<
        Option<crate::runtime::model::ConceptView>,
        ReprView,
    > {
        match parent {
            None => Ok(None),
            Some(name) => if self.concepts.contains_key(name) {
                Ok(Some(self.concepts[name]))
            } else {
                Err(ReprView::UnknownConcept(name))
            },
        }
    }

    /// The product that a delivery speaks of. A barcode leads to the
    /// concept that was created with it. A name leads to the object of
    /// that name, and only where there is none to the concept.
    pub open spec fn product(self, what: ast::ProductView) -> Result<ProductView, ReprView> {
        match what {
            ast::ProductView::Id(gtin) => if self.concepts_gtin.contains_key(gtin) {
                Ok(ProductView::Concept(self.concepts_gtin[gtin]))
            } else {
                Err(ReprView::UnknownConceptGtin(gtin))
            },
            ast::ProductView::Name(name) => if self.objects.contains_key(name) {
                Ok(ProductView::Object(self.objects[name]))
            } else if self.concepts.contains_key(name) {
                Ok(ProductView::Concept(self.concepts[name]))
            } else {
                Err(ReprView::UnknownProductName(name))
            },
        }
    }

    /// The command that a delivery stands for. The product has to be
    /// known; the price is the one written, else the product's default;
    /// then come the two entities, then the split, which without one
    /// written leaves all to the target.
    pub open spec fn resolve_deliver(self, deliver: ast::DeliverView) -> Result<
        CommandView,
        ReprView,
    > {
        match self.product(deliver.what) {
            Err(e) => Err(e),
            Ok(product) => {
                let price = match deliver.price {
                    Some(price) => Some(price),
                    None => product.default_price(),
                };
                match price {
                    None => Err(ReprView::PriceUnspecified(product)),
                    Some(price) => match self.dir(deliver.who.from, deliver.who.to) {
                        Err(e) => Err(e),
                        Ok(who) => match resolve_split(deliver.split) {
                            Err(e) => Err(e),
                            Ok(split) => Ok(CommandView::Deliver(who, price, split)),
                        },
                    },
                }
            },
        }
    }

    /// The command that a statement stands for in this state, or why
    /// it stands for none.
    pub open spec fn resolve(self, stmt: ast::StmtView) -> Result<CommandView, ReprView> {
        match stmt {
            ast::StmtView::CreateEntity(name) => Ok(CommandView::CreateEntity(name)),
            ast::StmtView::CreateConcept(concept) => Ok(
                CommandView::CreateConcept(
                    crate::runtime::model::ConceptView {
                        name: concept.name,
                        default_price: concept.default_price,
                        gtin: concept.gtin,
                    },
                ),
            ),
            ast::StmtView::CreateObject(object) => match self.parent(object.parent) {
                Ok(parent) => Ok(CommandView::CreateObject(object.name, parent)),
                Err(e) => Err(e),
            },
            ast::StmtView::Pay(pay) => match self.dir(pay.who.from, pay.who.to) {
                Ok(who) => Ok(CommandView::Pay(pay.amount, who)),
                Err(e) => Err(e),
            },
            ast::StmtView::Deliver(deliver) => self.resolve_deliver(deliver),
            ast::StmtView::Balance(between) => match self.dir(between.from, between.to) {
                Ok(between) => Ok(CommandView::Balance(between)),
                Err(e) => Err(e),
            },
        }
    }
}

/// The split that a delivery asks for: the one written, unless both
/// of its sides are zero, and all to the target where none is written.
pub open spec fn resolve_split(split: Option<ast::RatioView>) -> Result<RatioView, ReprView> {
    match split {
        None => Ok(RatioView { source: 0, target: 1 }),
        Some(split) => if split.left + split.right > 0 {
            Ok(RatioView { source: split.left, target: split.right })
        } else {
            Err(ReprView::BothZero)
        },
    }
}

/// A transfer from an entity to itself is refused, and so is the
/// question of what it owes itself.
pub proof fn lemma_self_transfer_refused(state: StateView, name: Seq<char>, amount: nat)
    requires
        state.entities.contains_key(name),
    ensures
        state.resolve(
            ast::StmtView::Pay(
                ast::PayView { amount, who: ast::DirView { from: name, to: name } },
            ),
        ) == Err::<CommandView, ReprView>(
            ReprView::Same(state.entities[name], state.entities[name]),
        ),
        state.resolve(ast::StmtView::Balance(ast::DirView { from: name, to: name })) == Err::<
            CommandView,
            ReprView,
        >(ReprView::Same(state.entities[name], state.entities[name])),
{
}

/// Whatever resolves is valid to apply: its direction is between two
/// different entities, and its split has a share.
pub proof fn lemma_resolved_is_valid(state: StateView, stmt: ast::StmtView)
    ensures
        match state.resolve(stmt) {
            Ok(CommandView::Pay(_, who)) => who.wf(),
            Ok(CommandView::Deliver(who, _, split)) => who.wf() && split.wf(),
            Ok(CommandView::Balance(between)) => between.wf(),
            _ => true,
        },
{
}

/// A delivery that names no price goes by the default price of its
/// product: that of the concept, or that of the concept from which
/// the object was made.
pub proof fn lemma_delivery_falls_back(
    state: StateView,
    what: ast::ProductView,
    who: ast::DirView,
    split: Option<ast::RatioView>,
)
    requires
        state.product(what) is Ok,
        state.dir(who.from, who.to) is Ok,
        resolve_split(split) is Ok,
    ensures
        match state.product(what)->Ok_0.default_price() {
            Some(price) => state.resolve_deliver(
                ast::DeliverView { what, who, price: None, split },
            ) == Ok::<CommandView, ReprView>(
                CommandView::Deliver(
                    state.dir(who.from, who.to)->Ok_0,
                    price,
                    resolve_split(split)->Ok_0,
                ),
            ),
            None => state.resolve_deliver(ast::DeliverView { what, who, price: None, split })
                == Err::<CommandView, ReprView>(
                ReprView::PriceUnspecified(state.product(what)->Ok_0),
            ),
        },
{
}

/// Whether an outcome is the one that its model gives.
pub open spec fn agrees<T: View>(r: Result<T, Repr>, model: Result<T::V, ReprView>) -> bool {
    match model {
        Ok(value) => r is Ok && r->Ok_0@ == value,
        Err(e) => r is Err && r->Err_0@ == e,
    }
}

impl Runtime {
    /// Convert a textually parsed statement
    /// into a semantically valid and meaningful command.
    ///
    /// # Errors
    ///
    /// Returns an error when the statement is semantically invalid,
    /// see [`Repr`] for details.
    pub fn repr(&self, source: ast::Stmt) -> (r: Result<Command, Repr>)
        ensures
            agrees(r, self@.resolve(source@)),
    {
        match source {
            ast::Stmt::Create(create) => match create.who {
                ast::Actor::Entity(entity) => Ok(
                    Command::Create(Create::Entity(self.repr_entity(entity))),
                ),
                ast::Actor::Concept(concept) => Ok(
                    Command::Create(Create::Concept(self.repr_concept(concept))),
                ),
                ast::Actor::Object(object) => match self.repr_object(object) {
                    Ok(object) => Ok(Command::Create(Create::Object(object))),
                    Err(e) => Err(e),
                },
            },
            ast::Stmt::Transfer(ast::Transfer::Pay(pay)) => match self.repr_dir(pay.who) {
                Ok(who) => Ok(Command::Pay(Pay { amount: pay.amount, who })),
                Err(e) => Err(e),
            },
            ast::Stmt::Transfer(ast::Transfer::Deliver(deliver)) => match self.repr_deliver(
                deliver,
            ) {
                Ok(deliver) => Ok(Command::Deliver(deliver)),
                Err(e) => Err(e),
            },
            ast::Stmt::Analyze(ast::Analyze::Balance(balance)) => match self.repr_dir(
                balance.between,
            ) {
                Ok(between) => Ok(Command::Balance(Balance { between })),
                Err(e) => Err(e),
            },
        }
    }

    /// An entity to create. Nothing has to exist for that.
    pub fn repr_entity(&self, source: ast::Entity) -> (r: Entity)
        ensures
            r.name@ == source.name@,
    {
        Entity { name: Name(source.name.take()) }
    }

    /// A concept to create. Nothing has to exist for that.
    pub fn repr_concept(&self, source: ast::Concept) -> (r: Concept)
        ensures
            r.name@ == source.name@,
            r.default_price == source.default_price,
            r.gtin == source.gtin,
    {
        Concept {
            name: Name(source.name.take()),
            default_price: source.default_price,
            gtin: source.gtin,
        }
    }

    /// An object to create. Not having a parent concept is entirely
    /// valid: the only erroneous case is a parent that doesn't exist.
    pub fn repr_object(&self, source: ast::Object) -> (r: Result<Object, Repr>)
        ensures
            match self@.parent(source@.parent) {
                Ok(parent) => r is Ok && r->Ok_0.name@ == source@.name && parent == match r->Ok_0
                    .parent {
                    Some(concept) => Some(concept@),
                    None => None,
                },
                Err(e) => r is Err && r->Err_0@ == e,
            },
    {
        let parent = match source.parent {
            Some(parent) => match self.state.get_concept(parent.get()) {
                Ok(concept) => Some(concept.clone()),
                Err(e) => {
                    return Err(Repr::UnknownActor(UnknownActor::Concept(e)));
                },
            },
            None => None,
        };
        Ok(Object { name: Name(source.name.take()), parent })
    }

    /// The two entities that a direction names.
    pub fn repr_dir(&self, source: ast::Dir) -> (r: Result<Dir, Repr>)
        ensures
            agrees(r, self@.dir(source@.from, source@.to)),
    {
        self.state.get_dir(source.from.get(), source.to.get())
    }

    /// The split that a delivery asks for.
    pub fn repr_ratio(&self, source: ast::Ratio) -> (r: Result<Ratio, Repr>)
        ensures
            agrees(r, resolve_split(Some(source@))),
    {
        match Ratio::new(source.left, source.right) {
            Ok(ratio) => Ok(ratio),
            Err(e) => Err(Repr::BothZero(e)),
        }
    }

    /// The product that a delivery speaks of.
    pub fn repr_product(&self, source: ast::Product) -> (r: Result<Product, Repr>)
        ensures
            agrees(r, self@.product(source@)),
    {
        match source {
            ast::Product::Id(gtin) => match self.state.get_concept_by_gtin(&gtin) {
                Ok(concept) => Ok(Product::Concept(concept.clone())),
                Err(e) => Err(Repr::UnknownActor(UnknownActor::ConceptGtin(e))),
            },
            ast::Product::Name(name) => {
                let name = name.get();
                match self.state.get_object(name) {
                    Ok(object) => Ok(Product::Object(object.clone())),
                    Err(_) => match self.state.get_concept(name) {
                        Ok(concept) => Ok(Product::Concept(concept.clone())),
                        Err(_) => Err(
                            Repr::UnknownActor(
                                UnknownActor::ProductName(UnknownProductName(Name::new(name))),
                            ),
                        ),
                    },
                }
            },
        }
    }

    /// The delivery that a statement asks for.
    pub fn repr_deliver(&self, source: ast::Deliver) -> (r: Result<Deliver, Repr>)
        ensures
            match self@.resolve_deliver(source@) {
                Ok(cmd) => r is Ok && cmd == CommandView::Deliver(
                    r->Ok_0.who@,
                    r->Ok_0.price@,
                    r->Ok_0.split@,
                ),
                Err(e) => r is Err && r->Err_0@ == e,
            },
    {
        // this check should *always* happen on delivery.
        // there's no purpose in delivering something that doesn't exist.
        let product = match self.repr_product(source.what) {
            Ok(product) => product,
            Err(e) => {
                return Err(e);
            },
        };
        // goal: find the price of the delivered product
        let price: Money = match source.price {
            // is it directly the deliver command itself?
            Some(price) => price,
            // if not, is there a known default price for the product?
            None => match product.default_price() {
                Ok(price) => price.clone(),
                Err(e) => {
                    return Err(Repr::DeliveryPaymentUnclear(e));
                },
            },
        };
        let who = match self.repr_dir(source.who) {
            Ok(who) => who,
            Err(e) => {
                return Err(e);
            },
        };
        let split = match source.split {
            Some(split) => match self.repr_ratio(split) {
                Ok(split) => split,
                Err(e) => {
                    return Err(e);
                },
            },
            None => Ratio::default(),
        };
        Ok(Deliver { who, price, split })
    }
}

} // verus!
