//! All kinds of runtime errors.

use crate::ext::Gtin;
use crate::runtime::model::{Entity, Product, ProductView};
use crate::runtime::name::Name;
use vstd::prelude::*;

verus! {

/// The input could not be understood semantically.
#[derive(Debug, PartialEq, Eq)]
pub enum Repr {
    UnknownActor(UnknownActor),
    Same(Same),
    DeliveryPaymentUnclear(PriceUnspecified),
    BothZero(BothZero),
}

/// Unknown actor. Maybe a typo? If not, create it.
#[derive(Debug, PartialEq, Eq)]
pub enum UnknownActor {
    Entity(UnknownEntity),
    Concept(UnknownConcept),
    ConceptGtin(UnknownConceptGtin),
    Object(UnknownObject),
    ProductName(UnknownProductName),
}

/// No entity has this name.
#[derive(Debug, PartialEq, Eq)]
pub struct UnknownEntity(pub Name);

/// No concept has this name.
#[derive(Debug, PartialEq, Eq)]
pub struct UnknownConcept(pub Name);

/// No concept has this barcode.
#[derive(Debug, PartialEq, Eq)]
pub struct UnknownConceptGtin(pub Gtin);

/// No object has this name.
#[derive(Debug, PartialEq, Eq)]
pub struct UnknownObject(pub Name);

/// The name is neither an object name nor a concept name.
#[derive(Debug, PartialEq, Eq)]
pub struct UnknownProductName(pub Name);

/// There is no reason for a noop in money processing. Likely a typo.
#[derive(Debug, PartialEq, Eq)]
pub struct Same(pub Entity, pub Entity);

/// The price of that product is not specified and
/// could not be inferred.
///
/// If that is intentional as it's a gift, specify `0` as price.
/// Otherwise, see if you might need to update a concept definition.
#[derive(Debug, PartialEq, Eq)]
pub struct PriceUnspecified {
    pub product: Product,
}

/// A split in which neither side has a share.
#[derive(Debug, Clone, Copy, PartialEq, Eq)]
pub struct BothZero;

/// What an error says, with names as sequences of characters.
pub ghost enum ReprView {
    UnknownEntity(Seq<char>),
    UnknownConcept(Seq<char>),
    UnknownConceptGtin(u64),
    UnknownObject(Seq<char>),
    UnknownProductName(Seq<char>),
    Same(Seq<char>, Seq<char>),
    PriceUnspecified(ProductView),
    BothZero,
}

impl View for UnknownActor {
    type V = ReprView;

    open spec fn view(&self) -> ReprView {
        match *self {
            UnknownActor::Entity(e) => ReprView::UnknownEntity(e.0@),
            UnknownActor::Concept(e) => ReprView::UnknownConcept(e.0@),
            UnknownActor::ConceptGtin(e) => ReprView::UnknownConceptGtin(e.0@),
            UnknownActor::Object(e) => ReprView::UnknownObject(e.0@),
            UnknownActor::ProductName(e) => ReprView::UnknownProductName(e.0@),
        }
    }
}

impl View for Repr {
    type V = ReprView;

    open spec fn view(&self) -> ReprView {
        match *self {
            Repr::UnknownActor(e) => e@,
            Repr::Same(e) => ReprView::Same(e.0@, e.1@),
            Repr::DeliveryPaymentUnclear(e) => ReprView::PriceUnspecified(e.product@),
            Repr::BothZero(_) => ReprView::BothZero,
        }
    }
}

} // verus!
