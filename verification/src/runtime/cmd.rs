//! Structurally interact with, modify and do things.

use crate::ext::{Balance as Owed, Gtin, Money};
use crate::runtime::model::{
    lemma_pair_symmetric, lemma_split_sums, Concept as LiveConcept, ConceptView, Dir, DirView,
    Entity as LiveEntity, Object as LiveObject, ObjectView, Ratio, RatioView, StateView,
};
use crate::runtime::name::lemma_name_order_total;
use crate::runtime::name::Name;
use crate::runtime::Runtime;
use crate::syntax::ast::{gtin_view, money_view};
use vstd::prelude::*;

verus! {

/// Do something that makes, modifies or reads.
#[derive(Debug, PartialEq, Eq)]
pub enum Command {
    Create(Create),
    Pay(Pay),
    Deliver(Deliver),
    Balance(Balance),
}

/// Introduce a new actor.
///
/// This is required for any actor
/// before it can be used.
/// While this does create some noise,
/// it has 2 advantages:
///
/// 1. It reduces the likelihood of typos causing damage.
///     Money handling applications
///     are definitely not ones
///     where one wants to have some
///     payment not included
///     because the finger slipped one key.
/// 2. It allows post-reference.
///     For example,
///     [`Concept`] can store a default price
///     to use when none is specified and
///     a GTIN it is referred to by.
///     This allows using the default price
///     when just scanning a GTIN!
///
/// # Caveats
///
/// Creating another actor with the same name
/// replaces the previous actor
/// while also replacing all references
/// (but not previous payments).
#[derive(Debug, PartialEq, Eq)]
pub enum Create {
    Entity(Entity),
    Concept(Concept),
    Object(Object),
}

/// A live entity except that it might not exist yet.
#[derive(Debug, PartialEq, Eq)]
pub struct Entity {
    pub name: Name,
}

/// A live concept except that it might not exist yet.
#[derive(Debug, PartialEq, Eq)]
pub struct Concept {
    pub name: Name,
    pub default_price: Option<Money>,
    pub gtin: Option<Gtin>,
}

/// A live object except that it might not exist yet.
#[derive(Debug, PartialEq, Eq)]
pub struct Object {
    pub name: Name,
    pub parent: Option<LiveConcept>,
}

/// Move money from *source* to *target*.
///
/// This modifies the balance ***negatively***!
/// The balance denotes how much *source* owes the *target*,
/// which is how much *source* would need to pay *target*
/// to be on 0 again.
///
/// For example, `A` paying 1€ to `B` means
/// the balance from `A` to `B` will be -1€.
#[derive(Debug, PartialEq, Eq)]
pub struct Pay {
    pub amount: Money,
    pub who: Dir,
}

/// Hand a product over, for a price of which each side bears a part.
#[derive(Debug, PartialEq, Eq)]
pub struct Deliver {
    pub who: Dir,
    pub price: Money,
    pub split: Ratio,
}

/// Evaluates how much `between.source` owes `between.target`.
#[derive(Debug, PartialEq, Eq)]
pub struct Balance {
    pub between: Dir,
}

/// The answer to a [`Balance`]: who owes whom, and how much.
#[derive(Debug, PartialEq, Eq)]
pub struct Debit {
    /// From the one who owes to the one who is owed.
    pub between: Dir,
    pub amount: Money,
}

/// What a command says.
pub ghost enum CommandView {
    CreateEntity(Seq<char>),
    CreateConcept(ConceptView),
    CreateObject(Seq<char>, Option<ConceptView>),
    Pay(nat, DirView),
    Deliver(DirView, nat, RatioView),
    Balance(DirView),
}

impl View for Create {
    type V = CommandView;

    open spec fn view(&self) -> CommandView {
        match *self {
            Create::Entity(entity) => CommandView::CreateEntity(entity.name@),
            Create::Concept(concept) => CommandView::CreateConcept(
                ConceptView {
                    name: concept.name@,
                    default_price: money_view(concept.default_price),
                    gtin: gtin_view(concept.gtin),
                },
            ),
            Create::Object(object) => CommandView::CreateObject(
                object.name@,
                match object.parent {
                    Some(parent) => Some(parent@),
                    None => None,
                },
            ),
        }
    }
}

impl View for Command {
    type V = CommandView;

    open spec fn view(&self) -> CommandView {
        match *self {
            Command::Create(create) => create@,
            Command::Pay(pay) => CommandView::Pay(pay.amount@, pay.who@),
            Command::Deliver(deliver) => CommandView::Deliver(
                deliver.who@,
                deliver.price@,
                deliver.split@,
            ),
            Command::Balance(balance) => CommandView::Balance(balance.between@),
        }
    }
}

impl StateView {
    /// The state once an entity of that name is there.
    pub open spec fn create_entity(self, name: Seq<char>) -> StateView {
        StateView { entities: self.entities.insert(name, name), ..self }
    }

    /// The state once the concept is there: under its name, and under
    /// its barcode if it has one.
    pub open spec fn create_concept(self, concept: ConceptView) -> StateView {
        StateView {
            concepts: self.concepts.insert(concept.name, concept),
            concepts_gtin: match concept.gtin {
                Some(gtin) => self.concepts_gtin.insert(gtin, concept),
                None => self.concepts_gtin,
            },
            ..self
        }
    }

    /// The state once an object of that name and parent is there.
    pub open spec fn create_object(self, name: Seq<char>, parent: Option<ConceptView>)
        -> StateView {
        StateView {
            objects: self.objects.insert(name, ObjectView { name: Some(name), parent }),
            ..self
        }
    }

    /// The state once the source of `who` has paid `amount` to its
    /// target: the source then owes the target that much less.
    pub open spec fn pay(self, amount: nat, who: DirView) -> StateView {
        let delta = if who.would_reorder() {
            amount as int
        } else {
            -(amount as int)
        };
        StateView {
            balances: self.balances.insert(who.pair(), self.stored(who.pair()) + delta),
            ..self
        }
    }

    /// The state once a product of that price was delivered along
    /// `who`: the part of the price that the split leaves to the
    /// target is paid along `who`.
    pub open spec fn deliver(self, who: DirView, price: nat, split: RatioView) -> StateView {
        self.pay(split.target_part(price), who)
    }

    /// The state once the command is done.
    pub open spec fn apply(self, cmd: CommandView) -> StateView {
        match cmd {
            CommandView::CreateEntity(name) => self.create_entity(name),
            CommandView::CreateConcept(concept) => self.create_concept(concept),
            CommandView::CreateObject(name, parent) => self.create_object(name, parent),
            CommandView::Pay(amount, who) => self.pay(amount, who),
            CommandView::Deliver(who, price, split) => self.deliver(who, price, split),
            CommandView::Balance(_) => self,
        }
    }

    /// The answer to a balance query: the direction turned so that
    /// what is owed along it is not negative, and that amount.
    pub open spec fn debit(self, between: DirView) -> (DirView, nat) {
        let owed = self.balance(between);
        if owed < 0 {
            (between.flip(), (-owed) as nat)
        } else {
            (between, owed as nat)
        }
    }
}

/// A payment lowers what its source owes its target by the amount,
/// raises what the target owes the source by as much, and leaves
/// every other pair and every actor alone.
pub proof fn lemma_pay_moves_balance(state: StateView, amount: nat, who: DirView)
    requires
        who.wf(),
    ensures
        state.pay(amount, who).balance(who) == state.balance(who) - amount,
        state.pay(amount, who).balance(who.flip()) == state.balance(who.flip()) + amount,
        forall|other: DirView|
            other.wf() && other.pair() != who.pair() ==> #[trigger] state.pay(
                amount,
                who,
            ).balance(other) == state.balance(other),
        state.pay(amount, who).entities == state.entities,
        state.pay(amount, who).concepts == state.concepts,
        state.pay(amount, who).concepts_gtin == state.concepts_gtin,
        state.pay(amount, who).objects == state.objects,
{
    lemma_name_order_total(who.source, who.target);
    lemma_pair_symmetric(who.source, who.target);
}

/// Payments can be recorded in any order: the ledger comes out the same.
pub proof fn lemma_pay_commutes(state: StateView, a: nat, first: DirView, b: nat, second: DirView)
    ensures
        state.pay(a, first).pay(b, second) == state.pay(b, second).pay(a, first),
{
    assert(state.pay(a, first).pay(b, second).balances =~= state.pay(b, second).pay(
        a,
        first,
    ).balances);
}

/// A delivery without a split is a payment of the whole price.
pub proof fn lemma_deliver_unsplit(state: StateView, who: DirView, price: nat)
    ensures
        state.deliver(who, price, RatioView { source: 0, target: 1 }) == state.pay(price, who),
{
    assert((price * 0) / 1 == 0);
}

/// In a delivery the two sides bear the whole price between them, and
/// what is paid along the direction is the target's part of it.
pub proof fn lemma_deliver_shares(state: StateView, who: DirView, price: nat, split: RatioView)
    requires
        who.wf(),
        split.wf(),
    ensures
        split.source_part(price) + split.target_part(price) == price,
        state.deliver(who, price, split).balance(who) == state.balance(who) - split.target_part(
            price,
        ),
{
    lemma_split_sums(split, price);
    lemma_pay_moves_balance(state, split.target_part(price), who);
}

/// Nothing is ever deleted: whatever name or barcode leads to an
/// actor before a command still leads to one after it, and every
/// pair with a balance keeps one.
pub proof fn lemma_apply_keeps(state: StateView, cmd: CommandView)
    ensures
        state.entities.dom().subset_of(state.apply(cmd).entities.dom()),
        state.concepts.dom().subset_of(state.apply(cmd).concepts.dom()),
        state.concepts_gtin.dom().subset_of(state.apply(cmd).concepts_gtin.dom()),
        state.objects.dom().subset_of(state.apply(cmd).objects.dom()),
        state.balances.dom().subset_of(state.apply(cmd).balances.dom()),
{
}

/// Creating a concept touches no object, so an object keeps the
/// parent that it was made with. The concept is then found under its
/// name; under a barcode other than its own, the concept that was
/// there stays.
pub proof fn lemma_concept_shadows_name_only(state: StateView, concept: ConceptView)
    ensures
        state.create_concept(concept).objects == state.objects,
        state.create_concept(concept).concepts[concept.name] == concept,
        forall|gtin: u64|
            concept.gtin != Some(gtin) ==> (#[trigger] state.create_concept(
                concept,
            ).concepts_gtin.contains_key(gtin) == state.concepts_gtin.contains_key(gtin))
                && state.create_concept(concept).concepts_gtin[gtin]
                == state.concepts_gtin[gtin],
{
}

impl Runtime {
    /// Performs one single command, and returns the answer where the
    /// command asks for one.
    ///
    /// This can never fail, any [`Command`]
    /// ***that is constructed from this instance***
    /// is valid to run at any point after construction!
    pub fn fulfil(&mut self, cmd: Command) -> (r: Option<Debit>)
        ensures
            final(self)@ == old(self)@.apply(cmd@),
            match cmd@ {
                CommandView::Balance(between) => r is Some && (r->0.between@, r->0.amount@)
                    == old(self)@.debit(between),
                _ => r is None,
            },
    {
        match cmd {
            Command::Create(cmd) => {
                self.create(cmd);
                None
            },
            Command::Pay(cmd) => {
                self.pay(cmd);
                None
            },
            Command::Deliver(cmd) => {
                self.deliver(cmd);
                None
            },
            Command::Balance(cmd) => Some(self.balance(cmd)),
        }
    }

    /// Brings a new actor into being. One of the same name is
    /// replaced, for whoever looks the name up from now on.
    pub fn create(&mut self, cmd: Create)
        ensures
            final(self)@ == old(self)@.apply(cmd@),
    {
        match cmd {
            Create::Entity(entity) => {
                let key = entity.name.clone();
                self.state.entities.insert(key, LiveEntity::create(entity.name));
            },
            Create::Concept(concept) => {
                let key = concept.name.clone();
                let gtin = concept.gtin;
                let concept = LiveConcept::create(
                    concept.name,
                    concept.default_price,
                    concept.gtin,
                );
                // if it has a GTIN, we also need to remember it separately
                // so it is still stored when it is shadowed by name
                if let Some(gtin) = gtin {
                    self.state.concepts_gtin.insert(gtin, concept.clone());
                }
                self.state.concepts.insert(key, concept);
            },
            Create::Object(object) => {
                let key = object.name.clone();
                self.state.objects.insert(key, LiveObject::create(object.name, object.parent));
            },
        }
    }

    /// Records that the source has paid the amount to the target.
    pub fn pay(&mut self, cmd: Pay)
        ensures
            final(self)@ == old(self)@.pay(cmd.amount@, cmd.who@),
            cmd.who@.wf(),
    {
        let mut value = Owed::from_money(cmd.amount);
        value.flip();
        let key = value.take_order(cmd.who);
        let updated = match self.state.balances.get(&key) {
            Some(stored) => stored.add(&value),
            None => value,
        };
        self.state.balances.insert(key, updated);
    }

    /// Records a delivery by the money that it moves.
    pub fn deliver(&mut self, cmd: Deliver)
        ensures
            final(self)@ == old(self)@.deliver(cmd.who@, cmd.price@, cmd.split@),
            cmd.who@.wf(),
            cmd.split@.wf(),
    {
        // at the moment a delivery has no difference to a payment
        // the logic of finding the price is handled in the repr
        // since possession is not modelled nor deliveries/payments/purchases tracked
        let (_source_supply, target_supply) = cmd.split.split(cmd.price);
        self.pay(Pay { amount: target_supply, who: cmd.who });
    }

    /// Who owes whom between the two, and how much.
    pub fn balance(&self, cmd: Balance) -> (r: Debit)
        ensures
            (r.between@, r.amount@) == self@.debit(cmd.between@),
            cmd.between@.wf(),
    {
        let mut between = cmd.between;
        let owed = self.state.balance(between.clone());
        if owed.is_negative() {
            between.flip();
        }
        Debit { between, amount: owed.abs() }
    }
}

} // verus!
