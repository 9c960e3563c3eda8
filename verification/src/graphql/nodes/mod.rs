//! The objects of the graph: people, squads, balances and transactions.
use crate::db::models;
use crate::uid::{hyphenated_uuid, uuid_text};
use vstd::prelude::*;

verus! {

/// A person of the graph.
#[derive(Debug, Clone)]
pub struct Person {
    pub model: models::Person,
}

/// A squad of the graph.
#[derive(Debug, Clone)]
pub struct Squad {
    pub model: models::Squad,
}

/// A person's balance within a squad.
#[derive(Debug, Clone, Copy)]
pub struct Balance {
    pub model: models::Balance,
}

/// A transaction of a squad.
#[derive(Debug, Clone, Copy)]
pub struct Transaction {
    pub model: models::Transaction,
}

/// An object of the graph that can be fetched by its id.
#[derive(Debug, Clone)]
pub enum Node {
    Person(Person),
    Squad(Squad),
}

/// What resolving a global id reads once its node row is found: the detail
/// row of the person or of the squad that the node is, by the node's row id.
#[derive(Debug, Clone, Copy, PartialEq, Eq, Structural)]
pub enum NodeDetailLookup {
    Person(i32),
    Squad(i32),
    /// Balances and transactions are not offered as nodes.
    NotANode,
}

impl Node {
    /// Decides, from the type of the node row found for a global id, which
    /// detail row to read next.
    pub fn detail_lookup(found: &models::Node) -> (r: NodeDetailLookup)
        ensures
            r == match found.node_type {
                models::NodeType::Person => NodeDetailLookup::Person(found.id),
                models::NodeType::Squad => NodeDetailLookup::Squad(found.id),
                models::NodeType::Balance | models::NodeType::Txn => NodeDetailLookup::NotANode,
            },
    {
        match found.node_type {
            models::NodeType::Person => NodeDetailLookup::Person(found.id),
            models::NodeType::Squad => NodeDetailLookup::Squad(found.id),
            models::NodeType::Balance | models::NodeType::Txn => NodeDetailLookup::NotANode,
        }
    }
}

impl Person {
    /// The global id: the hyphenated text of the person's UUID.
    pub fn id(&self) -> (r: String)
        ensures
            r@ == hyphenated_uuid(self.model.node.uid),
    {
        uuid_text(self.model.node.uid)
    }

    pub fn email(&self) -> (r: &str)
        ensures
            r@ == self.model.detail.email@,
    {
        self.model.detail.email.as_str()
    }

    pub fn display_name(&self) -> (r: &str)
        ensures
            r@ == self.model.detail.display_name@,
    {
        self.model.detail.display_name.as_str()
    }

    pub fn first_name(&self) -> (r: &str)
        ensures
            r@ == self.model.detail.first_name@,
    {
        self.model.detail.first_name.as_str()
    }

    pub fn last_name(&self) -> (r: &str)
        ensures
            r@ == self.model.detail.last_name@,
    {
        self.model.detail.last_name.as_str()
    }
}

impl Squad {
    /// The global id: the hyphenated text of the squad's UUID.
    pub fn id(&self) -> (r: String)
        ensures
            r@ == hyphenated_uuid(self.model.node.uid),
    {
        uuid_text(self.model.node.uid)
    }

    pub fn display_name(&self) -> (r: &str)
        ensures
            r@ == self.model.detail.display_name@,
    {
        self.model.detail.display_name.as_str()
    }
}

/// The balance in cents given the sum of the balance's changes (`None` when
/// it has none): the sum, or zero.
pub open spec fn total_cents_of(sum: Option<i64>) -> i32 {
    match sum {
        Some(n) => n as i32,
        None => 0,
    }
}

impl Balance {
    /// The global id: the hyphenated text of the balance's UUID.
    pub fn id(&self) -> (r: String)
        ensures
            r@ == hyphenated_uuid(self.model.node.uid),
    {
        uuid_text(self.model.node.uid)
    }

    /// The balance in cents, from the sum of its changes. The sum must fit in
    /// an `i32` ("Exceeded maximum representable balance").
    pub fn total_cents_from(sum: Option<i64>) -> (r: i32)
        requires
            sum matches Some(n) ==> i32::MIN <= n <= i32::MAX,
        ensures
            r == total_cents_of(sum),
            sum matches Some(n) ==> r == n,
    {
        match sum {
            Some(n) => n as i32,
            None => 0,
        }
    }
}

impl Transaction {
    /// The global id: the hyphenated text of the transaction's UUID.
    pub fn id(&self) -> (r: String)
        ensures
            r@ == hyphenated_uuid(self.model.node.uid),
    {
        uuid_text(self.model.node.uid)
    }
}


impl From<models::Person> for Person {
    fn from(model: models::Person) -> (r: Person) {
        Person { model }
    }
}

impl vstd::std_specs::convert::FromSpecImpl<models::Person> for Person {
    open spec fn obeys_from_spec() -> bool {
        true
    }

    open spec fn from_spec(v: models::Person) -> Person {
        Person { model: v }
    }
}

impl From<models::Squad> for Squad {
    fn from(model: models::Squad) -> (r: Squad) {
        Squad { model }
    }
}

impl vstd::std_specs::convert::FromSpecImpl<models::Squad> for Squad {
    open spec fn obeys_from_spec() -> bool {
        true
    }

    open spec fn from_spec(v: models::Squad) -> Squad {
        Squad { model: v }
    }
}

impl From<models::Balance> for Balance {
    fn from(model: models::Balance) -> (r: Balance) {
        Balance { model }
    }
}

impl vstd::std_specs::convert::FromSpecImpl<models::Balance> for Balance {
    open spec fn obeys_from_spec() -> bool {
        true
    }

    open spec fn from_spec(v: models::Balance) -> Balance {
        Balance { model: v }
    }
}

impl From<models::Transaction> for Transaction {
    fn from(model: models::Transaction) -> (r: Transaction) {
        Transaction { model }
    }
}

impl vstd::std_specs::convert::FromSpecImpl<models::Transaction> for Transaction {
    open spec fn obeys_from_spec() -> bool {
        true
    }

    open spec fn from_spec(v: models::Transaction) -> Transaction {
        Transaction { model: v }
    }
}
} // verus!
