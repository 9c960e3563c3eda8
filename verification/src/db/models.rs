//! The records stored in the database. A node's `uid` is its UUID, held as
//! the 128-bit number that the UUID's bytes spell, most significant first.
use vstd::prelude::*;

verus! {

/// The kind of object that a node is.
#[derive(Debug, Clone, Copy, PartialEq, Eq, Structural)]
pub enum NodeType {
    Person,
    Squad,
    Balance,
    Txn,
}

/// A row of the `node` table: the global identity of every object.
#[derive(Debug, Clone, Copy, PartialEq, Eq, Structural)]
pub struct Node {
    pub id: i32,
    pub uid: u128,
    pub node_type: NodeType,
}

/// A node to insert.
#[derive(Debug, Clone, Copy, PartialEq, Eq, Structural)]
pub struct NewNode {
    pub uid: u128,
    pub node_type: NodeType,
}

/// A row of the `person` table.
#[derive(Debug, Clone)]
pub struct PersonDetail {
    pub id: i32,
    pub node_id: i32,
    pub display_name: String,
    pub email: String,
    pub first_name: String,
    pub last_name: String,
}

/// A person: its node and its details.
#[derive(Debug, Clone)]
pub struct Person {
    pub node: Node,
    pub detail: PersonDetail,
}

/// A row of the `squad` table.
#[derive(Debug, Clone)]
pub struct SquadDetail {
    pub id: i32,
    pub node_id: i32,
    pub display_name: String,
}

/// A squad: its node and its details.
#[derive(Debug, Clone)]
pub struct Squad {
    pub node: Node,
    pub detail: SquadDetail,
}

/// A person to insert.
#[derive(Debug)]
pub struct NewPerson<'a> {
    pub node_id: i32,
    pub email: &'a str,
    pub display_name: &'a str,
    pub first_name: &'a str,
    pub last_name: &'a str,
}

/// A squad to insert.
#[derive(Debug)]
pub struct NewSquad<'a> {
    pub node_id: i32,
    pub display_name: &'a str,
}

/// A row of the `balance` table: a person's balance within a squad.
#[derive(Debug, Clone, Copy, PartialEq, Eq, Structural)]
pub struct BalanceDetail {
    pub id: i32,
    pub node_id: i32,
    pub person_id: i32,
    pub squad_id: i32,
}

/// A balance: its node and its details.
#[derive(Debug, Clone, Copy, PartialEq, Eq, Structural)]
pub struct Balance {
    pub node: Node,
    pub detail: BalanceDetail,
}

/// A balance to insert.
#[derive(Debug, Clone, Copy, PartialEq, Eq, Structural)]
pub struct NewBalance {
    pub node_id: i32,
    pub person_id: i32,
    pub squad_id: i32,
}

/// A row of the `txn` table.
#[derive(Debug, Clone, Copy, PartialEq, Eq, Structural)]
pub struct TransactionDetail {
    pub id: i32,
    pub node_id: i32,
    pub squad_id: i32,
}

/// A transaction: its node and its details.
#[derive(Debug, Clone, Copy, PartialEq, Eq, Structural)]
pub struct Transaction {
    pub node: Node,
    pub detail: TransactionDetail,
}

/// A transaction to insert.
#[derive(Debug, Clone, Copy, PartialEq, Eq, Structural)]
pub struct NewTransaction {
    pub node_id: i32,
    pub squad_id: i32,
}

/// A row of the `txn_part` table: the change that a transaction makes to one balance.
#[derive(Debug, Clone, Copy, PartialEq, Eq, Structural)]
pub struct TransactionPart {
    pub id: i32,
    pub txn_id: i32,
    pub balance_id: i32,
    pub balance_change_cents: i32,
}

/// A transaction part to insert.
#[derive(Debug, Clone, Copy, PartialEq, Eq, Structural)]
pub struct NewTransactionPart {
    pub txn_id: i32,
    pub balance_id: i32,
    pub balance_change_cents: i32,
}

/// A row linking a person to a squad, with the person's balance there.
#[derive(Debug, Clone, Copy, PartialEq, Eq, Structural)]
pub struct PersonSquadConnection {
    pub id: i32,
    pub person_id: i32,
    pub squad_id: i32,
    pub balance_cents: i32,
}

} // verus!
