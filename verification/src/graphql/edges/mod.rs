//! Connections between the objects of the graph. Each is delivered whole:
//! one edge per row found, in the order found, with empty cursors and the
//! page information of a single page.
pub mod util;

use crate::db::models;
use crate::graphql::nodes::{Balance, Person, Squad, Transaction};
use crate::graphql::page_info::PageInfo;
use vstd::prelude::*;

verus! {

/// A transaction that changed a balance, with the change it made.
#[derive(Debug, Clone)]
pub struct BalanceTransactionEdge {
    pub cursor: String,
    pub node: Transaction,
    pub balance_change_cents: i32,
}

/// The transactions that changed a balance.
#[derive(Debug, Clone)]
pub struct BalanceTransactionConnection {
    pub edges: Vec<BalanceTransactionEdge>,
    pub page_info: PageInfo,
}

/// A balance of a person.
#[derive(Debug, Clone)]
pub struct PersonBalanceEdge {
    pub cursor: String,
    pub node: Balance,
}

/// The balances of a person.
#[derive(Debug, Clone)]
pub struct PersonBalanceConnection {
    pub edges: Vec<PersonBalanceEdge>,
    pub page_info: PageInfo,
}

/// A squad of a person, with the person's balance there.
#[derive(Debug, Clone)]
pub struct PersonSquadEdge {
    pub cursor: String,
    pub node: Squad,
    pub balance_cents: i32,
}

/// The squads of a person.
#[derive(Debug, Clone)]
pub struct PersonSquadConnection {
    pub edges: Vec<PersonSquadEdge>,
    pub page_info: PageInfo,
}

/// A balance within a squad.
#[derive(Debug, Clone)]
pub struct SquadBalanceEdge {
    pub cursor: String,
    pub node: Balance,
}

/// The balances within a squad.
#[derive(Debug, Clone)]
pub struct SquadBalanceConnection {
    pub edges: Vec<SquadBalanceEdge>,
    pub page_info: PageInfo,
}

/// A member of a squad, with the member's balance there.
#[derive(Debug, Clone)]
pub struct SquadMemberEdge {
    pub cursor: String,
    pub node: Person,
    pub balance_cents: i32,
}

/// The members of a squad.
#[derive(Debug, Clone)]
pub struct SquadMemberConnection {
    pub edges: Vec<SquadMemberEdge>,
    pub page_info: PageInfo,
}

/// A transaction of a squad.
#[derive(Debug, Clone)]
pub struct SquadTransactionEdge {
    pub cursor: String,
    pub node: Transaction,
}

/// The transactions of a squad.
#[derive(Debug, Clone)]
pub struct SquadTransactionConnection {
    pub edges: Vec<SquadTransactionEdge>,
    pub page_info: PageInfo,
}

/// A balance that a transaction changed, with the change it made.
#[derive(Debug, Clone)]
pub struct TransactionBalanceEdge {
    pub cursor: String,
    pub node: Balance,
    pub balance_change_cents: i32,
}

/// The balances that a transaction changed.
#[derive(Debug, Clone)]
pub struct TransactionBalanceConnection {
    pub edges: Vec<TransactionBalanceEdge>,
    pub page_info: PageInfo,
}

impl BalanceTransactionConnection {
    /// The connection of the rows found for a balance: each transaction part
    /// with its transaction.
    pub fn from_rows(rows: Vec<(models::TransactionPart, models::Transaction)>) -> (r: BalanceTransactionConnection)
        ensures
            r.page_info.is_single_page(),
            r.edges@.len() == rows@.len(),
            forall|i: int| 0 <= i < rows@.len() ==> {
                &&& (#[trigger] r.edges@[i]).cursor@ == Seq::<char>::empty()
                &&& r.edges@[i].node.model == rows@[i].1
                &&& r.edges@[i].balance_change_cents == rows@[i].0.balance_change_cents
            },
    {
        let mut edges: Vec<BalanceTransactionEdge> = Vec::new();
        let mut i: usize = 0;
        while i < rows.len()
            invariant
                i <= rows@.len(),
                edges@.len() == i,
                forall|j: int| 0 <= j < i ==> {
                    &&& (#[trigger] edges@[j]).cursor@ == Seq::<char>::empty()
                    &&& edges@[j].node.model == rows@[j].1
                    &&& edges@[j].balance_change_cents == rows@[j].0.balance_change_cents
                },
            decreases rows.len() - i,
        {
            let (part, transaction) = rows[i];
            edges.push(
                BalanceTransactionEdge {
                    cursor: String::new(),
                    node: Transaction::from(transaction),
                    balance_change_cents: part.balance_change_cents,
                },
            );
            i = i + 1;
        }
        BalanceTransactionConnection { edges, page_info: PageInfo::single_page() }
    }
}

impl PersonBalanceConnection {
    /// The connection of the balances found for a person.
    pub fn from_rows(rows: Vec<models::Balance>) -> (r: PersonBalanceConnection)
        ensures
            r.page_info.is_single_page(),
            r.edges@.len() == rows@.len(),
            forall|i: int| 0 <= i < rows@.len() ==> {
                &&& (#[trigger] r.edges@[i]).cursor@ == Seq::<char>::empty()
                &&& r.edges@[i].node.model == rows@[i]
            },
    {
        let mut edges: Vec<PersonBalanceEdge> = Vec::new();
        let mut i: usize = 0;
        while i < rows.len()
            invariant
                i <= rows@.len(),
                edges@.len() == i,
                forall|j: int| 0 <= j < i ==> {
                    &&& (#[trigger] edges@[j]).cursor@ == Seq::<char>::empty()
                    &&& edges@[j].node.model == rows@[j]
                },
            decreases rows.len() - i,
        {
            edges.push(PersonBalanceEdge { cursor: String::new(), node: Balance::from(rows[i]) });
            i = i + 1;
        }
        PersonBalanceConnection { edges, page_info: PageInfo::single_page() }
    }
}

impl SquadBalanceConnection {
    /// The connection of the balances found within a squad.
    pub fn from_rows(rows: Vec<models::Balance>) -> (r: SquadBalanceConnection)
        ensures
            r.page_info.is_single_page(),
            r.edges@.len() == rows@.len(),
            forall|i: int| 0 <= i < rows@.len() ==> {
                &&& (#[trigger] r.edges@[i]).cursor@ == Seq::<char>::empty()
                &&& r.edges@[i].node.model == rows@[i]
            },
    {
        let mut edges: Vec<SquadBalanceEdge> = Vec::new();
        let mut i: usize = 0;
        while i < rows.len()
            invariant
                i <= rows@.len(),
                edges@.len() == i,
                forall|j: int| 0 <= j < i ==> {
                    &&& (#[trigger] edges@[j]).cursor@ == Seq::<char>::empty()
                    &&& edges@[j].node.model == rows@[j]
                },
            decreases rows.len() - i,
        {
            edges.push(SquadBalanceEdge { cursor: String::new(), node: Balance::from(rows[i]) });
            i = i + 1;
        }
        SquadBalanceConnection { edges, page_info: PageInfo::single_page() }
    }
}

impl SquadTransactionConnection {
    /// The connection of the transactions found for a squad.
    pub fn from_rows(rows: Vec<models::Transaction>) -> (r: SquadTransactionConnection)
        ensures
            r.page_info.is_single_page(),
            r.edges@.len() == rows@.len(),
            forall|i: int| 0 <= i < rows@.len() ==> {
                &&& (#[trigger] r.edges@[i]).cursor@ == Seq::<char>::empty()
                &&& r.edges@[i].node.model == rows@[i]
            },
    {
        let mut edges: Vec<SquadTransactionEdge> = Vec::new();
        let mut i: usize = 0;
        while i < rows.len()
            invariant
                i <= rows@.len(),
                edges@.len() == i,
                forall|j: int| 0 <= j < i ==> {
                    &&& (#[trigger] edges@[j]).cursor@ == Seq::<char>::empty()
                    &&& edges@[j].node.model == rows@[j]
                },
            decreases rows.len() - i,
        {
            edges.push(
                SquadTransactionEdge { cursor: String::new(), node: Transaction::from(rows[i]) },
            );
            i = i + 1;
        }
        SquadTransactionConnection { edges, page_info: PageInfo::single_page() }
    }
}

impl TransactionBalanceConnection {
    /// The connection of the rows found for a transaction: each transaction
    /// part with the balance it changed.
    pub fn from_rows(rows: Vec<(models::TransactionPart, models::Balance)>) -> (r: TransactionBalanceConnection)
        ensures
            r.page_info.is_single_page(),
            r.edges@.len() == rows@.len(),
            forall|i: int| 0 <= i < rows@.len() ==> {
                &&& (#[trigger] r.edges@[i]).cursor@ == Seq::<char>::empty()
                &&& r.edges@[i].node.model == rows@[i].1
                &&& r.edges@[i].balance_change_cents == rows@[i].0.balance_change_cents
            },
    {
        let mut edges: Vec<TransactionBalanceEdge> = Vec::new();
        let mut i: usize = 0;
        while i < rows.len()
            invariant
                i <= rows@.len(),
                edges@.len() == i,
                forall|j: int| 0 <= j < i ==> {
                    &&& (#[trigger] edges@[j]).cursor@ == Seq::<char>::empty()
                    &&& edges@[j].node.model == rows@[j].1
                    &&& edges@[j].balance_change_cents == rows@[j].0.balance_change_cents
                },
            decreases rows.len() - i,
        {
            let (part, balance) = rows[i];
            edges.push(
                TransactionBalanceEdge {
                    cursor: String::new(),
                    node: Balance::from(balance),
                    balance_change_cents: part.balance_change_cents,
                },
            );
            i = i + 1;
        }
        TransactionBalanceConnection { edges, page_info: PageInfo::single_page() }
    }
}

impl PersonSquadConnection {
    /// The connection of the rows found for a person: each membership with
    /// its squad.
    pub fn from_rows(rows: Vec<(models::PersonSquadConnection, models::Squad)>) -> (r: PersonSquadConnection)
        ensures
            r.page_info.is_single_page(),
            r.edges@.len() == rows@.len(),
            forall|i: int| 0 <= i < rows@.len() ==> {
                &&& (#[trigger] r.edges@[i]).cursor@ == Seq::<char>::empty()
                &&& r.edges@[i].node.model == rows@[i].1
                &&& r.edges@[i].balance_cents == rows@[i].0.balance_cents
            },
    {
        let ghost all = rows@;
        let mut rest = rows;
        let mut edges: Vec<PersonSquadEdge> = Vec::new();
        while rest.len() > 0
            invariant
                edges@.len() + rest@.len() == all.len(),
                rest@ == all.skip(edges@.len() as int),
                forall|j: int| 0 <= j < edges@.len() ==> {
                    &&& (#[trigger] edges@[j]).cursor@ == Seq::<char>::empty()
                    &&& edges@[j].node.model == all[j].1
                    &&& edges@[j].balance_cents == all[j].0.balance_cents
                },
            decreases rest.len(),
        {
            let ghost k = edges@.len() as int;
            let (connection, squad) = rest.remove(0);
            assert(all.skip(k).drop_first() =~= all.skip(k + 1));
            edges.push(
                PersonSquadEdge {
                    cursor: String::new(),
                    node: Squad::from(squad),
                    balance_cents: connection.balance_cents,
                },
            );
        }
        PersonSquadConnection { edges, page_info: PageInfo::single_page() }
    }
}

impl SquadMemberConnection {
    /// The connection of the rows found for a squad: each membership with its
    /// person.
    pub fn from_rows(rows: Vec<(models::PersonSquadConnection, models::Person)>) -> (r: SquadMemberConnection)
        ensures
            r.page_info.is_single_page(),
            r.edges@.len() == rows@.len(),
            forall|i: int| 0 <= i < rows@.len() ==> {
                &&& (#[trigger] r.edges@[i]).cursor@ == Seq::<char>::empty()
                &&& r.edges@[i].node.model == rows@[i].1
                &&& r.edges@[i].balance_cents == rows@[i].0.balance_cents
            },
    {
        let ghost all = rows@;
        let mut rest = rows;
        let mut edges: Vec<SquadMemberEdge> = Vec::new();
        while rest.len() > 0
            invariant
                edges@.len() + rest@.len() == all.len(),
                rest@ == all.skip(edges@.len() as int),
                forall|j: int| 0 <= j < edges@.len() ==> {
                    &&& (#[trigger] edges@[j]).cursor@ == Seq::<char>::empty()
                    &&& edges@[j].node.model == all[j].1
                    &&& edges@[j].balance_cents == all[j].0.balance_cents
                },
            decreases rest.len(),
        {
            let ghost k = edges@.len() as int;
            let (connection, person) = rest.remove(0);
            assert(all.skip(k).drop_first() =~= all.skip(k + 1));
            edges.push(
                SquadMemberEdge {
                    cursor: String::new(),
                    node: Person::from(person),
                    balance_cents: connection.balance_cents,
                },
            );
        }
        SquadMemberConnection { edges, page_info: PageInfo::single_page() }
    }
}

} // verus!
