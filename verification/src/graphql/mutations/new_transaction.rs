//! The input of the `newTransaction` mutation: its validation, its parsing,
//! and the transaction parts it leads to.
use crate::db::models;
use crate::uid::{hyphenated_uuid, parse_uuid, parsed_uuid};
use std::collections::HashMap;
use vstd::prelude::*;

verus! {

broadcast use vstd::std_specs::hash::group_hash_axioms;

/// What the sum check reads of a GraphQL input value: whether it is a list,
/// and for each item of the list the `changeCents` number that the item holds
/// when it is an object with such a number that fits in an `i64` (`None` for
/// any other item).
#[derive(Debug, Clone)]
pub enum BalanceChangesValue {
    List(Vec<Option<i64>>),
    Other,
}

/// The input validator that requires the balance changes to add up to zero.
#[derive(Debug, Clone, Copy)]
pub struct ChangesSumToZero {}

/// The amount that a list item contributes to the sum: its number when that
/// fits in an `i32`, else nothing.
pub open spec fn counted_change(item: Option<i64>) -> int {
    match item {
        Some(n) => if i32::MIN <= n <= i32::MAX {
            n as int
        } else {
            0
        },
        None => 0,
    }
}

/// The sum of the amounts that the list items contribute.
pub open spec fn changes_sum(items: Seq<Option<i64>>) -> int
    decreases items.len(),
{
    if items.len() == 0 {
        0
    } else {
        changes_sum(items.drop_last()) + counted_change(items.last())
    }
}

/// Every running sum of the list fits in an `i32`, as the sum check computes it.
pub open spec fn running_sums_fit(items: Seq<Option<i64>>) -> bool {
    forall|k: int| 0 <= k <= items.len() ==> i32::MIN <= #[trigger] changes_sum(items.take(k)) <= i32::MAX
}

impl ChangesSumToZero {
    /// Whether the sum check can run on `value` without its running sum leaving
    /// the range of `i32` (where the sum would overflow).
    pub fn sum_fits(&self, value: &BalanceChangesValue) -> (r: bool)
        ensures
            r == (value matches BalanceChangesValue::List(items) ==> running_sums_fit(items@)),
    {
        match value {
            BalanceChangesValue::List(items) => {
                let mut sum: i64 = 0;
                let mut k: usize = 0;
                assert(items@.take(0) =~= Seq::<Option<i64>>::empty());
                while k < items.len()
                    invariant
                        k <= items@.len(),
                        sum == changes_sum(items@.take(k as int)),
                        forall|j: int| 0 <= j <= k ==> i32::MIN <= #[trigger] changes_sum(items@.take(j)) <= i32::MAX,
                        *value == BalanceChangesValue::List(*items),
                    decreases items.len() - k,
                {
                    proof {
                        assert(items@.take(k + 1).drop_last() =~= items@.take(k as int));
                        assert(items@.take(k + 1).last() == items@[k as int]);
                    }
                    if let Some(n) = items[k] {
                        if i32::MIN as i64 <= n && n <= i32::MAX as i64 {
                            sum = sum + n;
                        }
                    }
                    if sum < i32::MIN as i64 || sum > i32::MAX as i64 {
                        assert(!(i32::MIN <= changes_sum(items@.take(k + 1)) <= i32::MAX));
                        return false;
                    }
                    k = k + 1;
                }
                proof {
                    assert(items@.take(items@.len() as int) =~= items@);
                }
                true
            },
            BalanceChangesValue::Other => true,
        }
    }

    /// Checks that the changes add up to zero; a value that is not a list passes.
    pub fn is_valid(&self, value: &BalanceChangesValue) -> (r: Result<(), String>)
        requires
            value matches BalanceChangesValue::List(items) ==> running_sums_fit(items@),
        ensures
            match value {
                BalanceChangesValue::List(items) => (r is Ok <==> changes_sum(items@) == 0),
                BalanceChangesValue::Other => r is Ok,
            },
            r matches Err(message) ==> message@ == "Changes must add up to zero"@,
    {
        if let BalanceChangesValue::List(items) = value {
            let mut sum: i32 = 0;
            let mut k: usize = 0;
            assert(items@.take(0) =~= Seq::<Option<i64>>::empty());
            while k < items.len()
                invariant
                    k <= items@.len(),
                    running_sums_fit(items@),
                    sum == changes_sum(items@.take(k as int)),
                decreases items.len() - k,
            {
                proof {
                    assert(items@.take(k + 1).drop_last() =~= items@.take(k as int));
                    assert(items@.take(k + 1).last() == items@[k as int]);
                    assert(i32::MIN <= changes_sum(items@.take(k + 1)) <= i32::MAX);
                }
                if let Some(n) = items[k] {
                    if i32::MIN as i64 <= n && n <= i32::MAX as i64 {
                        sum = sum + n as i32;
                    }
                }
                k = k + 1;
            }
            proof {
                assert(items@.take(items@.len() as int) =~= items@);
            }
            if sum != 0 {
                return Err(String::from_str("Changes must add up to zero"));
            }
        }
        Ok(())
    }
}

/// One balance change of the input: the balance's global id and the change in cents.
#[derive(Debug, Clone)]
pub struct BalanceChangeDetail {
    pub balance_id: String,
    pub change_cents: i32,
}

/// A balance change whose balance id has been read as a UUID.
#[derive(Debug, Clone, Copy)]
pub struct ParsedBalanceChangeDetail {
    pub balance_uid: u128,
    pub change_cents: i32,
}

/// The input of the `newTransaction` mutation.
#[derive(Debug, Clone)]
pub struct NewTransactionInput {
    pub squad_id: String,
    pub balance_changes_detail: Vec<BalanceChangeDetail>,
}

/// The input with its ids read as UUIDs; the changes are keyed by balance.
#[derive(Debug, Clone)]
pub struct ParsedNewTransactionInput {
    pub squad_uid: u128,
    pub balance_changes_detail: HashMap<u128, i32>,
}

/// Every balance id of the changes is a UUID.
pub open spec fn all_ids_parse(details: Seq<BalanceChangeDetail>) -> bool {
    forall|i: int| 0 <= i < details.len() ==> (#[trigger] parsed_uuid(details[i].balance_id@)) is Some
}

/// Every balance id of the changes is the hyphenated text of some UUID, as
/// the server writes the global ids of balances.
pub open spec fn hyphenated_ids(details: Seq<BalanceChangeDetail>) -> bool {
    forall|i: int| 0 <= i < details.len() ==> exists|u: u128| hyphenated_uuid(u) == (#[trigger] details[i]).balance_id@
}

/// The text reads as the UUID whose hyphenated text it is, if it is one.
pub open spec fn reads_back(text: Seq<char>) -> bool {
    forall|u: u128| #[trigger] hyphenated_uuid(u) == text ==> parsed_uuid(text) == Some(u)
}

/// The changes keyed by balance: inserted in order, a later change to a
/// balance replacing an earlier one.
pub open spec fn changes_by_balance(details: Seq<BalanceChangeDetail>) -> Map<u128, i32>
    decreases details.len(),
{
    if details.len() == 0 {
        Map::empty()
    } else {
        changes_by_balance(details.drop_last()).insert(
            parsed_uuid(details.last().balance_id@).unwrap(),
            details.last().change_cents,
        )
    }
}

impl ParsedBalanceChangeDetail {
    /// Reads the balance id as a UUID.
    pub fn try_from(value: BalanceChangeDetail) -> (r: Result<ParsedBalanceChangeDetail, uuid::Error>)
        ensures
            r is Ok <==> parsed_uuid(value.balance_id@) is Some,
            r matches Ok(p) ==> Some(p.balance_uid) == parsed_uuid(value.balance_id@) && p.change_cents
                == value.change_cents,
            // the global id that a balance displays reads back as its identity
            forall|u: u128| #[trigger] hyphenated_uuid(u) == value.balance_id@ ==> (r matches Ok(p)
                && p.balance_uid == u),
    {
        let balance_uid = parse_uuid(value.balance_id.as_str())?;
        Ok(ParsedBalanceChangeDetail { balance_uid, change_cents: value.change_cents })
    }
}

impl ParsedNewTransactionInput {
    /// Reads the squad id and every balance id as UUIDs, stopping at the
    /// first id that is not one.
    pub fn try_from(value: NewTransactionInput) -> (r: Result<ParsedNewTransactionInput, uuid::Error>)
        ensures
            r is Ok <==> parsed_uuid(value.squad_id@) is Some && all_ids_parse(value.balance_changes_detail@),
            r matches Ok(p) ==> Some(p.squad_uid) == parsed_uuid(value.squad_id@)
                && p.balance_changes_detail@ == changes_by_balance(value.balance_changes_detail@),
            // the global ids that the server displays read back as the identities they were written from
            (exists|u: u128| hyphenated_uuid(u) == value.squad_id@) && hyphenated_ids(
                value.balance_changes_detail@,
            ) ==> r is Ok,
            r is Ok ==> reads_back(value.squad_id@),
            r is Ok ==> forall|i: int|
                0 <= i < value.balance_changes_detail@.len() ==> reads_back(
                    (#[trigger] value.balance_changes_detail@[i]).balance_id@,
                ),
    {
        let squad_uid = parse_uuid(value.squad_id.as_str())?;
        let details = value.balance_changes_detail;
        let mut changes: HashMap<u128, i32> = HashMap::new();
        let mut k: usize = 0;
        assert(details@.take(0) =~= Seq::<BalanceChangeDetail>::empty());
        while k < details.len()
            invariant
                k <= details@.len(),
                details@ == value.balance_changes_detail@,
                all_ids_parse(details@.take(k as int)),
                changes@ == changes_by_balance(details@.take(k as int)),
                reads_back(value.squad_id@),
                forall|j: int| 0 <= j < k ==> reads_back((#[trigger] details@[j]).balance_id@),
            decreases details.len() - k,
        {
            proof {
                assert(details@.take(k + 1).drop_last() =~= details@.take(k as int));
                assert(details@.take(k + 1).last() == details@[k as int]);
            }
            let balance_uid = match parse_uuid(details[k].balance_id.as_str()) {
                Ok(u) => u,
                Err(e) => {
                    assert(!all_ids_parse(details@)) by {
                        assert(parsed_uuid(details@[k as int].balance_id@) is None);
                    }
                    assert(!hyphenated_ids(details@)) by {
                        if hyphenated_ids(details@) {
                            let u = choose|u: u128| hyphenated_uuid(u) == details@[k as int].balance_id@;
                        }
                    }
                    return Err(e);
                },
            };
            changes.insert(balance_uid, details[k].change_cents);
            proof {
                assert forall|i: int| 0 <= i < k + 1 implies (#[trigger] parsed_uuid(
                    details@.take(k + 1)[i].balance_id@,
                )) is Some by {
                    if i < k {
                        assert(details@.take(k + 1)[i] == details@.take(k as int)[i]);
                    }
                }
            }
            k = k + 1;
        }
        proof {
            assert(details@.take(details@.len() as int) =~= details@);
        }
        Ok(ParsedNewTransactionInput { squad_uid, balance_changes_detail: changes })
    }
}

/// The parts that a new transaction `txn_id` makes of the balances found:
/// one per balance, in order, each with the change given for its balance.
pub open spec fn parts_for(txn_id: i32, balances: Seq<models::Balance>, changes: Map<u128, i32>) -> Seq<
    models::NewTransactionPart,
> {
    Seq::new(
        balances.len(),
        |i: int|
            models::NewTransactionPart {
                txn_id,
                balance_id: balances[i].detail.id,
                balance_change_cents: changes[balances[i].node.uid],
            },
    )
}

/// The transaction parts of a new transaction `txn_id`: one per balance
/// found, in the order found, each with the change given for its balance.
///
/// Every balance found must have a change ("Internal error").
pub fn new_transaction_parts(txn_id: i32, balances: &Vec<models::Balance>, changes: &HashMap<u128, i32>) -> (r: Vec<
    models::NewTransactionPart,
>)
    requires
        forall|i: int| 0 <= i < balances@.len() ==> changes@.contains_key(#[trigger] balances@[i].node.uid),
    ensures
        r@ == parts_for(txn_id, balances@, changes@),
        r@.len() == balances@.len(),
        forall|i: int|
            0 <= i < r@.len() ==> (#[trigger] r@[i]).txn_id == txn_id && r@[i].balance_id
                == balances@[i].detail.id && changes@.contains_key(balances@[i].node.uid)
                && r@[i].balance_change_cents == changes@[balances@[i].node.uid],
{
    let mut parts: Vec<models::NewTransactionPart> = Vec::new();
    let mut i: usize = 0;
    while i < balances.len()
        invariant
            i <= balances@.len(),
            parts@.len() == i,
            forall|j: int| 0 <= j < balances@.len() ==> changes@.contains_key(#[trigger] balances@[j].node.uid),
            forall|j: int| 0 <= j < i ==> #[trigger] parts@[j] == (models::NewTransactionPart {
                txn_id,
                balance_id: balances@[j].detail.id,
                balance_change_cents: changes@[balances@[j].node.uid],
            }),
        decreases balances.len() - i,
    {
        let balance = balances[i];
        assert(changes@.contains_key(balances@[i as int].node.uid));
        let change = match changes.get(&balance.node.uid) {
            Some(c) => *c,
            None => {
                assert(false);
                0
            },
        };
        parts.push(
            models::NewTransactionPart {
                txn_id,
                balance_id: balance.detail.id,
                balance_change_cents: change,
            },
        );
        i = i + 1;
    }
    assert(parts@ =~= parts_for(txn_id, balances@, changes@));
    parts
}


/// The balance id of each change, read as a UUID.
pub open spec fn detail_uids(details: Seq<BalanceChangeDetail>) -> Seq<u128> {
    details.map_values(|d: BalanceChangeDetail| parsed_uuid(d.balance_id@).unwrap())
}

/// What the sum check reads of the changes: each change's amount.
pub open spec fn detail_items(details: Seq<BalanceChangeDetail>) -> Seq<Option<i64>> {
    details.map_values(|d: BalanceChangeDetail| Some(d.change_cents as i64))
}

/// The total change that the parts make.
pub open spec fn parts_total(parts: Seq<models::NewTransactionPart>) -> int
    decreases parts.len(),
{
    if parts.len() == 0 {
        0
    } else {
        parts_total(parts.drop_last()) + parts.last().balance_change_cents
    }
}

/// The sum of the changes that `m` gives the keys.
pub open spec fn sum_at(keys: Seq<u128>, m: Map<u128, i32>) -> int
    decreases keys.len(),
{
    if keys.len() == 0 {
        0
    } else {
        sum_at(keys.drop_last(), m) + m[keys.last()]
    }
}

/// The uids of the balances found.
pub open spec fn balance_uids(balances: Seq<models::Balance>) -> Seq<u128> {
    balances.map_values(|b: models::Balance| b.node.uid)
}

/// A transaction whose input passed the sum check changes balances by
/// amounts that add up to zero, when each balance is named once in the input
/// and exactly the balances named were found.
pub proof fn law_accepted_transaction_balances(
    txn_id: i32,
    details: Seq<BalanceChangeDetail>,
    balances: Seq<models::Balance>,
)
    requires
        all_ids_parse(details),
        detail_uids(details).no_duplicates(),
        changes_sum(detail_items(details)) == 0,
        balance_uids(balances).no_duplicates(),
        forall|u: u128| detail_uids(details).contains(u) <==> balance_uids(balances).contains(u),
    ensures
        parts_total(parts_for(txn_id, balances, changes_by_balance(details))) == 0,
{
    let m = changes_by_balance(details);
    lemma_changes_by_distinct_balance(details);
    lemma_sum_at_values(details, m);
    lemma_sum_at_permutation(detail_uids(details), balance_uids(balances), m);
    lemma_parts_total(txn_id, balances, m);
}

/// Each part of a new transaction belongs to that transaction and is booked
/// to the balance found at its place, with the change given for that very
/// balance: the parts follow the balances one for one.
pub proof fn law_each_part_booked_to_its_balance(
    txn_id: i32,
    balances: Seq<models::Balance>,
    changes: Map<u128, i32>,
)
    ensures
        parts_for(txn_id, balances, changes).len() == balances.len(),
        forall|i: int|
            0 <= i < balances.len() ==> {
                let part = #[trigger] parts_for(txn_id, balances, changes)[i];
                &&& part.txn_id == txn_id
                &&& part.balance_id == balances[i].detail.id
                &&& part.balance_change_cents == changes[balances[i].node.uid]
            },
{
}

/// A transaction whose parsed changes add up to zero, where exactly the
/// balances keyed by the changes were found, each once, makes one part per
/// key, and its parts add up to zero. `keys` lists the keys of the changes,
/// each once, in any order.
pub proof fn law_parts_over_parsed_changes(
    txn_id: i32,
    changes: Map<u128, i32>,
    keys: Seq<u128>,
    balances: Seq<models::Balance>,
)
    requires
        keys.no_duplicates(),
        forall|u: u128| keys.contains(u) <==> changes.dom().contains(u),
        sum_at(keys, changes) == 0,
        balance_uids(balances).no_duplicates(),
        forall|u: u128| changes.dom().contains(u) <==> balance_uids(balances).contains(u),
    ensures
        parts_for(txn_id, balances, changes).len() == keys.len(),
        parts_total(parts_for(txn_id, balances, changes)) == 0,
{
    let b = balance_uids(balances);
    lemma_sum_at_permutation(keys, b, changes);
    lemma_parts_total(txn_id, balances, changes);
    keys.unique_seq_to_set();
    b.unique_seq_to_set();
    assert(keys.to_set() =~= b.to_set());
}

/// With distinct balance ids, each change is found in the map under its balance.
proof fn lemma_changes_by_distinct_balance(details: Seq<BalanceChangeDetail>)
    requires
        all_ids_parse(details),
        detail_uids(details).no_duplicates(),
    ensures
        forall|i: int| 0 <= i < details.len() ==> changes_by_balance(details).contains_key(
            #[trigger] detail_uids(details)[i],
        ) && changes_by_balance(details)[detail_uids(details)[i]] == details[i].change_cents,
    decreases details.len(),
{
    if details.len() > 0 {
        let init = details.drop_last();
        assert forall|i: int| 0 <= i < init.len() implies (#[trigger] parsed_uuid(init[i].balance_id@)) is Some by {
            assert(init[i] == details[i]);
        }
        assert(detail_uids(init) =~= detail_uids(details).drop_last());
        lemma_changes_by_distinct_balance(init);
        let last = details.len() - 1;
        assert forall|i: int| 0 <= i < details.len() implies changes_by_balance(details).contains_key(
            #[trigger] detail_uids(details)[i],
        ) && changes_by_balance(details)[detail_uids(details)[i]] == details[i].change_cents by {
            if i < last {
                assert(detail_uids(init)[i] == detail_uids(details)[i]);
                assert(detail_uids(details)[i] != detail_uids(details)[last]);
            }
        }
    }
}

/// The sum over the balance ids of their changes is the sum of the changes
/// that the sum check reads.
proof fn lemma_sum_at_values(details: Seq<BalanceChangeDetail>, m: Map<u128, i32>)
    requires
        forall|i: int| 0 <= i < details.len() ==> m[#[trigger] detail_uids(details)[i]] == details[i].change_cents,
    ensures
        sum_at(detail_uids(details), m) == changes_sum(detail_items(details)),
    decreases details.len(),
{
    if details.len() > 0 {
        let init = details.drop_last();
        assert(detail_uids(init) =~= detail_uids(details).drop_last());
        assert(detail_items(init) =~= detail_items(details).drop_last());
        assert forall|i: int| 0 <= i < init.len() implies m[#[trigger] detail_uids(init)[i]] == init[i].change_cents by {
            assert(detail_uids(init)[i] == detail_uids(details)[i]);
        }
        lemma_sum_at_values(init, m);
        assert(detail_uids(details).last() == detail_uids(details)[details.len() - 1]);
    }
}

/// Removing a key from a list takes its change out of the sum.
proof fn lemma_sum_at_remove(keys: Seq<u128>, i: int, m: Map<u128, i32>)
    requires
        0 <= i < keys.len(),
    ensures
        sum_at(keys, m) == sum_at(keys.remove(i), m) + m[keys[i]],
    decreases keys.len(),
{
    if i < keys.len() - 1 {
        lemma_sum_at_remove(keys.drop_last(), i, m);
        assert(keys.drop_last().remove(i) =~= keys.remove(i).drop_last());
        assert(keys.remove(i).last() == keys.last());
    } else {
        assert(keys.remove(i) =~= keys.drop_last());
    }
}

/// The sum over a list of distinct keys does not depend on their order.
proof fn lemma_sum_at_permutation(a: Seq<u128>, b: Seq<u128>, m: Map<u128, i32>)
    requires
        a.no_duplicates(),
        b.no_duplicates(),
        forall|u: u128| a.contains(u) <==> b.contains(u),
    ensures
        sum_at(a, m) == sum_at(b, m),
    decreases a.len(),
{
    if a.len() == 0 {
        if b.len() > 0 {
            assert(b.contains(b[0]));
        }
    } else {
        let k = a.last();
        assert(a.contains(k)) by {
            assert(a[a.len() - 1] == k);
        }
        let j = b.index_of(k);
        let b2 = b.remove(j);
        let a2 = a.drop_last();
        lemma_sum_at_remove(b, j, m);
        assert forall|u: u128| a2.contains(u) <==> b2.contains(u) by {
            if a2.contains(u) {
                let x = choose|x: int| 0 <= x < a2.len() && a2[x] == u;
                assert(a[x] == u);
                assert(u != k);
                assert(b.contains(u));
                let y = choose|y: int| 0 <= y < b.len() && b[y] == u;
                assert(y != j);
                if y < j {
                    assert(b2[y] == u);
                } else {
                    assert(b2[y - 1] == u);
                }
            }
            if b2.contains(u) {
                let y = choose|y: int| 0 <= y < b2.len() && b2[y] == u;
                let yy = if y < j { y } else { y + 1 };
                assert(b[yy] == u);
                assert(yy != j);
                assert(u != k);
                assert(a.contains(u));
                let x = choose|x: int| 0 <= x < a.len() && a[x] == u;
                assert(x != a.len() - 1);
                assert(a2[x] == u);
            }
        }
        assert(b2.no_duplicates()) by {
            assert forall|x: int, y: int| 0 <= x < b2.len() && 0 <= y < b2.len() && x != y implies b2[x] != b2[y] by {
                let xx = if x < j { x } else { x + 1 };
                let yy = if y < j { y } else { y + 1 };
                assert(b2[x] == b[xx]);
                assert(b2[y] == b[yy]);
            }
        }
        lemma_sum_at_permutation(a2, b2, m);
    }
}

/// The parts make a total change that is the sum of the changes of the balances found.
proof fn lemma_parts_total(txn_id: i32, balances: Seq<models::Balance>, m: Map<u128, i32>)
    ensures
        parts_total(parts_for(txn_id, balances, m)) == sum_at(balance_uids(balances), m),
    decreases balances.len(),
{
    if balances.len() > 0 {
        let init = balances.drop_last();
        lemma_parts_total(txn_id, init, m);
        assert(parts_for(txn_id, balances, m).drop_last() =~= parts_for(txn_id, init, m));
        assert(balance_uids(balances).drop_last() =~= balance_uids(init));
    }
}
} // verus!
