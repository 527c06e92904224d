//! The key-value backend: the ledger mapped onto a record store with
//! conditional writes. One aggregate record holds the roster, the running
//! balances and the next sequence number; one transaction record per
//! sequence number holds the log, sorted by number. Every mutation is the
//! two-step write: a conditional append of the transaction record (the
//! optimistic lock on its sequence number), then the aggregate update.
//!
//! A ledger value is singly owned, so the verified protocol never loses
//! its own optimistic lock: the counter invariant keeps the next sequence
//! number above every stored one. The conditional append stays as the
//! guard a concurrently shared deployment would rely on, and
//! `KeyValueDao::from_records` rebuilds an aggregate that a partial
//! two-step write left behind.

use vstd::prelude::*;
use vstd::pervasive::VecAdditionalExecFns;
use crate::awards::{lemma_lookup_bounded, AwardTable};
use crate::clock::now_strings;
use crate::contract::StorageDao;
use crate::ledger::{
    add_name, contains_name, lemma_add_name_contains, lemma_balance_bound, lemma_balance_take_len,
    lemma_balance_take_succ, lemma_names_in_log_last, lemma_nonparticipant_zero,
    lemma_wf_log_drop_last, lemma_wf_log_push, lemma_wf_log_take, names_in_log, names_unique, pot_name, pot_string,
    spec_balance, signed_amount, tx_valid, wf_log, with_pot, Balance, StorageError, Transaction,
    TxView, LOG_CAP, SPLIT_AMOUNT_CENTS,
};
use crate::money::{award_cents, format_cents, spec_award, spec_format_cents, BALANCE_ABS_CAP};

verus! {

/// The ledger aggregate record: roster, running balances (in cents) and
/// the next sequence number to assign.
struct GameRecord {
    players: Vec<String>,
    balances: Vec<(String, i64)>,
    next_transaction_num: u64,
}

/// View of a stored transaction sequence: the log, oldest first.
pub open spec fn kv_log_view(s: Seq<(u64, Transaction)>) -> Seq<TxView> {
    s.map_values(|p: (u64, Transaction)| p.1@)
}

/// The sequence numbers of a stored transaction sequence, in store order.
pub open spec fn kv_keys(s: Seq<(u64, Transaction)>) -> Seq<u64> {
    s.map_values(|p: (u64, Transaction)| p.0)
}

/// Strictly ascending sequence numbers: later transactions carry larger
/// numbers and no number repeats.
pub open spec fn keys_ascending(keys: Seq<u64>) -> bool {
    forall|i: int, j: int| 0 <= i < j < keys.len() ==> keys[i] < keys[j]
}

/// View of an aggregate balance list.
pub open spec fn bal_view(s: Seq<(String, i64)>) -> Seq<(Seq<char>, int)> {
    s.map_values(|p: (String, i64)| (p.0@, p.1 as int))
}

/// The names of an aggregate balance list, in store order.
pub open spec fn bal_keys(s: Seq<(Seq<char>, int)>) -> Seq<Seq<char>> {
    s.map_values(|p: (Seq<char>, int)| p.0)
}

/// Lookup in an aggregate balance list.
pub open spec fn assoc_get(s: Seq<(Seq<char>, int)>, key: Seq<char>) -> Option<int>
    decreases s.len(),
{
    if s.len() == 0 {
        None
    } else if s.last().0 == key {
        Some(s.last().1)
    } else {
        assoc_get(s.drop_last(), key)
    }
}

/// The aggregate agrees with the log: names never repeat, every recorded
/// balance equals the fold of the log for its name, and every participant
/// of the log has a recorded balance.
pub open spec fn agg_ok(bal: Seq<(Seq<char>, int)>, log: Seq<TxView>) -> bool {
    &&& names_unique(bal_keys(bal))
    &&& forall|i: int| 0 <= i < bal.len() ==> (#[trigger] bal[i]).1 == spec_balance(log, bal[i].0)
    &&& forall|x: Seq<char>|
        #[trigger] names_in_log(Seq::empty(), log).contains(x) ==> bal_keys(bal).contains(x)
}

/// With unique names, looking a stored name up returns its stored value.
proof fn lemma_assoc_get_index(s: Seq<(Seq<char>, int)>, i: int)
    requires
        names_unique(bal_keys(s)),
        0 <= i < s.len(),
    ensures
        assoc_get(s, s[i].0) == Some(s[i].1),
    decreases s.len(),
{
    assert(bal_keys(s)[i] == s[i].0);
    if i == s.len() - 1 {
    } else {
        assert(bal_keys(s)[s.len() - 1] == s.last().0);
        assert(s.last().0 != s[i].0);
        assert(forall|j: int| 0 <= j < s.len() - 1 ==> #[trigger] s.drop_last()[j] == s[j]);
        assert(forall|j: int|
            0 <= j < s.len() - 1 ==> #[trigger] bal_keys(s.drop_last())[j] == bal_keys(s)[j]);
        lemma_assoc_get_index(s.drop_last(), i);
    }
}

/// A name that is not stored has no lookup result.
proof fn lemma_assoc_get_absent(s: Seq<(Seq<char>, int)>, key: Seq<char>)
    requires
        !bal_keys(s).contains(key),
    ensures
        assoc_get(s, key) is None,
    decreases s.len(),
{
    if s.len() > 0 {
        assert(bal_keys(s)[s.len() - 1] == s.last().0);
        assert forall|x: Seq<char>| #[trigger] bal_keys(s.drop_last()).contains(x) implies bal_keys(
            s,
        ).contains(x) by {
            let j = choose|j: int|
                0 <= j < bal_keys(s.drop_last()).len() && bal_keys(s.drop_last())[j] == x;
            assert(bal_keys(s)[j] == x);
        }
        lemma_assoc_get_absent(s.drop_last(), key);
    }
}

/// Applies `delta` to `name`'s balance: the in-place update half of the
/// aggregate write. A name seen for the first time is appended with
/// `delta` as its balance.
fn credit(balances: &mut Vec<(String, i64)>, name: &String, delta: i64)
    requires
        names_unique(bal_keys(bal_view(old(balances)@))),
        -BALANCE_ABS_CAP <= delta <= BALANCE_ABS_CAP,
        forall|i: int|
            0 <= i < old(balances)@.len() ==> -BALANCE_ABS_CAP <= (#[trigger] old(
                balances,
            )@[i]).1 + delta <= BALANCE_ABS_CAP,
    ensures
        names_unique(bal_keys(bal_view(final(balances)@))),
        bal_keys(bal_view(final(balances)@)) == add_name(
            bal_keys(bal_view(old(balances)@)),
            name@,
        ),
        forall|i: int|
            0 <= i < old(balances)@.len() ==> (#[trigger] bal_view(final(balances)@)[i]) == (
            bal_view(old(balances)@)[i].0,
            bal_view(old(balances)@)[i].1 + (if bal_view(old(balances)@)[i].0 == name@ {
                delta as int
            } else {
                0
            }),
            ),
        !bal_keys(bal_view(old(balances)@)).contains(name@) ==> final(balances)@.len() == old(
            balances,
        )@.len() + 1 && bal_view(final(balances)@).last() == (name@, delta as int),
        bal_keys(bal_view(old(balances)@)).contains(name@) ==> final(balances)@.len() == old(
            balances,
        )@.len(),
{
    let ghost oldv = bal_view(old(balances)@);
    let mut i: usize = 0;
    while i < balances.len()
        invariant
            0 <= i <= balances@.len(),
            balances@ == old(balances)@,
            oldv == bal_view(old(balances)@),
            names_unique(bal_keys(oldv)),
            -BALANCE_ABS_CAP <= delta <= BALANCE_ABS_CAP,
            forall|j: int|
                0 <= j < old(balances)@.len() ==> -BALANCE_ABS_CAP <= (#[trigger] old(
                    balances,
                )@[j]).1 + delta <= BALANCE_ABS_CAP,
            forall|j: int| 0 <= j < i ==> (#[trigger] oldv[j]).0 != name@,
        decreases balances@.len() - i,
    {
        if balances[i].0 == *name {
            let key = balances[i].0.clone();
            let v = balances[i].1;
            proof {
                assert(balances@[i as int] == old(balances)@[i as int]);
                assert(-BALANCE_ABS_CAP <= old(balances)@[i as int].1 + delta <= BALANCE_ABS_CAP);
            }
            balances.set(i, (key, v + delta));
            proof {
                assert(bal_keys(oldv)[i as int] == name@);
                assert(bal_keys(bal_view(balances@)) =~= bal_keys(oldv));
                assert(bal_keys(bal_view(balances@)) =~= add_name(bal_keys(oldv), name@));
                assert forall|j: int| 0 <= j < oldv.len() implies (#[trigger] bal_view(
                    balances@,
                )[j]) == (oldv[j].0, oldv[j].1 + (if oldv[j].0 == name@ {
                    delta as int
                } else {
                    0
                })) by {
                    if j != i as int {
                        assert(bal_keys(oldv)[j] == oldv[j].0);
                        if j > i as int {
                            assert(bal_keys(oldv)[i as int] != bal_keys(oldv)[j]);
                        }
                        assert(oldv[j].0 != name@);
                    }
                }
            }
            return ;
        }
        i = i + 1;
    }
    proof {
        assert forall|x: Seq<char>| #[trigger] bal_keys(oldv).contains(x) implies x != name@ by {
            let j = choose|j: int| 0 <= j < bal_keys(oldv).len() && bal_keys(oldv)[j] == x;
            assert(oldv[j].0 == x);
        }
    }
    balances.push((name.clone(), delta));
    proof {
        assert(bal_view(balances@) =~= oldv.push((name@, delta as int)));
        assert(bal_keys(bal_view(balances@)) =~= bal_keys(oldv).push(name@));
        assert(bal_keys(bal_view(balances@)) =~= add_name(bal_keys(oldv), name@));
        assert forall|i2: int, j2: int|
            0 <= i2 < j2 < bal_keys(bal_view(balances@)).len() implies bal_keys(
            bal_view(balances@),
        )[i2] != bal_keys(bal_view(balances@))[j2] by {
            if j2 == bal_keys(oldv).len() {
                assert(bal_keys(oldv).contains(bal_keys(oldv)[i2]));
            }
        }
    }
}

/// Applies one appended transaction to the aggregate balances: credit
/// the creditor, debit the debtor. The balances half of the aggregate
/// update, and the single step of rebuilding an aggregate by replaying
/// the log.
fn apply_to_aggregate(
    balances: &mut Vec<(String, i64)>,
    creditor: &String,
    debtor: &String,
    amount: i64,
    Ghost(log): Ghost<Seq<TxView>>,
    Ghost(t): Ghost<TxView>,
)
    requires
        wf_log(log),
        log.len() < LOG_CAP,
        tx_valid(t, log.len() as int),
        t.creditor == creditor@,
        t.debtor == debtor@,
        t.amount == amount as int,
        agg_ok(bal_view(old(balances)@), log),
    ensures
        agg_ok(bal_view(final(balances)@), log.push(t)),
        bal_keys(bal_view(final(balances)@)) == add_name(
            add_name(bal_keys(bal_view(old(balances)@)), t.creditor),
            t.debtor,
        ),
{
    let ghost log0 = log;
    let ghost log1 = log.push(t);
    let ghost a = t.amount;
    let ghost c = t.creditor;
    let ghost d = t.debtor;
    let ghost bv0 = bal_view(balances@);
    proof {
        assert(50 * log0.len() * (log0.len() + 1) <= 50 * 1048576 * 1048577) by (nonlinear_arith)
            requires
                0 <= log0.len() <= 1048576,
        ;
        assert(-50 * 1048576 * 1048577 <= -50 * log0.len() * (log0.len() + 1)) by (nonlinear_arith)
            requires
                0 <= log0.len() <= 1048576,
        ;
        assert(0 <= a <= 100 * (log0.len() + 1));
        assert forall|i: int| 0 <= i < balances@.len() implies -BALANCE_ABS_CAP <= (
        #[trigger] balances@[i]).1 + amount <= BALANCE_ABS_CAP by {
            assert(bv0[i] == (balances@[i].0@, balances@[i].1 as int));
            assert(bv0[i].1 == spec_balance(log0, bv0[i].0));
            lemma_balance_bound(log0, bv0[i].0, log0.len() as int);
            lemma_balance_take_len(log0, bv0[i].0);
        }
    }
    credit(balances, creditor, amount);
    let ghost bv1 = bal_view(balances@);
    proof {
        assert(50 * log0.len() * (log0.len() + 1) <= 50 * 1048576 * 1048577) by (nonlinear_arith)
            requires
                0 <= log0.len() <= 1048576,
        ;
        assert(-50 * 1048576 * 1048577 <= -50 * log0.len() * (log0.len() + 1)) by (nonlinear_arith)
            requires
                0 <= log0.len() <= 1048576,
        ;
        assert forall|i: int| 0 <= i < balances@.len() implies -BALANCE_ABS_CAP <= (
        #[trigger] balances@[i]).1 + (-amount) <= BALANCE_ABS_CAP by {
            assert(bv1[i] == (balances@[i].0@, balances@[i].1 as int));
            if i < bv0.len() {
                assert(bv1[i].1 == bv0[i].1 + (if bv0[i].0 == c {
                    a
                } else {
                    0
                }));
                assert(bv0[i].1 == spec_balance(log0, bv0[i].0));
                lemma_balance_bound(log0, bv0[i].0, log0.len() as int);
                lemma_balance_take_len(log0, bv0[i].0);
            } else {
                assert(bv1.last() == (c, a));
                assert(bv1[i] == bv1.last());
            }
        }
    }
    credit(balances, debtor, -amount);
    let ghost bv2 = bal_view(balances@);
    proof {
        lemma_names_in_log_last(Seq::empty(), log1);
        assert(log1.drop_last() =~= log0);
        assert(log1.last() == t);
        assert forall|i: int| 0 <= i < bv2.len() implies (#[trigger] bv2[i]).1 == spec_balance(
            log1,
            bv2[i].0,
        ) by {
            let k = bv2[i].0;
            assert(spec_balance(log1, k) == spec_balance(log0, k) + signed_amount(t, k));
            if i < bv0.len() {
                assert(bv1[i].1 == bv0[i].1 + (if bv0[i].0 == c {
                    a
                } else {
                    0
                }));
                assert(bv2[i].1 == bv1[i].1 + (if bv1[i].0 == d {
                    -a
                } else {
                    0
                }));
                assert(bv0[i].1 == spec_balance(log0, k));
            } else if i < bv1.len() {
                // the creditor, first seen by this transaction
                assert(bv1[i] == bv1.last());
                assert(bv1[i] == (c, a));
                assert(!bal_keys(bv0).contains(c));
                lemma_nonparticipant_zero(log0, c);
                assert(bv2[i].1 == bv1[i].1 + (if bv1[i].0 == d {
                    -a
                } else {
                    0
                }));
            } else {
                // the debtor, first seen by this transaction
                assert(bv2[i] == bv2.last());
                assert(bv2[i] == (d, (-amount) as int));
                assert(!bal_keys(bv1).contains(d));
                lemma_add_name_contains(bal_keys(bv0), c, d);
                assert(!bal_keys(bv0).contains(d));
                lemma_nonparticipant_zero(log0, d);
                assert(d != c);
            }
        }
        assert forall|x: Seq<char>|
            #[trigger] names_in_log(Seq::empty(), log1).contains(x) implies bal_keys(
            bv2,
        ).contains(x) by {
            let p0 = names_in_log(Seq::empty(), log0);
            lemma_add_name_contains(add_name(p0, c), d, x);
            lemma_add_name_contains(p0, c, x);
            lemma_add_name_contains(bal_keys(bv0), c, x);
            lemma_add_name_contains(bal_keys(bv1), d, x);
            if p0.contains(x) {
                assert(bal_keys(bv0).contains(x));
            }
        }
        assert(agg_ok(bv2, log1));
    }
}

/// The conditional append: writes the transaction record for `num` only
/// when no record holds that number (the optimistic lock), keeping the
/// store sorted; reports `WriteConflict` and writes nothing otherwise.
fn put_if_absent(transactions: &mut Vec<(u64, Transaction)>, num: u64, tx: Transaction) -> (r:
    Result<(), StorageError>)
    requires
        keys_ascending(kv_keys(old(transactions)@)),
    ensures
        keys_ascending(kv_keys(final(transactions)@)),
        r is Ok ==> !kv_keys(old(transactions)@).contains(num),
        r is Ok && (forall|i: int|
            0 <= i < old(transactions)@.len() ==> (#[trigger] kv_keys(old(transactions)@)[i])
                < num) ==> final(transactions)@ == old(transactions)@.push((num, tx)),
        r is Err ==> r->Err_0 == StorageError::WriteConflict && kv_keys(
            old(transactions)@,
        ).contains(num) && final(transactions)@ == old(transactions)@,
{
    let ghost oldv = old(transactions)@;
    let mut i: usize = transactions.len();
    while i > 0
        invariant
            0 <= i <= transactions@.len(),
            transactions@ == oldv,
            oldv == old(transactions)@,
            keys_ascending(kv_keys(oldv)),
            forall|j: int| i <= j < oldv.len() ==> (#[trigger] kv_keys(oldv)[j]) > num,
        decreases i,
    {
        let k = transactions[i - 1].0;
        proof {
            assert(kv_keys(oldv)[i - 1] == k);
        }
        if k == num {
            proof {
                assert(kv_keys(oldv).contains(num));
            }
            return Err(StorageError::WriteConflict);
        }
        if k < num {
            proof {
                assert forall|j: int| 0 <= j < oldv.len() implies (#[trigger] kv_keys(oldv)[j])
                    != num by {
                    if j < i {
                        assert(kv_keys(oldv)[j] <= kv_keys(oldv)[i - 1] || j == i - 1);
                    }
                }
            }
            transactions.insert(i, (num, tx));
            proof {
                lemma_insert_ascending(oldv, i as int, num, tx);
                if forall|j: int| 0 <= j < oldv.len() ==> (#[trigger] kv_keys(oldv)[j]) < num {
                    assert(i == oldv.len()) by {
                        if i < oldv.len() {
                            assert(kv_keys(oldv)[i as int] > num);
                        }
                    }
                    assert(transactions@ =~= oldv.push((num, tx)));
                }
            }
            return Ok(());
        }
        i = i - 1;
    }
    proof {
        assert forall|j: int| 0 <= j < oldv.len() implies (#[trigger] kv_keys(oldv)[j]) != num by {}
    }
    transactions.insert(0, (num, tx));
    proof {
        lemma_insert_ascending(oldv, 0, num, tx);
        if forall|j: int| 0 <= j < oldv.len() ==> (#[trigger] kv_keys(oldv)[j]) < num {
            assert(oldv.len() == 0) by {
                if oldv.len() > 0 {
                    assert(kv_keys(oldv)[0] > num);
                }
            }
            assert(transactions@ =~= oldv.push((num, tx)));
        }
    }
    Ok(())
}

/// Inserting a fresh number between its neighbours keeps the store sorted.
proof fn lemma_insert_ascending(s: Seq<(u64, Transaction)>, p: int, num: u64, tx: Transaction)
    requires
        keys_ascending(kv_keys(s)),
        0 <= p <= s.len(),
        forall|j: int| 0 <= j < p ==> (#[trigger] kv_keys(s)[j]) < num,
        forall|j: int| p <= j < s.len() ==> (#[trigger] kv_keys(s)[j]) > num,
    ensures
        keys_ascending(kv_keys(s.insert(p, (num, tx)))),
{
    let t = s.insert(p, (num, tx));
    assert forall|i: int, j: int| 0 <= i < j < kv_keys(t).len() implies kv_keys(t)[i] < kv_keys(
        t,
    )[j] by {
        assert(kv_keys(t)[i] == t[i].0 && kv_keys(t)[j] == t[j].0);
        if i < p {
            assert(t[i] == s[i] && kv_keys(s)[i] == s[i].0);
        }
        if i == p {
            assert(t[i].0 == num);
        }
        if i > p {
            assert(t[i] == s[i - 1] && kv_keys(s)[i - 1] == s[i - 1].0);
        }
        if j < p {
            assert(t[j] == s[j] && kv_keys(s)[j] == s[j].0);
        }
        if j == p {
            assert(t[j].0 == num);
        }
        if j > p {
            assert(t[j] == s[j - 1] && kv_keys(s)[j - 1] == s[j - 1].0);
        }
    }
}

/// The names of a roster with the pot appended when missing.
fn names_with_pot(players: &Vec<String>) -> (r: Vec<String>)
    ensures
        r@.len() == with_pot(players@.map_values(|s: String| s@)).len(),
        forall|i: int|
            0 <= i < r@.len() ==> (#[trigger] r@[i]@) == with_pot(
                players@.map_values(|s: String| s@),
            )[i],
        exists|i: int| 0 <= i < r@.len() && (#[trigger] r@[i]@) == pot_name(),
{
    let ghost pv = players@.map_values(|s: String| s@);
    let mut out: Vec<String> = Vec::new();
    let mut i: usize = 0;
    while i < players.len()
        invariant
            0 <= i <= players@.len(),
            pv == players@.map_values(|s: String| s@),
            out@.len() == i,
            forall|j: int| 0 <= j < i ==> (#[trigger] out@[j]@) == pv[j],
            forall|j: int| 0 <= j < i ==> out@[j]@ == players@[j]@,
        decreases players@.len() - i,
    {
        out.push(players[i].clone());
        i = i + 1;
    }
    let pot = pot_string();
    if contains_name(&out, &pot) {
        proof {
            assert(out@.map_values(|x: String| x@) =~= pv);
            assert(with_pot(pv) == pv);
            let k = choose|k: int| 0 <= k < pv.len() && pv[k] == pot_name();
            assert(out@[k]@ == pot_name());
        }
    } else {
        proof {
            assert(out@.map_values(|x: String| x@) =~= pv);
            assert(!pv.contains(pot_name()));
        }
        out.push(pot);
        proof {
            assert(out@.len() == with_pot(pv).len());
            assert(out@[out@.len() - 1]@ == pot_name());
        }
    }
    out
}

/// The balances of the aggregate record, formatted for reporting.
fn balances_list(g: &GameRecord, Ghost(log): Ghost<Seq<TxView>>) -> (r: Vec<Balance>)
    requires
        wf_log(log),
        agg_ok(bal_view(g.balances@), log),
    ensures
        r@.len() == bal_keys(bal_view(g.balances@)).len(),
        forall|i: int|
            0 <= i < r@.len() ==> (#[trigger] r@[i].name@) == bal_keys(bal_view(g.balances@))[i]
                && r@[i].amount@ == spec_format_cents(spec_balance(log, bal_view(g.balances@)[i].0)),
{
    let mut out: Vec<Balance> = Vec::new();
    let mut i: usize = 0;
    while i < g.balances.len()
        invariant
            0 <= i <= g.balances@.len(),
            wf_log(log),
            agg_ok(bal_view(g.balances@), log),
            out@.len() == i,
            forall|j: int|
                0 <= j < i ==> (#[trigger] out@[j].name@) == bal_keys(bal_view(g.balances@))[j]
                    && out@[j].amount@ == spec_format_cents(
                    spec_balance(log, bal_view(g.balances@)[j].0),
                ),
        decreases g.balances@.len() - i,
    {
        let c = g.balances[i].1;
        proof {
            assert(bal_view(g.balances@)[i as int].1 == spec_balance(
                log,
                bal_view(g.balances@)[i as int].0,
            ));
            lemma_balance_bound(log, bal_view(g.balances@)[i as int].0, log.len() as int);
            lemma_balance_take_len(log, bal_view(g.balances@)[i as int].0);
            assert(-50 * 1048576 * 1048577 <= -50 * log.len() * (log.len() + 1))
                by (nonlinear_arith)
                requires
                    0 <= log.len() <= 1048576,
            ;
            assert(50 * log.len() * (log.len() + 1) <= 50 * 1048576 * 1048577)
                by (nonlinear_arith)
                requires
                    0 <= log.len() <= 1048576,
            ;
        }
        let b = Balance { name: g.balances[i].0.clone(), amount: format_cents(c) };
        out.push(b);
        proof {
            assert(bal_keys(bal_view(g.balances@))[i as int] == bal_view(g.balances@)[i as int].0);
        }
        i = i + 1;
    }
    out
}

/// Pairwise ascent follows from adjacent ascent.
proof fn lemma_adjacent_ascending(keys: Seq<u64>)
    requires
        forall|j: int| 0 < j < keys.len() ==> (#[trigger] keys[j - 1]) < keys[j],
    ensures
        keys_ascending(keys),
{
    assert forall|i: int, j: int| 0 <= i < j < keys.len() implies keys[i] < keys[j] by {
        lemma_ascending_step(keys, i, j);
    }
}

proof fn lemma_ascending_step(keys: Seq<u64>, i: int, j: int)
    requires
        forall|k: int| 0 < k < keys.len() ==> (#[trigger] keys[k - 1]) < keys[k],
        0 <= i < j < keys.len(),
    ensures
        keys[i] < keys[j],
    decreases j - i,
{
    if j > i + 1 {
        lemma_ascending_step(keys, i, j - 1);
    }
    assert(keys[j - 1] < keys[j]);
}

/// Whether the stored transactions form a valid ledger log: bounded
/// length, named participants, non-negative bounded amounts, and a pot
/// that no prefix overdraws.
fn check_log(transactions: &Vec<(u64, Transaction)>) -> (r: bool)
    ensures
        r == wf_log(kv_log_view(transactions@)),
{
    let ghost log = kv_log_view(transactions@);
    if transactions.len() > LOG_CAP {
        return false;
    }
    let mut pot: i64 = 0;
    let mut i: usize = 0;
    proof {
        assert(log.take(0) =~= Seq::<TxView>::empty());
    }
    while i < transactions.len()
        invariant
            0 <= i <= transactions@.len(),
            log == kv_log_view(transactions@),
            transactions@.len() <= LOG_CAP,
            forall|j: int| 0 <= j < i ==> tx_valid(#[trigger] log[j], j),
            forall|j: int|
                0 <= j <= i ==> 0 <= #[trigger] spec_balance(log.take(j), pot_name())
                    <= SPLIT_AMOUNT_CENTS * j,
            pot == spec_balance(log.take(i as int), pot_name()),
        decreases transactions@.len() - i,
    {
        let t = &transactions[i].1;
        proof {
            assert(log[i as int] == transactions@[i as int].1@);
        }
        if t.creditor.as_str().is_empty() || t.debtor.as_str().is_empty() {
            proof {
                assert(!tx_valid(log[i as int], i as int));
            }
            return false;
        }
        let cap: i64 = 100 * (i as i64 + 1);
        if t.amount < 0 || t.amount > cap {
            proof {
                assert(!tx_valid(log[i as int], i as int));
            }
            return false;
        }
        let pot_label = pot_string();
        let mut delta: i64 = 0;
        if t.creditor == pot_label {
            delta = t.amount;
        }
        if t.debtor == pot_label {
            delta = delta - t.amount;
        }
        proof {
            lemma_balance_take_succ(log, pot_name(), i as int);
            assert(delta == signed_amount(log[i as int], pot_name()));
        }
        let new_pot = pot + delta;
        if new_pot < 0 || new_pot > cap {
            proof {
                assert(spec_balance(log.take(i as int + 1), pot_name()) == new_pot);
            }
            return false;
        }
        pot = new_pot;
        i = i + 1;
    }
    true
}

/// A ledger backend over the conditional-write record store.
pub struct KeyValueDao {
    game: Option<GameRecord>,
    transactions: Vec<(u64, Transaction)>,
    split_awards: AwardTable,
}

impl KeyValueDao {
    /// A fresh backend over an empty store: unprovisioned until the first
    /// write or recovery creates the aggregate record.
    pub fn new(awards: AwardTable) -> (r: KeyValueDao)
        requires
            awards.wf(),
        ensures
            r.wf(),
            !r.provisioned(),
            !r.seq_exhausted(),
            r.log() == Seq::<TxView>::empty(),
            r.roster() == Seq::<Seq<char>>::empty(),
            r.balance_names() == Seq::<Seq<char>>::empty(),
            r.sequence_numbers() == Seq::<u64>::empty(),
            forall|s: Seq<char>| (#[trigger] r.award_of(s)) == awards.spec_get(s),
    {
        let r = KeyValueDao { game: None, transactions: Vec::new(), split_awards: awards };
        proof {
            assert(r.log() =~= Seq::<TxView>::empty());
            assert(r.log().take(0) =~= r.log());
            assert(r.roster() =~= Seq::<Seq<char>>::empty());
            assert(r.sequence_numbers() =~= Seq::<u64>::empty());
        }
        r
    }

    /// Recovery and reconciliation: adopts raw stored records, validates
    /// the log, and rebuilds the aggregate by replaying every
    /// transaction — the repair for an aggregate that may have diverged
    /// from the log, e.g. after a partial two-step write. Returns nothing
    /// when the records cannot form a valid ledger.
    pub fn from_records(
        players: Vec<String>,
        transactions: Vec<(u64, Transaction)>,
        awards: AwardTable,
    ) -> (r: Option<KeyValueDao>)
        requires
            awards.wf(),
        ensures
            (match r {
                Some(d) => {
                    &&& d.wf()
                    &&& d.provisioned()
                    &&& d.log() == kv_log_view(transactions@)
                    &&& d.roster() == players@.map_values(|s: String| s@)
                    &&& d.balance_names() == names_in_log(Seq::empty(), kv_log_view(transactions@))
                    &&& d.sequence_numbers() == kv_keys(transactions@)
                    &&& forall|s: Seq<char>| (#[trigger] d.award_of(s)) == awards.spec_get(s)
                },
                None => !({
                    &&& keys_ascending(kv_keys(transactions@))
                    &&& wf_log(kv_log_view(transactions@))
                    &&& (transactions@.len() == 0 || kv_keys(transactions@).last() < u64::MAX)
                }),
            }),
    {
        let ghost log = kv_log_view(transactions@);
        let ghost keys = kv_keys(transactions@);
        let mut i: usize = 1;
        while i < transactions.len()
            invariant
                1 <= i <= transactions@.len() || transactions@.len() == 0,
                keys == kv_keys(transactions@),
                forall|j: int| 0 < j < i ==> (#[trigger] keys[j - 1]) < keys[j],
            decreases transactions@.len() - i,
        {
            if transactions[i - 1].0 >= transactions[i].0 {
                proof {
                    assert(keys[i as int - 1] >= keys[i as int]);
                }
                return None;
            }
            proof {
                assert(keys[i as int - 1] == transactions@[i as int - 1].0);
            }
            i = i + 1;
        }
        proof {
            lemma_adjacent_ascending(keys);
        }
        if !check_log(&transactions) {
            return None;
        }
        let next: u64 = if transactions.len() > 0 {
            let last = transactions[transactions.len() - 1].0;
            if last == u64::MAX {
                proof {
                    assert(keys.last() == u64::MAX);
                }
                return None;
            }
            last + 1
        } else {
            1
        };
        // rebuild the aggregate by replaying the whole log
        let mut balances: Vec<(String, i64)> = Vec::new();
        let mut j: usize = 0;
        proof {
            assert(log.take(0) =~= Seq::<TxView>::empty());
            assert(bal_view(balances@) =~= Seq::<(Seq<char>, int)>::empty());
            assert(bal_keys(bal_view(balances@)) =~= Seq::<Seq<char>>::empty());
            assert(names_in_log(Seq::empty(), log.take(0)) == Seq::<Seq<char>>::empty());
            assert(agg_ok(bal_view(balances@), log.take(0)));
        }
        while j < transactions.len()
            invariant
                0 <= j <= transactions@.len(),
                log == kv_log_view(transactions@),
                wf_log(log),
                agg_ok(bal_view(balances@), log.take(j as int)),
                bal_keys(bal_view(balances@)) == names_in_log(Seq::empty(), log.take(j as int)),
            decreases transactions@.len() - j,
        {
            let creditor = transactions[j].1.creditor.clone();
            let debtor = transactions[j].1.debtor.clone();
            let amount = transactions[j].1.amount;
            proof {
                lemma_wf_log_take(log, j as int);
                assert(log[j as int] == transactions@[j as int].1@);
                assert(tx_valid(log[j as int], j as int));
            }
            apply_to_aggregate(
                &mut balances,
                &creditor,
                &debtor,
                amount,
                Ghost(log.take(j as int)),
                Ghost(log[j as int]),
            );
            proof {
                assert(log.take(j as int).push(log[j as int]) =~= log.take(j as int + 1));
                assert(log.take(j as int + 1).drop_last() =~= log.take(j as int));
                assert(log.take(j as int + 1).last() == log[j as int]);
            }
            j = j + 1;
        }
        proof {
            assert(log.take(log.len() as int) =~= log);
        }
        let d = KeyValueDao {
            game: Some(GameRecord { players, balances, next_transaction_num: next }),
            transactions,
            split_awards: awards,
        };
        proof {
            assert forall|k: int|
                0 <= k < d.transactions@.len() implies (#[trigger] kv_keys(d.transactions@)[k])
                < next by {
                if k < d.transactions@.len() - 1 {
                    assert(keys[k] < keys[d.transactions@.len() - 1]);
                }
            }
            assert(d.roster() =~= players@.map_values(|s: String| s@));
        }
        Some(d)
    }

    /// The sequence numbers on the stored transactions, in store order.
    pub closed spec fn sequence_numbers(&self) -> Seq<u64> {
        kv_keys(self.transactions@)
    }

    /// Sequence monotonicity: one number per stored transaction, and a
    /// transaction later in the log always carries a larger number.
    pub proof fn lemma_sequence_monotone(&self)
        requires
            self.wf(),
        ensures
            self.sequence_numbers().len() == self.log().len(),
            keys_ascending(self.sequence_numbers()),
    {
    }

    /// Undoing an append whose two participants the report already names
    /// leaves the report's name set unchanged, so the balances read as
    /// they did before the append; a newcomer keeps a zeroed row instead.
    pub proof fn lemma_report_names_after_undo(
        names: Seq<Seq<char>>,
        creditor: Seq<char>,
        debtor: Seq<char>,
    )
        requires
            names.contains(creditor),
            names.contains(debtor),
        ensures
            add_name(add_name(names, creditor), debtor) == names,
    {
    }

    /// One balance row per name, and a row for every participant of the
    /// log. (A name whose transactions were all undone keeps its zeroed
    /// row: the aggregate never deletes a name.)
    pub proof fn lemma_balance_names(&self)
        requires
            self.wf(),
        ensures
            names_unique(self.balance_names()),
            forall|x: Seq<char>|
                #[trigger] names_in_log(Seq::empty(), self.log()).contains(x)
                    ==> self.balance_names().contains(x),
    {
        if self.game is None {
            assert(self.log() =~= Seq::<TxView>::empty());
            assert(self.balance_names() =~= Seq::<Seq<char>>::empty());
        }
    }

    /// The pot balance as the aggregate records it (zero when the pot has
    /// not taken part yet), proved equal to the fold of the log.
    fn pot_cents(&self) -> (r: i64)
        requires
            self.wf(),
        ensures
            r == spec_balance(self.log(), pot_name()),
            -BALANCE_ABS_CAP <= r <= BALANCE_ABS_CAP,
    {
        proof {
            lemma_balance_bound(self.log(), pot_name(), self.log().len() as int);
            lemma_balance_take_len(self.log(), pot_name());
            assert(50 * self.log().len() * (self.log().len() + 1) <= 50 * 1048576 * 1048577)
                by (nonlinear_arith)
                requires
                    0 <= self.log().len() <= 1048576,
            ;
            assert(-50 * 1048576 * 1048577 <= -50 * self.log().len() * (self.log().len() + 1))
                by (nonlinear_arith)
                requires
                    0 <= self.log().len() <= 1048576,
            ;
        }
        let g = match &self.game {
            Some(g) => g,
            None => {
                proof {
                    assert(self.log() =~= Seq::<TxView>::empty());
                }
                return 0;
            },
        };
        let ghost bv = bal_view(g.balances@);
        let mut i: usize = 0;
        while i < g.balances.len()
            invariant
                0 <= i <= g.balances@.len(),
                self.wf(),
                self.game is Some,
                g == &self.game->Some_0,
                bv == bal_view(g.balances@),
                -BALANCE_ABS_CAP <= spec_balance(self.log(), pot_name()) <= BALANCE_ABS_CAP,
                forall|j: int| 0 <= j < i ==> (#[trigger] bv[j]).0 != pot_name(),
            decreases g.balances@.len() - i,
        {
            let pot = pot_string();
            if g.balances[i].0 == pot {
                proof {
                    assert(bv[i as int].1 == spec_balance(self.log(), bv[i as int].0));
                }
                return g.balances[i].1;
            }
            i = i + 1;
        }
        proof {
            assert forall|x: Seq<char>| #[trigger] bal_keys(bv).contains(x) implies x
                != pot_name() by {
                let j = choose|j: int| 0 <= j < bal_keys(bv).len() && bal_keys(bv)[j] == x;
                assert(bv[j].0 == x);
            }
            assert(!names_in_log(Seq::empty(), self.log()).contains(pot_name()));
            lemma_nonparticipant_zero(self.log(), pot_name());
        }
        0
    }

    /// The two-step write: assigns the next sequence number from the
    /// aggregate record, appends the transaction record under the
    /// conditional no-overwrite lock, then updates the balances and the
    /// next number in the aggregate.
    fn two_step_append(&mut self, t: Transaction) -> (r: Result<(), StorageError>)
        requires
            old(self).wf(),
            old(self).log().len() < LOG_CAP,
            tx_valid(t@, old(self).log().len() as int),
            t@.pot_amount == spec_balance(old(self).log(), pot_name()),
            0 <= spec_balance(old(self).log(), pot_name()) + signed_amount(t@, pot_name()),
            spec_balance(old(self).log(), pot_name()) + signed_amount(t@, pot_name())
                <= SPLIT_AMOUNT_CENTS * (old(self).log().len() + 1),
        ensures
            final(self).wf(),
            forall|s: Seq<char>| (#[trigger] final(self).award_of(s)) == old(self).award_of(s),
            r is Ok ==> {
                &&& !old(self).seq_exhausted()
                &&& final(self).log() == old(self).log().push(t@)
                &&& final(self).roster() == old(self).roster()
                &&& final(self).provisioned()
                &&& final(self).balance_names() == add_name(
                    add_name(old(self).balance_names(), t@.creditor),
                    t@.debtor,
                )
                &&& final(self).sequence_numbers().drop_last() == old(self).sequence_numbers()
                &&& forall|i: int|
                    0 <= i < old(self).sequence_numbers().len() ==> (#[trigger] old(
                        self,
                    ).sequence_numbers()[i]) < final(self).sequence_numbers().last()
            },
            r is Err ==> r->Err_0 == StorageError::WriteConflict && old(self).seq_exhausted()
                && *final(self) == *old(self),
    {
        let ghost log0 = kv_log_view(self.transactions@);
        let ghost store0 = self.transactions@;
        let ghost a = t@.amount;
        let ghost c = t@.creditor;
        let ghost d = t@.debtor;
        let ghost log1 = log0.push(t@);
        let ghost tv = t@;
        // step 1: sequence assignment, read from the aggregate record
        let next: u64 = match &self.game {
            Some(g) => g.next_transaction_num,
            None => 1,
        };
        if next == u64::MAX {
            return Err(StorageError::WriteConflict);
        }
        let creditor = t.creditor.clone();
        let debtor = t.debtor.clone();
        let amount = t.amount;
        proof {
            assert(forall|i: int|
                0 <= i < store0.len() ==> (#[trigger] kv_keys(store0)[i]) < next);
            lemma_wf_log_push(log0, t@);
            lemma_balance_bound(log0, pot_name(), log0.len() as int);
        }
        // step 2: the conditional append, the optimistic lock on `next`
        match put_if_absent(&mut self.transactions, next, t) {
            Ok(()) => {},
            Err(_) => {
                // the aggregate's counter stays above every stored number,
                // so the lock cannot find `next` taken
                proof {
                    let w = choose|w: int|
                        0 <= w < kv_keys(store0).len() && kv_keys(store0)[w] == next;
                    assert(false);
                }
                return Err(StorageError::WriteConflict);
            },
        }
        proof {
            assert(self.transactions@ == store0.push((next, t)));
            assert(kv_log_view(self.transactions@) =~= log1);
            assert(kv_keys(self.transactions@) =~= kv_keys(store0).push(next));
        }
        // step 3: the aggregate update — balances and the next sequence
        // number advance together
        let taken = self.game.take();
        let (players, mut balances) = match taken {
            Some(gr) => (gr.players, gr.balances),
            None => (Vec::new(), Vec::new()),
        };
        let ghost bv0 = bal_view(balances@);
        proof {
            if old(self).game is None {
                assert(bv0 =~= Seq::<(Seq<char>, int)>::empty());
                assert(bal_keys(bv0) =~= Seq::<Seq<char>>::empty());
                assert(log0 =~= Seq::<TxView>::empty());
                assert(names_in_log(Seq::empty(), log0) == Seq::<Seq<char>>::empty());
                assert(old(self).balance_names() =~= bal_keys(bv0));
            }
            assert(old(self).balance_names() == bal_keys(bv0));
            assert(agg_ok(bv0, log0));
        }
        apply_to_aggregate(&mut balances, &creditor, &debtor, amount, Ghost(log0), Ghost(tv));
        self.game = Some(
            GameRecord { players, balances, next_transaction_num: next + 1 },
        );
        proof {
            // every stored number stays below the advanced counter
            assert forall|i: int|
                0 <= i < self.transactions@.len() implies (#[trigger] kv_keys(
                self.transactions@,
            )[i]) < next + 1 by {
                if i < store0.len() {
                    assert(kv_keys(self.transactions@)[i] == kv_keys(store0)[i]);
                }
            }
            assert(self.roster() =~= old(self).roster());
            assert(self.sequence_numbers().drop_last() =~= kv_keys(store0));
        }
        Ok(())
    }

    /// Appends the split transaction with caller-supplied timestamps.
    pub fn add_split_at(&mut self, name: String, split: String, time: String, date: String) -> (r:
        Result<(), StorageError>)
        requires
            old(self).wf(),
            name@.len() > 0,
            old(self).log().len() < LOG_CAP,
        ensures
            final(self).wf(),
            forall|s: Seq<char>| (#[trigger] final(self).award_of(s)) == old(self).award_of(s),
            r is Ok ==> {
                &&& !old(self).seq_exhausted()
                &&& final(self).log().len() == old(self).log().len() + 1
                &&& final(self).log().drop_last() == old(self).log()
                &&& final(self).log().last() == (TxView {
                    creditor: pot_name(),
                    debtor: name@,
                    amount: SPLIT_AMOUNT_CENTS as int,
                    split: split@,
                    time: time@,
                    pot_amount: spec_balance(old(self).log(), pot_name()),
                    date: date@,
                })
                &&& final(self).roster() == old(self).roster()
                &&& final(self).provisioned()
                &&& final(self).balance_names() == add_name(
                    add_name(old(self).balance_names(), pot_name()),
                    name@,
                )
                &&& final(self).sequence_numbers().drop_last() == old(self).sequence_numbers()
                &&& forall|i: int|
                    0 <= i < old(self).sequence_numbers().len() ==> (#[trigger] old(
                        self,
                    ).sequence_numbers()[i]) < final(self).sequence_numbers().last()
            },
            r is Err ==> r->Err_0 == StorageError::WriteConflict && old(self).seq_exhausted()
                && *final(self) == *old(self),
    {
        let pot_before = self.pot_cents();
        let t = Transaction {
            creditor: pot_string(),
            debtor: name,
            amount: SPLIT_AMOUNT_CENTS,
            split,
            time,
            pot_amount: pot_before,
            date,
        };
        proof {
            reveal_strlit("Pot");
            assert(tx_valid(t@, old(self).log().len() as int));
            lemma_balance_take_len(self.log(), pot_name());
            assert(0 <= spec_balance(self.log().take(self.log().len() as int), pot_name())
                <= SPLIT_AMOUNT_CENTS * self.log().len());
        }
        let r = self.two_step_append(t);
        proof {
            if r is Ok {
                assert(final(self).log().drop_last() =~= old(self).log());
            }
        }
        r
    }

    /// Appends the conversion transaction with caller-supplied
    /// timestamps, or reports `InvalidSplit` and appends nothing.
    pub fn add_conversion_at(
        &mut self,
        name: String,
        split: String,
        time: String,
        date: String,
    ) -> (r: Result<(), StorageError>)
        requires
            old(self).wf(),
            name@.len() > 0,
            old(self).log().len() < LOG_CAP,
        ensures
            final(self).wf(),
            forall|s: Seq<char>| (#[trigger] final(self).award_of(s)) == old(self).award_of(s),
            r is Ok ==> {
                &&& !old(self).seq_exhausted()
                &&& old(self).award_of(split@) is Some
                &&& final(self).log().len() == old(self).log().len() + 1
                &&& final(self).log().drop_last() == old(self).log()
                &&& final(self).log().last() == (TxView {
                    creditor: name@,
                    debtor: pot_name(),
                    amount: spec_award(
                        spec_balance(old(self).log(), pot_name()),
                        old(self).award_of(split@)->Some_0 as int,
                    ),
                    split: split@,
                    time: time@,
                    pot_amount: spec_balance(old(self).log(), pot_name()),
                    date: date@,
                })
                &&& final(self).roster() == old(self).roster()
                &&& final(self).provisioned()
                &&& final(self).balance_names() == add_name(
                    add_name(old(self).balance_names(), name@),
                    pot_name(),
                )
                &&& final(self).sequence_numbers().drop_last() == old(self).sequence_numbers()
                &&& forall|i: int|
                    0 <= i < old(self).sequence_numbers().len() ==> (#[trigger] old(
                        self,
                    ).sequence_numbers()[i]) < final(self).sequence_numbers().last()
            },
            r is Err ==> {
                &&& *final(self) == *old(self)
                &&& (r->Err_0 == StorageError::InvalidSplit <==> old(self).award_of(split@) is None)
                &&& (r->Err_0 == StorageError::InvalidSplit || r->Err_0
                    == StorageError::WriteConflict)
                &&& (r->Err_0 == StorageError::WriteConflict ==> old(self).seq_exhausted())
            },
    {
        let share = match self.split_awards.get(&split) {
            Some(p) => p,
            None => {
                return Err(StorageError::InvalidSplit);
            },
        };
        proof {
            lemma_lookup_bounded(self.split_awards@, split@);
            lemma_balance_take_len(self.log(), pot_name());
            assert(0 <= spec_balance(self.log().take(self.log().len() as int), pot_name())
                <= SPLIT_AMOUNT_CENTS * self.log().len());
        }
        let pot_before = self.pot_cents();
        let payout = award_cents(pot_before, share);
        proof {
            crate::money::lemma_award_range(pot_before as int, share as int);
        }
        let t = Transaction {
            creditor: name,
            debtor: pot_string(),
            amount: payout,
            split,
            time,
            pot_amount: pot_before,
            date,
        };
        proof {
            reveal_strlit("Pot");
            assert(SPLIT_AMOUNT_CENTS * (old(self).log().len() + 1) == 100 * old(self).log().len()
                + 100);
            assert(tx_valid(t@, old(self).log().len() as int));
        }
        let r = self.two_step_append(t);
        proof {
            if r is Ok {
                assert(final(self).log().drop_last() =~= old(self).log());
            }
        }
        r
    }
}

impl StorageDao for KeyValueDao {
    closed spec fn wf(&self) -> bool {
        &&& wf_log(kv_log_view(self.transactions@))
        &&& keys_ascending(kv_keys(self.transactions@))
        &&& self.split_awards.wf()
        &&& match self.game {
            None => self.transactions@.len() == 0,
            Some(g) => {
                &&& agg_ok(bal_view(g.balances@), kv_log_view(self.transactions@))
                &&& forall|i: int|
                    0 <= i < self.transactions@.len() ==> (#[trigger] kv_keys(
                        self.transactions@,
                    )[i]) < g.next_transaction_num
                &&& g.next_transaction_num >= 1
            },
        }
    }

    closed spec fn provisioned(&self) -> bool {
        self.game is Some
    }

    closed spec fn seq_exhausted(&self) -> bool {
        match self.game {
            None => false,
            Some(g) => g.next_transaction_num == u64::MAX,
        }
    }

    closed spec fn log(&self) -> Seq<TxView> {
        kv_log_view(self.transactions@)
    }

    closed spec fn roster(&self) -> Seq<Seq<char>> {
        match self.game {
            None => Seq::empty(),
            Some(g) => g.players@.map_values(|s: String| s@),
        }
    }

    closed spec fn balance_names(&self) -> Seq<Seq<char>> {
        match self.game {
            None => Seq::empty(),
            Some(g) => bal_keys(bal_view(g.balances@)),
        }
    }

    closed spec fn balances_model(&self, name: Seq<char>) -> int {
        match self.game {
            None => 0,
            Some(g) => match assoc_get(bal_view(g.balances@), name) {
                Some(v) => v,
                None => 0,
            },
        }
    }

    closed spec fn award_of(&self, split: Seq<char>) -> Option<u32> {
        self.split_awards.spec_get(split)
    }

    proof fn lemma_model_wf(&self) {
        assert forall|s: Seq<char>| (#[trigger] self.award_of(s)) matches Some(p) ==> p <= 1000 by {
            if self.award_of(s) is Some {
                lemma_lookup_bounded(self.split_awards@, s);
            }
        }
    }

    proof fn lemma_balance_fold(&self, name: Seq<char>) {
        match self.game {
            None => {
                assert(self.log() =~= Seq::<TxView>::empty());
            },
            Some(g) => {
                let bv = bal_view(g.balances@);
                if bal_keys(bv).contains(name) {
                    let i = choose|i: int| 0 <= i < bal_keys(bv).len() && bal_keys(bv)[i] == name;
                    assert(bv[i].0 == name);
                    lemma_assoc_get_index(bv, i);
                } else {
                    lemma_assoc_get_absent(bv, name);
                    lemma_nonparticipant_zero(self.log(), name);
                }
            },
        }
    }

    fn get_names(&self) -> (r: Result<Vec<String>, StorageError>) {
        match &self.game {
            Some(g) => {
                proof {
                    assert(*g == self.game->Some_0);
                    assert(self.roster() == g.players@.map_values(|s: String| s@));
                }
                Ok(names_with_pot(&g.players))
            },
            None => Err(StorageError::NotFound),
        }
    }

    fn get_balances(&self) -> (r: Result<Vec<Balance>, StorageError>) {
        match &self.game {
            Some(g) => {
                let ghost log = kv_log_view(self.transactions@);
                proof {
                    assert(*g == self.game->Some_0);
                    assert(agg_ok(bal_view(g.balances@), log));
                }
                let out = balances_list(g, Ghost(log));
                proof {
                    assert(self.balance_names() == bal_keys(bal_view(g.balances@)));
                    assert forall|i: int| 0 <= i < out@.len() implies out@[i].amount@
                        == spec_format_cents(self.balances_model(self.balance_names()[i])) by {
                        let bv = bal_view(g.balances@);
                        assert(out@[i].name@ == bal_keys(bv)[i]);
                        lemma_assoc_get_index(bv, i);
                        assert(bal_keys(bv)[i] == bv[i].0);
                        assert(self.balances_model(self.balance_names()[i]) == bv[i].1);
                        assert(bv[i].1 == spec_balance(log, bv[i].0));
                    }
                }
                Ok(out)
            },
            None => Err(StorageError::NotFound),
        }
    }

    fn get_last_n_transactions(&self, n: usize) -> (r: Vec<Transaction>) {
        let len = self.transactions.len();
        let k = if n <= len {
            n
        } else {
            len
        };
        let mut out: Vec<Transaction> = Vec::new();
        let mut i: usize = len - k;
        while i < len
            invariant
                len == self.transactions@.len(),
                len - k <= i <= len,
                0 <= k <= len,
                out@.len() == i - (len - k),
                forall|j: int|
                    0 <= j < out@.len() ==> (#[trigger] out@[j]@) == self.log()[len - k + j],
            decreases len - i,
        {
            out.push(self.transactions[i].1.duplicate());
            i = i + 1;
        }
        out
    }

    fn remove_last_transaction(&mut self) -> (r: Result<(), StorageError>)
        ensures
            r is Ok ==> final(self).balance_names() == old(self).balance_names()
                && final(self).sequence_numbers() == old(self).sequence_numbers().drop_last(),
    {
        if self.transactions.len() == 0 {
            return Err(StorageError::NotFound);
        }
        let ghost log0 = kv_log_view(self.transactions@);
        let ghost store0 = self.transactions@;
        let ghost log1 = log0.drop_last();
        let last_idx = self.transactions.len() - 1;
        let amount = self.transactions[last_idx].1.amount;
        let creditor = self.transactions[last_idx].1.creditor.clone();
        let debtor = self.transactions[last_idx].1.debtor.clone();
        let ghost lt = log0.last();
        proof {
            assert(log0[last_idx as int] == lt);
            assert(tx_valid(lt, last_idx as int));
            lemma_wf_log_drop_last(log0);
            lemma_names_in_log_last(Seq::empty(), log0);
        }
        let _ = self.transactions.pop();
        proof {
            assert(kv_log_view(self.transactions@) =~= log1);
            assert forall|i: int, j: int|
                0 <= i < j < kv_keys(self.transactions@).len() implies kv_keys(
                self.transactions@,
            )[i] < kv_keys(self.transactions@)[j] by {
                assert(kv_keys(self.transactions@)[i] == kv_keys(store0)[i]);
                assert(kv_keys(self.transactions@)[j] == kv_keys(store0)[j]);
            }
        }
        let taken = self.game.take();
        let (players, mut balances, next) = match taken {
            Some(gr) => (gr.players, gr.balances, gr.next_transaction_num),
            None => (Vec::new(), Vec::new(), 1u64),
        };
        proof {
            assert(old(self).game is Some);
        }
        let ghost bv0 = bal_view(balances@);
        let ghost a = lt.amount;
        let ghost c = lt.creditor;
        let ghost d = lt.debtor;
        proof {
            assert(agg_ok(bv0, log0));
            assert(0 <= a <= 100 * (last_idx as int + 1));
            assert(50 * log0.len() * (log0.len() + 1) <= 50 * 1048576 * 1048577)
                by (nonlinear_arith)
                requires
                    0 <= log0.len() <= 1048576,
            ;
            assert(-50 * 1048576 * 1048577 <= -50 * log0.len() * (log0.len() + 1))
                by (nonlinear_arith)
                requires
                    0 <= log0.len() <= 1048576,
            ;
            assert forall|i: int| 0 <= i < balances@.len() implies -BALANCE_ABS_CAP <= (
            #[trigger] balances@[i]).1 + (-amount) <= BALANCE_ABS_CAP by {
                assert(bv0[i] == (balances@[i].0@, balances@[i].1 as int));
                assert(bv0[i].1 == spec_balance(log0, bv0[i].0));
                lemma_balance_bound(log0, bv0[i].0, log0.len() as int);
                lemma_balance_take_len(log0, bv0[i].0);
            }
        }
        credit(&mut balances, &creditor, -amount);
        let ghost bv1 = bal_view(balances@);
        proof {
            assert(bal_keys(bv0).contains(c));
            assert(add_name(bal_keys(bv0), c) == bal_keys(bv0));
            assert(50 * log0.len() * (log0.len() + 1) <= 50 * 1048576 * 1048577)
                by (nonlinear_arith)
                requires
                    0 <= log0.len() <= 1048576,
            ;
            assert(-50 * 1048576 * 1048577 <= -50 * log0.len() * (log0.len() + 1))
                by (nonlinear_arith)
                requires
                    0 <= log0.len() <= 1048576,
            ;
            assert forall|i: int| 0 <= i < balances@.len() implies -BALANCE_ABS_CAP <= (
            #[trigger] balances@[i]).1 + amount <= BALANCE_ABS_CAP by {
                assert(bv1[i] == (balances@[i].0@, balances@[i].1 as int));
                assert(bv1[i].1 == bv0[i].1 + (if bv0[i].0 == c {
                    -a
                } else {
                    0
                }));
                assert(bv0[i].1 == spec_balance(log0, bv0[i].0));
                lemma_balance_bound(log0, bv0[i].0, log0.len() as int);
                lemma_balance_take_len(log0, bv0[i].0);
            }
        }
        credit(&mut balances, &debtor, amount);
        let ghost bv2 = bal_view(balances@);
        self.game = Some(GameRecord { players, balances, next_transaction_num: next });
        proof {
            assert(bal_keys(bv1).contains(d));
            assert(add_name(bal_keys(bv1), d) == bal_keys(bv1));
            assert(log0.drop_last() =~= log1);
            assert forall|i: int| 0 <= i < bv2.len() implies (#[trigger] bv2[i]).1 == spec_balance(
                log1,
                bv2[i].0,
            ) by {
                let k = bv2[i].0;
                assert(spec_balance(log0, k) == spec_balance(log1, k) + signed_amount(lt, k));
                assert(bv1[i].1 == bv0[i].1 + (if bv0[i].0 == c {
                    -a
                } else {
                    0
                }));
                assert(bv2[i].1 == bv1[i].1 + (if bv1[i].0 == d {
                    a
                } else {
                    0
                }));
                assert(bv0[i].1 == spec_balance(log0, k));
            }
            assert forall|x: Seq<char>|
                #[trigger] names_in_log(Seq::empty(), log1).contains(x) implies bal_keys(
                bv2,
            ).contains(x) by {
                assert(names_in_log(Seq::empty(), log0).contains(x));
            }
            assert(agg_ok(bv2, log1));
            assert forall|i: int|
                0 <= i < self.transactions@.len() implies (#[trigger] kv_keys(
                self.transactions@,
            )[i]) < next by {
                assert(kv_keys(self.transactions@)[i] == kv_keys(store0)[i]);
            }
            assert(self.roster() =~= old(self).roster());
            assert(old(self).balance_names() == bal_keys(bv0));
            assert(self.balance_names() == bal_keys(bv2));
            assert(self.sequence_numbers() =~= kv_keys(store0).drop_last());
        }
        Ok(())
    }

    fn add_split(&mut self, name: String, split: String) -> (r: Result<(), StorageError>)
        ensures
            r is Ok ==> final(self).balance_names() == add_name(
                add_name(old(self).balance_names(), pot_name()),
                name@,
            ) && final(self).sequence_numbers().drop_last() == old(self).sequence_numbers(),
    {
        let (time, date) = now_strings();
        self.add_split_at(name, split, time, date)
    }

    fn add_conversion(&mut self, name: String, split: String) -> (r: Result<(), StorageError>)
        ensures
            r is Ok ==> final(self).balance_names() == add_name(
                add_name(old(self).balance_names(), name@),
                pot_name(),
            ) && final(self).sequence_numbers().drop_last() == old(self).sequence_numbers(),
    {
        let (time, date) = now_strings();
        self.add_conversion_at(name, split, time, date)
    }

    fn get_split_awards(&self) -> (r: AwardTable) {
        self.split_awards.duplicate()
    }
}

} // verus!
