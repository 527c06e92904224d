//! Laws that hold of every backend satisfying the storage contract.

use vstd::prelude::*;
use crate::contract::StorageDao;
use crate::ledger::{last_n, lemma_balance_take_len, pot_name, spec_balance, wf_log, TxView};

verus! {

/// The pot is never overdrawn: over any valid log its balance is at
/// least zero, so a conversion always has something to pay from.
pub proof fn lemma_pot_never_overdrawn(log: Seq<TxView>)
    requires
        wf_log(log),
    ensures
        spec_balance(log, pot_name()) >= 0,
{
    lemma_balance_take_len(log, pot_name());
    assert(spec_balance(log.take(log.len() as int), pot_name()) >= 0);
}

/// Undo inverse law: appending one transaction (as `add_split` and
/// `add_conversion` do) and then removing the last transaction (as
/// `remove_last_transaction` does) restores the log, every participant's
/// balance, and the contents of every tail query. Which names the report
/// lists is backend-specific: the in-memory report is a function of
/// roster and log (`MemoryDao::lemma_report_determined`), while the
/// key-value report keeps a zeroed row for a newcomer
/// (`KeyValueDao::lemma_report_names_after_undo`).
pub proof fn lemma_undo_restores<D: StorageDao>(d0: &D, d1: &D, d2: &D, t: TxView)
    requires
        d0.wf(),
        d2.wf(),
        d1.log() == d0.log().push(t),
        d2.log() == d1.log().drop_last(),
    ensures
        d2.log() == d0.log(),
        forall|name: Seq<char>|
            (#[trigger] d2.balances_model(name)) == d0.balances_model(name),
        forall|k: int| (#[trigger] last_n(d2.log(), k)) == last_n(d0.log(), k),
{
    assert(d0.log().push(t).drop_last() =~= d0.log());
    assert forall|name: Seq<char>| (#[trigger] d2.balances_model(name)) == d0.balances_model(
        name,
    ) by {
        d0.lemma_balance_fold(name);
        d2.lemma_balance_fold(name);
    }
}

/// Ordering law: the tail query's value is the log's own suffix, in log
/// order, and the whole log once `n` covers its length.
pub proof fn lemma_tail_query_ordered(log: Seq<TxView>, n: int)
    requires
        0 <= n,
    ensures
        last_n(log, n).len() == if n <= log.len() {
            n as int
        } else {
            log.len() as int
        },
        forall|i: int|
            0 <= i < last_n(log, n).len() ==> (#[trigger] last_n(log, n)[i]) == log[log.len()
                - last_n(log, n).len() + i],
        n >= log.len() ==> last_n(log, n) == log,
{
}

/// Balance-fold law, composed: the balance any well-formed backend
/// reports equals the fold of the very log its tail query returns.
pub proof fn lemma_reported_balance_is_fold<D: StorageDao>(d: &D, name: Seq<char>)
    requires
        d.wf(),
    ensures
        d.balances_model(name) == spec_balance(last_n(d.log(), d.log().len() as int), name),
{
    d.lemma_balance_fold(name);
}

} // verus!
