//! The storage contract: the uniform interface every ledger backend must
//! implement, together with the laws each implementation is held to.

use vstd::prelude::*;
use crate::awards::AwardTable;
use crate::ledger::{
    appended_entry, pot_name, spec_balance, wf_log, with_pot, Balance, StorageError, Transaction,
    TxView, LOG_CAP, SPLIT_AMOUNT_CENTS,
};
use crate::money::{spec_award, spec_format_cents};

verus! {

/// A ledger backend: an append-only transaction log with a derived
/// balance aggregate, an award table, and a participant roster.
///
/// The spec functions are the backend's mathematical model; the two proof
/// obligations tie the model down: a well-formed state carries a valid
/// log and a percentage-bounded award table, and the balance a backend
/// reports always equals the fold of its log (the aggregate may be
/// maintained incrementally, but may never diverge).
pub trait StorageDao: Sized {
    /// The backend's internal invariant.
    spec fn wf(&self) -> bool;

    /// Whether the ledger's aggregate record exists. Reads that need it
    /// fail with `NotFound` until a write or a recovery provisions it.
    spec fn provisioned(&self) -> bool;

    /// Whether the backend has run out of fresh sequence numbers (a
    /// machine limit; unreachable in any realistic ledger).
    spec fn seq_exhausted(&self) -> bool;

    /// The transaction log, oldest first.
    spec fn log(&self) -> Seq<TxView>;

    /// The stored participant roster (possibly without the pot).
    spec fn roster(&self) -> Seq<Seq<char>>;

    /// The names balances are reported for, in report order.
    spec fn balance_names(&self) -> Seq<Seq<char>>;

    /// The balance the backend would report for `name`, in cents.
    spec fn balances_model(&self, name: Seq<char>) -> int;

    /// The award table entry for `split`, in tenths of a percent.
    spec fn award_of(&self, split: Seq<char>) -> Option<u32>;

    /// A well-formed state has a valid log, a duplicate-free report
    /// order, and award shares that are genuine percentages.
    proof fn lemma_model_wf(&self)
        requires
            self.wf(),
        ensures
            wf_log(self.log()),
            forall|s: Seq<char>| (#[trigger] self.award_of(s)) matches Some(p) ==> p <= 1000,
    ;

    /// Balance-fold invariant: whatever aggregate the backend keeps, the
    /// balance it reports for any name equals the fold of its log under
    /// the creditor/debtor accumulation rule.
    proof fn lemma_balance_fold(&self, name: Seq<char>)
        requires
            self.wf(),
        ensures
            self.balances_model(name) == spec_balance(self.log(), name),
    ;

    /// All known participant names; the pot is always among them.
    fn get_names(&self) -> (r: Result<Vec<String>, StorageError>)
        requires
            self.wf(),
        ensures
            (match r {
                Ok(names) => {
                    &&& self.provisioned()
                    &&& names@.len() == with_pot(self.roster()).len()
                    &&& forall|i: int|
                        0 <= i < names@.len() ==> (#[trigger] names@[i]@) == with_pot(
                            self.roster(),
                        )[i]
                    &&& exists|i: int| 0 <= i < names@.len() && (#[trigger] names@[i]@) == pot_name()
                },
                Err(e) => e == StorageError::NotFound && !self.provisioned(),
            }),
    ;

    /// The current balance of every reported name, formatted with two
    /// decimals, reflecting every transaction recorded so far.
    fn get_balances(&self) -> (r: Result<Vec<Balance>, StorageError>)
        requires
            self.wf(),
        ensures
            (match r {
                Ok(bals) => {
                    &&& self.provisioned()
                    &&& bals@.len() == self.balance_names().len()
                    &&& forall|i: int|
                        0 <= i < bals@.len() ==> (#[trigger] bals@[i].name@) == self.balance_names()[i]
                            && bals@[i].amount@ == spec_format_cents(
                            self.balances_model(self.balance_names()[i]),
                        )
                },
                Err(e) => e == StorageError::NotFound && !self.provisioned(),
            }),
    ;

    /// The last `n` transactions, oldest first; the whole log when it
    /// holds fewer than `n`.
    fn get_last_n_transactions(&self, n: usize) -> (r: Vec<Transaction>)
        requires
            self.wf(),
        ensures
            r@.len() == if n <= self.log().len() {
                n as int
            } else {
                self.log().len() as int
            },
            forall|i: int|
                0 <= i < r@.len() ==> (#[trigger] r@[i]@) == self.log()[self.log().len() - r@.len()
                    + i],
    ;

    /// Deletes the most recently appended transaction and reverses its
    /// effect on the aggregate. Reports `NotFound` on an empty log and
    /// changes nothing.
    fn remove_last_transaction(&mut self) -> (r: Result<(), StorageError>)
        requires
            old(self).wf(),
        ensures
            final(self).wf(),
            (match r {
                Ok(()) => {
                    &&& old(self).log().len() > 0
                    &&& final(self).log() == old(self).log().drop_last()
                    &&& final(self).roster() == old(self).roster()
                    &&& final(self).provisioned() == old(self).provisioned()
                    &&& forall|s: Seq<char>|
                        (#[trigger] final(self).award_of(s)) == old(self).award_of(s)
                },
                Err(e) => {
                    &&& e == StorageError::NotFound
                    &&& old(self).log().len() == 0
                    &&& *final(self) == *old(self)
                },
            }),
    ;

    /// Appends the transaction recording that `name` played `split`: one
    /// chip moves from `name` to the pot, with the pot balance before the
    /// append as the audit snapshot. Then updates the aggregate.
    fn add_split(&mut self, name: String, split: String) -> (r: Result<(), StorageError>)
        requires
            old(self).wf(),
            name@.len() > 0,
            old(self).log().len() < LOG_CAP,
        ensures
            final(self).wf(),
            (match r {
                Ok(()) => {
                    &&& !old(self).seq_exhausted()
                    &&& appended_entry(
                        old(self).log(),
                        final(self).log(),
                        pot_name(),
                        name@,
                        SPLIT_AMOUNT_CENTS as int,
                        split@,
                    )
                    &&& final(self).roster() == old(self).roster()
                    &&& final(self).provisioned()
                    &&& forall|s: Seq<char>|
                        (#[trigger] final(self).award_of(s)) == old(self).award_of(s)
                },
                Err(e) => {
                    &&& e == StorageError::WriteConflict
                    &&& old(self).seq_exhausted()
                    &&& *final(self) == *old(self)
                },
            }),
    ;

    /// Looks `split` up in the award table — failing with `InvalidSplit`
    /// and appending nothing when absent — and appends the transaction
    /// paying `name` the cent-rounded share of the pot balance before the
    /// append. Then updates the aggregate.
    fn add_conversion(&mut self, name: String, split: String) -> (r: Result<(), StorageError>)
        requires
            old(self).wf(),
            name@.len() > 0,
            old(self).log().len() < LOG_CAP,
        ensures
            final(self).wf(),
            (match r {
                Ok(()) => {
                    &&& !old(self).seq_exhausted()
                    &&& old(self).award_of(split@) is Some
                    &&& appended_entry(
                        old(self).log(),
                        final(self).log(),
                        name@,
                        pot_name(),
                        spec_award(
                            spec_balance(old(self).log(), pot_name()),
                            old(self).award_of(split@)->Some_0 as int,
                        ),
                        split@,
                    )
                    &&& final(self).roster() == old(self).roster()
                    &&& final(self).provisioned()
                    &&& forall|s: Seq<char>|
                        (#[trigger] final(self).award_of(s)) == old(self).award_of(s)
                },
                Err(e) => {
                    &&& *final(self) == *old(self)
                    &&& (e == StorageError::InvalidSplit <==> old(self).award_of(split@) is None)
                    &&& (e == StorageError::InvalidSplit || e == StorageError::WriteConflict)
                    &&& (e == StorageError::WriteConflict ==> old(self).seq_exhausted())
                },
            }),
    ;

    /// The award table this ledger plays under.
    fn get_split_awards(&self) -> (r: AwardTable)
        requires
            self.wf(),
        ensures
            r.wf(),
            forall|s: Seq<char>| (#[trigger] r.spec_get(s)) == self.award_of(s),
    ;
}

} // verus!
