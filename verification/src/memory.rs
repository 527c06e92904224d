//! The volatile in-memory backend: the whole ledger lives in process
//! memory and balances are computed by folding the log on every read.

use vstd::prelude::*;
use crate::awards::{lemma_lookup_bounded, AwardTable};
use crate::clock::now_strings;
use crate::contract::StorageDao;
use crate::ledger::{
    add_name, balance_cents, contains_name, dedup_names, lemma_balance_bound,
    lemma_dedup_names_unique, lemma_names_in_log_unique, lemma_wf_log_drop_last, lemma_wf_log_push,
    lemma_with_pot_unique, log_view, names_in_log, names_unique, pot_name, pot_string, spec_balance,
    tx_valid, wf_log, with_pot, Balance, StorageError, Transaction, TxView, LOG_CAP,
    SPLIT_AMOUNT_CENTS,
};
use crate::money::{award_cents, format_cents, spec_award, BALANCE_ABS_CAP};
use crate::awards::spec_lookup;
use crate::tables::{demo_award_table, demo_pairs};

verus! {

/// An in-memory ledger backend. Lives for the process lifetime and is
/// owned by a single caller at a time.
pub struct MemoryDao {
    transactions: Vec<Transaction>,
    names: Vec<String>,
    split_awards: AwardTable,
}

impl MemoryDao {
    /// A fresh, empty ledger over the given roster and award table. The
    /// roster is deduplicated and the pot appended when missing.
    pub fn with_roster(names: Vec<String>, awards: AwardTable) -> (r: MemoryDao)
        requires
            awards.wf(),
        ensures
            r.wf(),
            r.provisioned(),
            !r.seq_exhausted(),
            r.log() == Seq::<TxView>::empty(),
            r.roster() == with_pot(dedup_names(names@.map_values(|s: String| s@))),
            forall|s: Seq<char>| (#[trigger] r.award_of(s)) == awards.spec_get(s),
    {
        let ghost nv = names@.map_values(|s: String| s@);
        let mut roster: Vec<String> = Vec::new();
        let mut i: usize = 0;
        proof {
            assert(nv.take(0) =~= Seq::<Seq<char>>::empty());
            assert(roster@.map_values(|s: String| s@) =~= dedup_names(nv.take(0)));
        }
        while i < names.len()
            invariant
                0 <= i <= names@.len(),
                nv == names@.map_values(|s: String| s@),
                roster@.map_values(|s: String| s@) == dedup_names(nv.take(i as int)),
            decreases names@.len() - i,
        {
            proof {
                assert(nv.take(i as int + 1).drop_last() =~= nv.take(i as int));
                assert(nv.take(i as int + 1).last() == nv[i as int]);
            }
            if !contains_name(&roster, &names[i]) {
                let ghost before = roster@.map_values(|s: String| s@);
                roster.push(names[i].clone());
                proof {
                    assert(roster@.map_values(|s: String| s@) =~= before.push(nv[i as int]));
                }
            }
            i = i + 1;
        }
        proof {
            assert(nv.take(nv.len() as int) =~= nv);
        }
        let pot = pot_string();
        if !contains_name(&roster, &pot) {
            let ghost before = roster@.map_values(|s: String| s@);
            roster.push(pot);
            proof {
                assert(roster@.map_values(|s: String| s@) =~= before.push(pot_name()));
            }
        }
        let r = MemoryDao { transactions: Vec::new(), names: roster, split_awards: awards };
        proof {
            lemma_dedup_names_unique(nv);
            lemma_with_pot_unique(dedup_names(nv));
            assert(r.log() =~= Seq::<TxView>::empty());
            assert(r.log().take(0) =~= r.log());
            assert(wf_log(r.log()));
        }
        r
    }

    /// The demonstration ledger: four participants besides the pot, the
    /// demonstration award table, three splits and one conversion.
    pub fn new() -> (r: MemoryDao)
        ensures
            r.wf(),
            r.provisioned(),
            !r.seq_exhausted(),
            r.log().len() == 4,
            r.log()[0].creditor == pot_name() && r.log()[0].debtor == "Alice"@ && r.log()[0].amount
                == 100 && r.log()[0].split == "7-10"@ && r.log()[0].pot_amount == 0,
            r.log()[1].creditor == pot_name() && r.log()[1].debtor == "Bob"@ && r.log()[1].amount
                == 100 && r.log()[1].split == "4-5"@ && r.log()[1].pot_amount == 100,
            r.log()[2].creditor == pot_name() && r.log()[2].debtor == "Charlie"@
                && r.log()[2].amount == 100 && r.log()[2].split == "2-3"@ && r.log()[2].pot_amount
                == 200,
            r.log()[3].creditor == "Alice"@ && r.log()[3].debtor == pot_name() && r.log()[3].amount
                == 75 && r.log()[3].split == "7-10"@ && r.log()[3].pot_amount == 300,
            r.roster() == with_pot(
                dedup_names(seq!["Alice"@, "Bob"@, "Charlie"@, "Dana"@, "Pot"@]),
            ),
            forall|s: Seq<char>| (#[trigger] r.award_of(s)) == spec_lookup(demo_pairs(), s),
            r.award_of("7-10"@) == Some(250u32),
    {
        let mut names: Vec<String> = Vec::new();
        names.push("Alice".to_owned());
        names.push("Bob".to_owned());
        names.push("Charlie".to_owned());
        names.push("Dana".to_owned());
        names.push("Pot".to_owned());
        proof {
            assert(names@.map_values(|s: String| s@) =~= seq![
                "Alice"@,
                "Bob"@,
                "Charlie"@,
                "Dana"@,
                "Pot"@,
            ]);
            reveal_strlit("Alice");
            reveal_strlit("Bob");
            reveal_strlit("Charlie");
            reveal_strlit("Pot");
            reveal_strlit("7-10");
            assert("Alice"@ =~= seq!['A', 'l', 'i', 'c', 'e']);
            assert("Bob"@ =~= seq!['B', 'o', 'b']);
            assert("Charlie"@ =~= seq!['C', 'h', 'a', 'r', 'l', 'i', 'e']);
            assert("Pot"@ =~= seq!['P', 'o', 't']);
        }
        let mut dao = MemoryDao::with_roster(names, demo_award_table());
        let ghost l0 = dao.log();
        let _ = dao.add_split_at(
            "Alice".to_owned(),
            "7-10".to_owned(),
            "1/15/2025, 2:30:00 PM UTC".to_owned(),
            "1/15/2025".to_owned(),
        );
        let ghost l1 = dao.log();
        let _ = dao.add_split_at(
            "Bob".to_owned(),
            "4-5".to_owned(),
            "1/15/2025, 2:45:00 PM UTC".to_owned(),
            "1/15/2025".to_owned(),
        );
        let ghost l2 = dao.log();
        let _ = dao.add_split_at(
            "Charlie".to_owned(),
            "2-3".to_owned(),
            "1/15/2025, 3:00:00 PM UTC".to_owned(),
            "1/15/2025".to_owned(),
        );
        let ghost l3 = dao.log();
        let converted = dao.add_conversion_at(
            "Alice".to_owned(),
            "7-10".to_owned(),
            "1/15/2025, 3:15:00 PM UTC".to_owned(),
            "1/15/2025".to_owned(),
        );
        proof {
            assert(spec_balance(l1, pot_name()) == 100);
            assert(spec_balance(l2, pot_name()) == 200);
            assert(spec_balance(l3, pot_name()) == 300);
            assert(converted is Ok);
            assert(spec_award(300, 250) == 75);
            assert(dao.log().drop_last() == l3 && l3.drop_last() == l2 && l2.drop_last() == l1
                && l1.drop_last() == l0);
            assert(dao.log()[0] == l1[0] && dao.log()[1] == l2[1] && dao.log()[2] == l3[2]);
        }
        dao
    }

    /// Appends the split transaction with caller-supplied timestamps.
    pub fn add_split_at(&mut self, name: String, split: String, time: String, date: String) -> (r:
        Result<(), StorageError>)
        requires
            old(self).wf(),
            name@.len() > 0,
            old(self).log().len() < LOG_CAP,
        ensures
            final(self).wf(),
            final(self).provisioned(),
            !final(self).seq_exhausted(),
            r is Ok,
            final(self).log().len() == old(self).log().len() + 1,
            final(self).log().drop_last() == old(self).log(),
            final(self).log().last() == (TxView {
                creditor: pot_name(),
                debtor: name@,
                amount: SPLIT_AMOUNT_CENTS as int,
                split: split@,
                time: time@,
                pot_amount: spec_balance(old(self).log(), pot_name()),
                date: date@,
            }),
            final(self).roster() == old(self).roster(),
            forall|s: Seq<char>| (#[trigger] final(self).award_of(s)) == old(self).award_of(s),
    {
        let pot = pot_string();
        let pot_before = balance_cents(&self.transactions, &pot);
        let t = Transaction {
            creditor: pot,
            debtor: name,
            amount: SPLIT_AMOUNT_CENTS,
            split,
            time,
            pot_amount: pot_before,
            date,
        };
        proof {
            reveal_strlit("Pot");
            assert(tx_valid(t@, self.log().len() as int));
            crate::ledger::lemma_balance_take_len(self.log(), pot_name());
            assert(0 <= spec_balance(self.log(), pot_name()) <= SPLIT_AMOUNT_CENTS
                * self.log().len());
            lemma_wf_log_push(self.log(), t@);
        }
        self.transactions.push(t);
        proof {
            assert(self.log() =~= log_view(old(self).transactions@).push(t@));
            assert(self.log().drop_last() =~= old(self).log());
        }
        Ok(())
    }

    /// Appends the conversion transaction with caller-supplied
    /// timestamps, or reports `InvalidSplit` and appends nothing.
    pub fn add_conversion_at(
        &mut self,
        name: String,
        split: String,
        time: String,
        date: String,
    ) -> (r: Result<(), StorageError>)
        requires
            old(self).wf(),
            name@.len() > 0,
            old(self).log().len() < LOG_CAP,
        ensures
            final(self).wf(),
            final(self).provisioned(),
            !final(self).seq_exhausted(),
            (match r {
                Ok(()) => {
                    &&& old(self).award_of(split@) is Some
                    &&& final(self).log().len() == old(self).log().len() + 1
                    &&& final(self).log().drop_last() == old(self).log()
                    &&& final(self).log().last() == (TxView {
                        creditor: name@,
                        debtor: pot_name(),
                        amount: spec_award(
                            spec_balance(old(self).log(), pot_name()),
                            old(self).award_of(split@)->Some_0 as int,
                        ),
                        split: split@,
                        time: time@,
                        pot_amount: spec_balance(old(self).log(), pot_name()),
                        date: date@,
                    })
                },
                Err(e) => {
                    &&& e == StorageError::InvalidSplit
                    &&& old(self).award_of(split@) is None
                    &&& *final(self) == *old(self)
                },
            }),
            final(self).roster() == old(self).roster(),
            forall|s: Seq<char>| (#[trigger] final(self).award_of(s)) == old(self).award_of(s),
    {
        let share = match self.split_awards.get(&split) {
            Some(p) => p,
            None => {
                return Err(StorageError::InvalidSplit);
            },
        };
        proof {
            lemma_lookup_bounded(self.split_awards@, split@);
            lemma_balance_bound(self.log(), pot_name(), self.log().len() as int);
            crate::ledger::lemma_balance_take_len(self.log(), pot_name());
            assert(50 * self.log().len() * (self.log().len() + 1) <= 50 * 1048576 * 1048577)
                by (nonlinear_arith)
                requires
                    0 <= self.log().len() <= 1048576,
            ;
        }
        let pot = pot_string();
        let pot_before = balance_cents(&self.transactions, &pot);
        let payout = award_cents(pot_before, share);
        proof {
            crate::money::lemma_award_range(pot_before as int, share as int);
            assert(spec_balance(self.log(), pot_name()) == spec_balance(
                self.log().take(self.log().len() as int),
                pot_name(),
            ));
        }
        let t = Transaction {
            creditor: name,
            debtor: pot,
            amount: payout,
            split,
            time,
            pot_amount: pot_before,
            date,
        };
        proof {
            reveal_strlit("Pot");
            assert(SPLIT_AMOUNT_CENTS * (old(self).log().len() + 1) == 100 * old(self).log().len()
                + 100);
            assert(spec_balance(old(self).log(), pot_name()) <= SPLIT_AMOUNT_CENTS * old(
                self,
            ).log().len());
            assert(tx_valid(t@, self.log().len() as int));
            lemma_wf_log_push(self.log(), t@);
        }
        self.transactions.push(t);
        proof {
            assert(self.log() =~= log_view(old(self).transactions@).push(t@));
            assert(self.log().drop_last() =~= old(self).log());
        }
        Ok(())
    }

    /// The names balances are reported for: the roster, then any other
    /// participant of the log in order of first appearance.
    fn report_names(&self) -> (r: Vec<String>)
        requires
            self.wf(),
        ensures
            r@.len() == self.balance_names().len(),
            forall|i: int| 0 <= i < r@.len() ==> (#[trigger] r@[i]@) == self.balance_names()[i],
    {
        let ghost log = self.log();
        let mut out: Vec<String> = Vec::new();
        let mut i: usize = 0;
        while i < self.names.len()
            invariant
                0 <= i <= self.names@.len(),
                out@.map_values(|s: String| s@) == self.roster().take(i as int),
            decreases self.names@.len() - i,
        {
            let ghost before = out@.map_values(|s: String| s@);
            out.push(self.names[i].clone());
            proof {
                assert(out@.map_values(|s: String| s@) =~= before.push(self.roster()[i as int]));
                assert(out@.map_values(|s: String| s@) =~= self.roster().take(i as int + 1));
            }
            i = i + 1;
        }
        proof {
            assert(self.roster().take(self.roster().len() as int) =~= self.roster());
            assert(log.take(0) =~= Seq::<TxView>::empty());
            assert(names_in_log(self.roster(), log.take(0)) == self.roster());
        }
        let mut j: usize = 0;
        while j < self.transactions.len()
            invariant
                0 <= j <= self.transactions@.len(),
                log == self.log(),
                self.wf(),
                out@.map_values(|s: String| s@) == names_in_log(self.roster(), log.take(j as int)),
            decreases self.transactions@.len() - j,
        {
            proof {
                assert(log.take(j as int + 1).drop_last() =~= log.take(j as int));
                assert(log.take(j as int + 1).last() == log[j as int]);
            }
            let ghost mid = add_name(
                names_in_log(self.roster(), log.take(j as int)),
                log[j as int].creditor,
            );
            if !contains_name(&out, &self.transactions[j].creditor) {
                let ghost before = out@.map_values(|s: String| s@);
                out.push(self.transactions[j].creditor.clone());
                proof {
                    assert(out@.map_values(|s: String| s@) =~= before.push(log[j as int].creditor));
                }
            }
            if !contains_name(&out, &self.transactions[j].debtor) {
                let ghost before = out@.map_values(|s: String| s@);
                out.push(self.transactions[j].debtor.clone());
                proof {
                    assert(out@.map_values(|s: String| s@) =~= before.push(log[j as int].debtor));
                }
            }
            j = j + 1;
        }
        proof {
            assert(log.take(log.len() as int) =~= log);
        }
        out
    }

    /// What the in-memory backend reports balances for: the roster, then
    /// the log's other participants in order of first appearance — one
    /// row per known name, no name twice.
    pub proof fn lemma_balance_names(&self)
        requires
            self.wf(),
        ensures
            self.balance_names() == names_in_log(self.roster(), self.log()),
            names_unique(self.balance_names()),
            self.balance_names().contains(pot_name()),
    {
        lemma_names_in_log_unique(self.roster(), self.log());
        crate::ledger::lemma_names_in_log_base(self.roster(), self.log(), pot_name());
    }

    /// The in-memory report is a function of roster and log alone: with
    /// both restored, the same names are reported in the same order with
    /// the same amounts.
    pub proof fn lemma_report_determined(d0: &MemoryDao, d2: &MemoryDao)
        requires
            d0.wf(),
            d2.wf(),
            d2.log() == d0.log(),
            d2.roster() == d0.roster(),
        ensures
            d2.balance_names() == d0.balance_names(),
            forall|name: Seq<char>|
                (#[trigger] d2.balances_model(name)) == d0.balances_model(name),
    {
    }
}

impl StorageDao for MemoryDao {
    closed spec fn wf(&self) -> bool {
        &&& wf_log(self.log())
        &&& names_unique(self.roster())
        &&& self.roster().contains(pot_name())
        &&& self.split_awards.wf()
    }

    closed spec fn provisioned(&self) -> bool {
        true
    }

    closed spec fn seq_exhausted(&self) -> bool {
        false
    }

    closed spec fn log(&self) -> Seq<TxView> {
        log_view(self.transactions@)
    }

    closed spec fn roster(&self) -> Seq<Seq<char>> {
        self.names@.map_values(|s: String| s@)
    }

    closed spec fn balance_names(&self) -> Seq<Seq<char>> {
        names_in_log(self.roster(), self.log())
    }

    closed spec fn balances_model(&self, name: Seq<char>) -> int {
        spec_balance(self.log(), name)
    }

    closed spec fn award_of(&self, split: Seq<char>) -> Option<u32> {
        self.split_awards.spec_get(split)
    }

    proof fn lemma_model_wf(&self) {
        assert forall|s: Seq<char>| (#[trigger] self.award_of(s)) matches Some(p) ==> p <= 1000 by {
            if self.award_of(s) is Some {
                lemma_lookup_bounded(self.split_awards@, s);
            }
        }
    }

    proof fn lemma_balance_fold(&self, name: Seq<char>) {
    }

    fn get_names(&self) -> (r: Result<Vec<String>, StorageError>) {
        let mut out: Vec<String> = Vec::new();
        let mut i: usize = 0;
        while i < self.names.len()
            invariant
                0 <= i <= self.names@.len(),
                out@.len() == i,
                forall|j: int| 0 <= j < i ==> (#[trigger] out@[j]@) == self.roster()[j],
            decreases self.names@.len() - i,
        {
            out.push(self.names[i].clone());
            i = i + 1;
        }
        proof {
            assert(with_pot(self.roster()) == self.roster());
            let k = choose|k: int|
                0 <= k < self.roster().len() && self.roster()[k] == pot_name();
            assert(out@[k]@ == pot_name());
        }
        Ok(out)
    }

    fn get_balances(&self) -> (r: Result<Vec<Balance>, StorageError>) {
        let names = self.report_names();
        let mut out: Vec<Balance> = Vec::new();
        let mut i: usize = 0;
        while i < names.len()
            invariant
                0 <= i <= names@.len(),
                self.wf(),
                names@.len() == self.balance_names().len(),
                forall|j: int|
                    0 <= j < names@.len() ==> (#[trigger] names@[j]@) == self.balance_names()[j],
                out@.len() == i,
                forall|j: int|
                    0 <= j < i ==> (#[trigger] out@[j].name@) == self.balance_names()[j]
                        && out@[j].amount@ == crate::money::spec_format_cents(
                        self.balances_model(self.balance_names()[j]),
                    ),
            decreases names@.len() - i,
        {
            let c = balance_cents(&self.transactions, &names[i]);
            proof {
                lemma_balance_bound(self.log(), names@[i as int]@, self.log().len() as int);
                crate::ledger::lemma_balance_take_len(self.log(), names@[i as int]@);
                assert(-50 * 1048576 * 1048577 <= -50 * self.log().len() * (self.log().len() + 1))
                    by (nonlinear_arith)
                    requires
                        0 <= self.log().len() <= 1048576,
                ;
            }
            let b = Balance { name: names[i].clone(), amount: format_cents(c) };
            out.push(b);
            i = i + 1;
        }
        Ok(out)
    }

    fn get_last_n_transactions(&self, n: usize) -> (r: Vec<Transaction>) {
        let len = self.transactions.len();
        let k = if n <= len {
            n
        } else {
            len
        };
        let mut out: Vec<Transaction> = Vec::new();
        let mut i: usize = len - k;
        while i < len
            invariant
                len == self.transactions@.len(),
                len - k <= i <= len,
                0 <= k <= len,
                out@.len() == i - (len - k),
                forall|j: int|
                    0 <= j < out@.len() ==> (#[trigger] out@[j]@) == self.log()[len - k + j],
            decreases len - i,
        {
            out.push(self.transactions[i].duplicate());
            i = i + 1;
        }
        out
    }

    fn remove_last_transaction(&mut self) -> (r: Result<(), StorageError>) {
        if self.transactions.len() == 0 {
            return Err(StorageError::NotFound);
        }
        proof {
            lemma_wf_log_drop_last(self.log());
        }
        let _ = self.transactions.pop();
        proof {
            assert(self.log() =~= log_view(old(self).transactions@).drop_last());
        }
        Ok(())
    }

    fn add_split(&mut self, name: String, split: String) -> (r: Result<(), StorageError>) {
        let (time, date) = now_strings();
        self.add_split_at(name, split, time, date)
    }

    fn add_conversion(&mut self, name: String, split: String) -> (r: Result<(), StorageError>) {
        let (time, date) = now_strings();
        self.add_conversion_at(name, split, time, date)
    }

    fn get_split_awards(&self) -> (r: AwardTable) {
        self.split_awards.duplicate()
    }
}

} // verus!
