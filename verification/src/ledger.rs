//! The ledger entity model: transactions, balances, and the fold that
//! derives every participant's balance from the append-only log.

use vstd::prelude::*;

verus! {

/// Contribution recorded by one split, in cents (one "chip").
pub const SPLIT_AMOUNT_CENTS: i64 = 100;

/// Largest number of transactions a single ledger may hold. Keeps every
/// balance fold comfortably inside `i64`.
pub const LOG_CAP: usize = 1048576;

/// One movement of value between two participants, immutable once written.
/// `amount` and `pot_amount` are in cents; `amount` is recorded positive,
/// the direction is carried by the creditor/debtor roles.
#[derive(Debug)]
pub struct Transaction {
    /// Participant receiving credit.
    pub creditor: String,
    /// Participant being debited.
    pub debtor: String,
    /// Magnitude of the movement, in cents.
    pub amount: i64,
    /// The split identifier that triggered this transaction.
    pub split: String,
    /// Human-readable timestamp of when the transaction was recorded.
    pub time: String,
    /// Snapshot of the pot's balance when the transaction was created, in cents.
    pub pot_amount: i64,
    /// Human-readable date, coarser than `time`.
    pub date: String,
}

/// The mathematical image of a [`Transaction`].
pub struct TxView {
    pub creditor: Seq<char>,
    pub debtor: Seq<char>,
    pub amount: int,
    pub split: Seq<char>,
    pub time: Seq<char>,
    pub pot_amount: int,
    pub date: Seq<char>,
}

impl View for Transaction {
    type V = TxView;

    open spec fn view(&self) -> TxView {
        TxView {
            creditor: self.creditor@,
            debtor: self.debtor@,
            amount: self.amount as int,
            split: self.split@,
            time: self.time@,
            pot_amount: self.pot_amount as int,
            date: self.date@,
        }
    }
}

/// A participant's current balance, `amount` formatted with two decimals.
#[derive(Debug)]
pub struct Balance {
    pub name: String,
    pub amount: String,
}

/// How a backend operation fails.
#[derive(Clone, Copy, Debug, PartialEq, Eq, Structural)]
pub enum StorageError {
    /// The referenced ledger record does not exist (or the log is empty
    /// for an undo): the ledger is uninitialized for this purpose.
    NotFound,
    /// `add_conversion` was called with a split absent from the award table.
    InvalidSplit,
    /// A conditional append found its sequence number already taken.
    WriteConflict,
    /// The storage medium is unreachable.
    Unavailable,
}

/// The reserved shared-pool participant.
pub open spec fn pot_name() -> Seq<char> {
    "Pot"@
}

/// View of a sequence of transactions.
pub open spec fn log_view(txs: Seq<Transaction>) -> Seq<TxView> {
    txs.map_values(|t: Transaction| t@)
}

/// Net effect of one transaction on `name`: credit adds, debit subtracts.
pub open spec fn signed_amount(t: TxView, name: Seq<char>) -> int {
    (if t.creditor == name {
        t.amount
    } else {
        0
    }) - (if t.debtor == name {
        t.amount
    } else {
        0
    })
}

/// Balance of `name`: the fold of the whole log under the
/// creditor/debtor accumulation rule.
pub open spec fn spec_balance(log: Seq<TxView>, name: Seq<char>) -> int
    decreases log.len(),
{
    if log.len() == 0 {
        0
    } else {
        spec_balance(log.drop_last(), name) + signed_amount(log.last(), name)
    }
}

/// Validity of the transaction stored at position `idx` of a log:
/// participants are named, and the amount is non-negative and no larger
/// than the pot could have held when it was written.
pub open spec fn tx_valid(t: TxView, idx: int) -> bool {
    &&& t.creditor.len() > 0
    &&& t.debtor.len() > 0
    &&& 0 <= t.amount <= SPLIT_AMOUNT_CENTS * (idx + 1)
}

/// Well-formedness of a ledger log: bounded length, valid entries, and a
/// pot that is never overdrawn — after any prefix the pot holds between
/// zero and one chip per transaction so far.
pub open spec fn wf_log(log: Seq<TxView>) -> bool {
    &&& log.len() <= LOG_CAP
    &&& forall|i: int| 0 <= i < log.len() ==> tx_valid(#[trigger] log[i], i)
    &&& forall|i: int|
        0 <= i <= log.len() ==> 0 <= #[trigger] spec_balance(log.take(i), pot_name())
            <= SPLIT_AMOUNT_CENTS * i
}

/// `roster`, with the reserved pot participant appended when absent.
pub open spec fn with_pot(roster: Seq<Seq<char>>) -> Seq<Seq<char>> {
    if roster.contains(pot_name()) {
        roster
    } else {
        roster.push(pot_name())
    }
}

/// `names` extended by `x` unless already present.
pub open spec fn add_name(names: Seq<Seq<char>>, x: Seq<char>) -> Seq<Seq<char>> {
    if names.contains(x) {
        names
    } else {
        names.push(x)
    }
}

/// The participants of `log` in order of first appearance (creditor before
/// debtor), appended to `base` without duplicating names already there.
pub open spec fn names_in_log(base: Seq<Seq<char>>, log: Seq<TxView>) -> Seq<Seq<char>>
    decreases log.len(),
{
    if log.len() == 0 {
        base
    } else {
        add_name(add_name(names_in_log(base, log.drop_last()), log.last().creditor), log.last().debtor)
    }
}

/// The last `n` transactions of `log`, oldest first.
pub open spec fn last_n(log: Seq<TxView>, n: int) -> Seq<TxView> {
    if n >= log.len() {
        log
    } else {
        log.skip(log.len() - n)
    }
}

/// Names without a repetition.
pub open spec fn names_unique(names: Seq<Seq<char>>) -> bool {
    forall|i: int, j: int| 0 <= i < j < names.len() ==> names[i] != names[j]
}

/// `names` with duplicates dropped, keeping the first occurrence of each.
pub open spec fn dedup_names(names: Seq<Seq<char>>) -> Seq<Seq<char>>
    decreases names.len(),
{
    if names.len() == 0 {
        Seq::empty()
    } else {
        add_name(dedup_names(names.drop_last()), names.last())
    }
}

/// `new_log` is `old_log` with one transaction appended whose named
/// fields are as given, whose pot snapshot is the pot balance before the
/// append, and whose timestamp strings are arbitrary.
pub open spec fn appended_entry(
    old_log: Seq<TxView>,
    new_log: Seq<TxView>,
    creditor: Seq<char>,
    debtor: Seq<char>,
    amount: int,
    split: Seq<char>,
) -> bool {
    &&& new_log.len() == old_log.len() + 1
    &&& new_log.drop_last() == old_log
    &&& new_log.last().creditor == creditor
    &&& new_log.last().debtor == debtor
    &&& new_log.last().amount == amount
    &&& new_log.last().split == split
    &&& new_log.last().pot_amount == spec_balance(old_log, pot_name())
}

pub proof fn lemma_balance_take_succ(log: Seq<TxView>, name: Seq<char>, i: int)
    requires
        0 <= i < log.len(),
    ensures
        spec_balance(log.take(i + 1), name) == spec_balance(log.take(i), name) + signed_amount(
            log[i],
            name,
        ),
{
    assert(log.take(i + 1).drop_last() =~= log.take(i));
    assert(log.take(i + 1).last() == log[i]);
}

pub proof fn lemma_balance_take_len(log: Seq<TxView>, name: Seq<char>)
    ensures
        spec_balance(log.take(log.len() as int), name) == spec_balance(log, name),
{
    assert(log.take(log.len() as int) =~= log);
}

/// Every balance over a valid prefix is bounded: the fold of `i` entries
/// stays within `50 * i * (i + 1)` cents of zero.
pub proof fn lemma_balance_bound(log: Seq<TxView>, name: Seq<char>, i: int)
    requires
        0 <= i <= log.len(),
        forall|j: int| 0 <= j < log.len() ==> tx_valid(#[trigger] log[j], j),
    ensures
        -50 * i * (i + 1) <= spec_balance(log.take(i), name) <= 50 * i * (i + 1),
    decreases i,
{
    if i == 0 {
        assert(log.take(0).len() == 0);
    } else {
        lemma_balance_bound(log, name, i - 1);
        lemma_balance_take_succ(log, name, i - 1);
        assert(tx_valid(log[i - 1], i - 1));
        assert(-100 * i <= signed_amount(log[i - 1], name) <= 100 * i);
        assert(50 * (i - 1) * i + 100 * i == 50 * i * (i + 1)) by (nonlinear_arith);
        assert(-50 * (i - 1) * i - 100 * i == -50 * i * (i + 1)) by (nonlinear_arith);
    }
}

/// A valid log stays valid when its last transaction is removed.
pub proof fn lemma_wf_log_drop_last(log: Seq<TxView>)
    requires
        wf_log(log),
        log.len() > 0,
    ensures
        wf_log(log.drop_last()),
{
    let l = log.drop_last();
    assert forall|i: int| 0 <= i <= l.len() implies 0 <= #[trigger] spec_balance(
        l.take(i),
        pot_name(),
    ) <= SPLIT_AMOUNT_CENTS * i by {
        assert(l.take(i) =~= log.take(i));
    }
}

/// Every prefix of a valid log is itself valid.
pub proof fn lemma_wf_log_take(log: Seq<TxView>, j: int)
    requires
        wf_log(log),
        0 <= j <= log.len(),
    ensures
        wf_log(log.take(j)),
{
    let l = log.take(j);
    assert forall|i: int| 0 <= i < l.len() implies tx_valid(#[trigger] l[i], i) by {
        assert(l[i] == log[i]);
        assert(tx_valid(log[i], i));
    }
    assert forall|i: int| 0 <= i <= l.len() implies 0 <= #[trigger] spec_balance(
        l.take(i),
        pot_name(),
    ) <= SPLIT_AMOUNT_CENTS * i by {
        assert(l.take(i) =~= log.take(i));
    }
}

/// A valid log stays valid when a valid transaction that neither
/// overdraws the pot nor overfills it is appended.
pub proof fn lemma_wf_log_push(log: Seq<TxView>, t: TxView)
    requires
        wf_log(log),
        log.len() < LOG_CAP,
        tx_valid(t, log.len() as int),
        0 <= spec_balance(log, pot_name()) + signed_amount(t, pot_name()) <= SPLIT_AMOUNT_CENTS * (
        log.len() + 1),
    ensures
        wf_log(log.push(t)),
        spec_balance(log.push(t), pot_name()) == spec_balance(log, pot_name()) + signed_amount(
            t,
            pot_name(),
        ),
{
    let l = log.push(t);
    assert(l.drop_last() =~= log);
    assert forall|i: int| 0 <= i < l.len() implies tx_valid(#[trigger] l[i], i) by {
        if i < log.len() {
            assert(tx_valid(log[i], i));
        }
    }
    assert forall|i: int| 0 <= i <= l.len() implies 0 <= #[trigger] spec_balance(
        l.take(i),
        pot_name(),
    ) <= SPLIT_AMOUNT_CENTS * i by {
        if i <= log.len() {
            assert(l.take(i) =~= log.take(i));
        } else {
            assert(l.take(i) =~= l);
            assert(log.take(log.len() as int) =~= log);
        }
    }
}

/// What [`add_name`] contains: the old names and the added one.
pub proof fn lemma_add_name_contains(names: Seq<Seq<char>>, y: Seq<char>, x: Seq<char>)
    ensures
        add_name(names, y).contains(x) <==> (names.contains(x) || x == y),
{
    if names.contains(y) {
        assert(add_name(names, y) == names);
    } else {
        let w = names.push(y);
        if names.contains(x) {
            let i = choose|i: int| 0 <= i < names.len() && names[i] == x;
            assert(w[i] == x);
        }
        if x == y {
            assert(w.last() == x);
        }
        if w.contains(x) {
            let i = choose|i: int| 0 <= i < w.len() && w[i] == x;
            if i < names.len() {
                assert(names[i] == x);
            }
        }
    }
}

/// A name outside the participants of `log` (over an empty base) has a
/// zero balance: the fold never touches it.
pub proof fn lemma_nonparticipant_zero(log: Seq<TxView>, name: Seq<char>)
    requires
        !names_in_log(Seq::empty(), log).contains(name),
    ensures
        spec_balance(log, name) == 0,
    decreases log.len(),
{
    if log.len() > 0 {
        let sub = names_in_log(Seq::empty(), log.drop_last());
        lemma_add_name_contains(add_name(sub, log.last().creditor), log.last().debtor, name);
        lemma_add_name_contains(sub, log.last().creditor, name);
        lemma_nonparticipant_zero(log.drop_last(), name);
    }
}

/// The participants of a log contain those of any shorter prefix, and
/// always the two participants of the last transaction.
pub proof fn lemma_names_in_log_last(base: Seq<Seq<char>>, log: Seq<TxView>)
    requires
        log.len() > 0,
    ensures
        names_in_log(base, log).contains(log.last().creditor),
        names_in_log(base, log).contains(log.last().debtor),
        forall|x: Seq<char>|
            #[trigger] names_in_log(base, log.drop_last()).contains(x) ==> names_in_log(
                base,
                log,
            ).contains(x),
{
    let sub = names_in_log(base, log.drop_last());
    let c = log.last().creditor;
    let d = log.last().debtor;
    lemma_add_name_contains(sub, c, c);
    lemma_add_name_contains(add_name(sub, c), d, c);
    lemma_add_name_contains(add_name(sub, c), d, d);
    assert forall|x: Seq<char>| #[trigger] sub.contains(x) implies names_in_log(
        base,
        log,
    ).contains(x) by {
        lemma_add_name_contains(sub, c, x);
        lemma_add_name_contains(add_name(sub, c), d, x);
    }
}

/// A name of the base stays among the collected participants.
pub proof fn lemma_names_in_log_base(base: Seq<Seq<char>>, log: Seq<TxView>, x: Seq<char>)
    requires
        base.contains(x),
    ensures
        names_in_log(base, log).contains(x),
    decreases log.len(),
{
    if log.len() > 0 {
        lemma_names_in_log_base(base, log.drop_last(), x);
        lemma_add_name_contains(names_in_log(base, log.drop_last()), log.last().creditor, x);
        lemma_add_name_contains(
            add_name(names_in_log(base, log.drop_last()), log.last().creditor),
            log.last().debtor,
            x,
        );
    }
}

/// [`add_name`] keeps a duplicate-free name list duplicate-free.
pub proof fn lemma_add_name_unique(names: Seq<Seq<char>>, x: Seq<char>)
    requires
        names_unique(names),
    ensures
        names_unique(add_name(names, x)),
{
    if !names.contains(x) {
        let w = names.push(x);
        assert forall|i: int, j: int| 0 <= i < j < w.len() implies w[i] != w[j] by {
            if j == w.len() - 1 {
                assert(names.contains(names[i]));
            }
        }
    }
}

/// Collecting a log's participants over a duplicate-free base keeps the
/// names duplicate-free: each balance is reported for one name once.
pub proof fn lemma_names_in_log_unique(base: Seq<Seq<char>>, log: Seq<TxView>)
    requires
        names_unique(base),
    ensures
        names_unique(names_in_log(base, log)),
    decreases log.len(),
{
    if log.len() > 0 {
        lemma_names_in_log_unique(base, log.drop_last());
        lemma_add_name_unique(names_in_log(base, log.drop_last()), log.last().creditor);
        lemma_add_name_unique(
            add_name(names_in_log(base, log.drop_last()), log.last().creditor),
            log.last().debtor,
        );
    }
}

/// Dropping duplicates leaves no repetition and no new name.
pub proof fn lemma_dedup_names_unique(names: Seq<Seq<char>>)
    ensures
        names_unique(dedup_names(names)),
        forall|x: Seq<char>| dedup_names(names).contains(x) == names.contains(x),
    decreases names.len(),
{
    if names.len() > 0 {
        lemma_dedup_names_unique(names.drop_last());
        let d = dedup_names(names.drop_last());
        let x = names.last();
        assert forall|y: Seq<char>| dedup_names(names).contains(y) == names.contains(y) by {
            if names.contains(y) {
                let i = choose|i: int| 0 <= i < names.len() && names[i] == y;
                if i < names.len() - 1 {
                    assert(names.drop_last()[i] == y);
                    assert(names.drop_last().contains(y));
                    if !d.contains(x) {
                        assert(d.push(x)[choose|j: int| 0 <= j < d.len() && d[j] == y] == y);
                    }
                } else {
                    if d.contains(x) {
                        assert(dedup_names(names) == d);
                    } else {
                        assert(d.push(x).last() == x);
                    }
                }
            } else {
                assert(forall|i: int|
                    0 <= i < names.len() - 1 ==> #[trigger] names.drop_last()[i] == names[i]);
                if dedup_names(names).contains(y) {
                    let j = choose|j: int|
                        0 <= j < dedup_names(names).len() && dedup_names(names)[j] == y;
                    if !d.contains(x) && j == d.len() {
                        assert(names.last() == y);
                        assert(names.contains(y));
                    } else {
                        assert(d.contains(y));
                        assert(names.drop_last().contains(y));
                        let i = choose|i: int|
                            0 <= i < names.drop_last().len() && names.drop_last()[i] == y;
                        assert(names[i] == y);
                    }
                }
            }
        }
    }
}

/// Appending the pot name keeps a unique roster unique.
pub proof fn lemma_with_pot_unique(names: Seq<Seq<char>>)
    requires
        names_unique(names),
    ensures
        names_unique(with_pot(names)),
        with_pot(names).contains(pot_name()),
{
    if !names.contains(pot_name()) {
        let w = names.push(pot_name());
        assert(w.last() == pot_name());
        assert forall|i: int, j: int| 0 <= i < j < w.len() implies w[i] != w[j] by {
            if j == w.len() - 1 {
                assert(!names.contains(w[i]) || w[i] != pot_name());
                assert(names[i] == w[i]);
                assert(names.contains(names[i]));
            }
        }
    }
}

impl Transaction {
    /// An equal copy of the record.
    pub fn duplicate(&self) -> (r: Transaction)
        ensures
            r@ == self@,
    {
        Transaction {
            creditor: self.creditor.clone(),
            debtor: self.debtor.clone(),
            amount: self.amount,
            split: self.split.clone(),
            time: self.time.clone(),
            pot_amount: self.pot_amount,
            date: self.date.clone(),
        }
    }
}

/// Whether `s` occurs among `v`.
pub fn contains_name(v: &Vec<String>, s: &String) -> (r: bool)
    ensures
        r == v@.map_values(|x: String| x@).contains(s@),
{
    let ghost views = v@.map_values(|x: String| x@);
    let mut i: usize = 0;
    while i < v.len()
        invariant
            0 <= i <= v@.len(),
            views == v@.map_values(|x: String| x@),
            forall|j: int| 0 <= j < i ==> views[j] != s@,
        decreases v@.len() - i,
    {
        if v[i] == *s {
            proof {
                assert(views[i as int] == s@);
            }
            return true;
        }
        i = i + 1;
    }
    proof {
        assert(forall|j: int| 0 <= j < views.len() ==> views[j] != s@);
    }
    false
}

/// The reserved pot participant as an owned string.
pub fn pot_string() -> (r: String)
    ensures
        r@ == pot_name(),
{
    "Pot".to_owned()
}

/// Exec counterpart of [`spec_balance`] over a whole log.
pub fn balance_cents(transactions: &Vec<Transaction>, name: &String) -> (r: i64)
    requires
        wf_log(log_view(transactions@)),
    ensures
        r == spec_balance(log_view(transactions@), name@),
{
    let ghost log = log_view(transactions@);
    let mut acc: i64 = 0;
    let mut i: usize = 0;
    while i < transactions.len()
        invariant
            0 <= i <= transactions@.len(),
            wf_log(log),
            log == log_view(transactions@),
            acc == spec_balance(log.take(i as int), name@),
        decreases transactions@.len() - i,
    {
        proof {
            assert(tx_valid(log[i as int], i as int));
        }
        let t = &transactions[i];
        let mut delta: i64 = 0;
        if t.creditor == *name {
            delta = t.amount;
        }
        if t.debtor == *name {
            delta = delta - t.amount;
        }
        proof {
            lemma_balance_bound(log, name@, i as int + 1);
            lemma_balance_take_succ(log, name@, i as int);
            assert(delta == signed_amount(log[i as int], name@));
            assert(acc + delta == spec_balance(log.take(i as int + 1), name@));
            let k = i as int + 1;
            assert(-50 * k * (k + 1) <= acc + delta <= 50 * k * (k + 1));
            assert(50 * k * (k + 1) <= 50 * 1048576 * 1048577) by (nonlinear_arith)
                requires
                    0 < k <= 1048576,
            ;
            assert(-50 * 1048576 * 1048577 <= -50 * k * (k + 1)) by (nonlinear_arith)
                requires
                    0 < k <= 1048576,
            ;
        }
        acc = acc + delta;
        i = i + 1;
    }
    proof {
        lemma_balance_take_len(log, name@);
    }
    acc
}

} // verus!
