use vstd::prelude::*;
use crate::clock::{format_utc, now_unix_seconds, utc_text};
use crate::error::WalletError;
use crate::order::{first_below, insert_desc, lemma_insert_desc_at};
use crate::text::{decimal_of, decimal_text, same_text, signed_decimal_of, signed_decimal_text};

verus! {

/// Relies on uuid::Uuid::new_v4 and its hyphenated Display, which is 36 characters long.
#[verifier::external_body]
fn new_transaction_id() -> (r: String)
    ensures
        r@.len() == 36,
{
    uuid::Uuid::new_v4().to_string()
}

/// Where a transfer stands.
#[derive(Debug, Clone, Copy, PartialEq, Eq, Structural)]
pub enum TransactionStatus {
    Pending,
    Confirmed,
    Failed,
    Cancelled,
}

/// A transfer. Amounts are in satoshis: positive received, negative sent. Times are Unix seconds.
#[derive(Debug)]
pub struct Transaction {
    pub id: String,
    pub hash: String,
    pub from_address: String,
    pub to_address: String,
    pub amount: i64,
    pub fee: u64,
    pub status: TransactionStatus,
    pub timestamp: i64,
    pub block_height: Option<u64>,
    pub confirmations: u32,
    pub memo: Option<String>,
}

/// A confirmation: pending becomes confirmed; a confirmed record takes a count that does
/// not go down; every other case is ignored.
pub open spec fn confirm_applies(t: Transaction, confirmations: u32) -> bool {
    t.status == TransactionStatus::Pending || (t.status == TransactionStatus::Confirmed
        && confirmations >= t.confirmations)
}

/// Whether no transition leaves this status.
pub open spec fn is_terminal(s: TransactionStatus) -> bool {
    s == TransactionStatus::Confirmed || s == TransactionStatus::Failed
}

impl Transaction {
    /// A pending transfer stamped with a fresh identifier and the current time.
    pub fn new(hash: String, from_address: String, to_address: String, amount: i64, fee: u64, memo: Option<String>) -> (r: Transaction)
        ensures
            r.hash == hash && r.from_address == from_address && r.to_address == to_address,
            r.amount == amount && r.fee == fee && r.memo == memo,
            r.status == TransactionStatus::Pending,
            r.block_height is None && r.confirmations == 0,
            r.id@.len() == 36,
    {
        Transaction {
            id: new_transaction_id(),
            hash,
            from_address,
            to_address,
            amount,
            fee,
            status: TransactionStatus::Pending,
            timestamp: now_unix_seconds(),
            block_height: None,
            confirmations: 0,
            memo,
        }
    }

    /// Records a confirmation at `block_height` with `confirmations`. A pending record becomes
    /// confirmed; a confirmed one takes the new values only if the count does not go down;
    /// failed and cancelled records do not change.
    pub fn mark_confirmed(&mut self, block_height: u64, confirmations: u32)
        ensures
            confirm_applies(*old(self), confirmations) ==> {
                &&& final(self).status == TransactionStatus::Confirmed
                &&& final(self).block_height == Some(block_height)
                &&& final(self).confirmations == confirmations
                &&& *final(self) == (Transaction {
                    status: TransactionStatus::Confirmed,
                    block_height: Some(block_height),
                    confirmations,
                    ..*old(self)
                })
            },
            !confirm_applies(*old(self), confirmations) ==> *final(self) == *old(self),
    {
        if self.status == TransactionStatus::Pending || (self.status == TransactionStatus::Confirmed
            && confirmations >= self.confirmations) {
            self.status = TransactionStatus::Confirmed;
            self.block_height = Some(block_height);
            self.confirmations = confirmations;
        }
    }

    /// A pending record fails; any other does not change.
    pub fn mark_failed(&mut self)
        ensures
            old(self).status == TransactionStatus::Pending ==> *final(self) == (Transaction {
                status: TransactionStatus::Failed,
                ..*old(self)
            }),
            old(self).status != TransactionStatus::Pending ==> *final(self) == *old(self),
    {
        if self.status == TransactionStatus::Pending {
            self.status = TransactionStatus::Failed;
        }
    }

    /// A pending record is cancelled; any other does not change.
    pub fn mark_cancelled(&mut self)
        ensures
            old(self).status == TransactionStatus::Pending ==> *final(self) == (Transaction {
                status: TransactionStatus::Cancelled,
                ..*old(self)
            }),
            old(self).status != TransactionStatus::Pending ==> *final(self) == *old(self),
    {
        if self.status == TransactionStatus::Pending {
            self.status = TransactionStatus::Cancelled;
        }
    }

    pub fn is_confirmed(&self) -> (r: bool)
        ensures
            r == (self.status == TransactionStatus::Confirmed),
    {
        self.status == TransactionStatus::Confirmed
    }

    pub fn is_pending(&self) -> (r: bool)
        ensures
            r == (self.status == TransactionStatus::Pending),
    {
        self.status == TransactionStatus::Pending
    }
}

/// A confirmed or failed record never changes status again, and a confirmed record's
/// count never goes down: `confirm` keeps Confirmed and a count at least as large, and
/// `fail` and `cancel` leave it as it is.
pub proof fn lemma_terminal_status_is_final(t: Transaction, confirmations: u32)
    requires
        is_terminal(t.status),
    ensures
        t.status == TransactionStatus::Confirmed && confirm_applies(t, confirmations) ==> confirmations >= t.confirmations,
        t.status == TransactionStatus::Failed ==> !confirm_applies(t, confirmations),
        t.status != TransactionStatus::Pending,
{
}

/// What a record adds to the received total.
pub open spec fn received_part(t: Transaction) -> int {
    if t.amount > 0 { t.amount as int } else { 0 }
}

/// What a record adds to the sent total.
pub open spec fn sent_part(t: Transaction) -> int {
    if t.amount < 0 { -(t.amount as int) } else { 0 }
}

pub open spec fn fee_part(t: Transaction) -> int {
    t.fee as int
}

/// The sum of `f` over the records.
pub open spec fn sum_of(s: Seq<Transaction>, f: spec_fn(Transaction) -> int) -> int
    decreases s.len(),
{
    if s.len() == 0 {
        0
    } else {
        sum_of(s.drop_last(), f) + f(s.last())
    }
}

proof fn lemma_sum_insert(s: Seq<Transaction>, p: int, x: Transaction, f: spec_fn(Transaction) -> int)
    requires
        0 <= p <= s.len(),
    ensures
        sum_of(s.insert(p, x), f) == sum_of(s, f) + f(x),
    decreases s.len(),
{
    if p == s.len() {
        assert(s.insert(p, x).drop_last() =~= s);
    } else {
        assert(s.insert(p, x).drop_last() =~= s.drop_last().insert(p, x));
        assert(s.insert(p, x).last() == s.last());
        lemma_sum_insert(s.drop_last(), p, x, f);
    }
}

proof fn lemma_sum_bounds(s: Seq<Transaction>, f: spec_fn(Transaction) -> int, bound: int)
    requires
        bound >= 0,
        forall|t: Transaction| 0 <= #[trigger] f(t) <= bound,
    ensures
        0 <= sum_of(s, f) <= s.len() * bound,
    decreases s.len(),
{
    if s.len() > 0 {
        lemma_sum_bounds(s.drop_last(), f, bound);
        assert(f(s.last()) <= bound);
        assert((s.len() - 1) * bound + bound == s.len() * bound) by (nonlinear_arith);
    }
}

/// The net amount of the records stamped at or before `t`.
pub open spec fn balance_at(s: Seq<Transaction>, t: i64) -> int
    decreases s.len(),
{
    if s.len() == 0 {
        0
    } else {
        balance_at(s.drop_last(), t) + if s.last().timestamp <= t { s.last().amount as int } else { 0 }
    }
}

proof fn lemma_balance_bounds(s: Seq<Transaction>, t: i64)
    ensures
        -(s.len() * 0x8000_0000_0000_0000) <= balance_at(s, t) <= s.len() * 0x8000_0000_0000_0000,
    decreases s.len(),
{
    if s.len() > 0 {
        lemma_balance_bounds(s.drop_last(), t);
        assert((s.len() - 1) * 0x8000_0000_0000_0000 + 0x8000_0000_0000_0000 == s.len() * 0x8000_0000_0000_0000)
            by (nonlinear_arith);
    }
}

/// The records with this status, in ledger order.
pub open spec fn with_status(s: Seq<Transaction>, status: TransactionStatus) -> Seq<Transaction>
    decreases s.len(),
{
    if s.len() == 0 {
        Seq::empty()
    } else if s.last().status == status {
        with_status(s.drop_last(), status).push(s.last())
    } else {
        with_status(s.drop_last(), status)
    }
}

/// The records sent from or to this address, in ledger order.
pub open spec fn touching(s: Seq<Transaction>, address: Seq<char>) -> Seq<Transaction>
    decreases s.len(),
{
    if s.len() == 0 {
        Seq::empty()
    } else if s.last().from_address@ == address || s.last().to_address@ == address {
        touching(s.drop_last(), address).push(s.last())
    } else {
        touching(s.drop_last(), address)
    }
}

/// The ledger: records from the newest timestamp down, equal times in insertion order,
/// with running totals in satoshis.
pub struct TransactionHistory {
    pub transactions: Vec<Transaction>,
    pub total_sent: u128,
    pub total_received: u128,
    pub total_fees: u128,
}

/// The key by which the ledger is ordered.
pub open spec fn time_key() -> spec_fn(Transaction) -> int {
    |t: Transaction| t.timestamp as int
}

/// The CSV header of a ledger export.
pub open spec fn ledger_csv_header() -> Seq<char> {
    "ID,Hash,From,To,Amount,Fee,Status,Timestamp,Block Height,Confirmations,Memo\n"@
}

pub open spec fn status_text(s: TransactionStatus) -> Seq<char> {
    match s {
        TransactionStatus::Pending => "Pending"@,
        TransactionStatus::Confirmed => "Confirmed"@,
        TransactionStatus::Failed => "Failed"@,
        TransactionStatus::Cancelled => "Cancelled"@,
    }
}

/// One CSV row of a record.
pub open spec fn ledger_csv_row(t: Transaction) -> Seq<char> {
    t.id@ + ","@ + t.hash@ + ","@ + t.from_address@ + ","@ + t.to_address@ + ","@
        + signed_decimal_of(t.amount as int) + ","@ + decimal_of(t.fee as nat) + ","@
        + status_text(t.status) + ","@ + match utc_text(t.timestamp) {
        Some(x) => x,
        None => Seq::empty(),
    } + ","@ + decimal_of(
        match t.block_height {
            Some(h) => h as nat,
            None => 0,
        },
    ) + ","@ + decimal_of(t.confirmations as nat) + ","@ + match t.memo {
        Some(m) => m@,
        None => Seq::empty(),
    } + "\n"@
}

pub open spec fn ledger_csv_rows(s: Seq<Transaction>) -> Seq<char>
    decreases s.len(),
{
    if s.len() == 0 {
        Seq::empty()
    } else {
        ledger_csv_rows(s.drop_last()) + ledger_csv_row(s.last())
    }
}

fn status_text_exec(s: TransactionStatus) -> (r: &'static str)
    ensures
        r@ == status_text(s),
{
    match s {
        TransactionStatus::Pending => "Pending",
        TransactionStatus::Confirmed => "Confirmed",
        TransactionStatus::Failed => "Failed",
        TransactionStatus::Cancelled => "Cancelled",
    }
}

fn ledger_csv_row_exec(t: &Transaction) -> (r: String)
    ensures
        r@ == ledger_csv_row(*t),
{
    let mut r = t.id.clone();
    r.append(",");
    r.append(t.hash.as_str());
    r.append(",");
    r.append(t.from_address.as_str());
    r.append(",");
    r.append(t.to_address.as_str());
    r.append(",");
    let amount = signed_decimal_text(t.amount);
    r.append(amount.as_str());
    r.append(",");
    let fee = decimal_text(t.fee);
    r.append(fee.as_str());
    r.append(",");
    r.append(status_text_exec(t.status));
    r.append(",");
    match format_utc(t.timestamp) {
        Some(x) => r.append(x.as_str()),
        None => {},
    }
    r.append(",");
    let height = decimal_text(
        match t.block_height {
            Some(h) => h,
            None => 0,
        },
    );
    r.append(height.as_str());
    r.append(",");
    let confirmations = decimal_text(t.confirmations as u64);
    r.append(confirmations.as_str());
    r.append(",");
    match &t.memo {
        Some(m) => r.append(m.as_str()),
        None => {},
    }
    r.append("\n");
    assert(r@ =~= ledger_csv_row(*t));
    r
}

impl TransactionHistory {
    /// The totals are the sums over the records, and the records run from the newest down.
    pub open spec fn wf(&self) -> bool {
        &&& self.total_received as int == sum_of(self.transactions@, |t: Transaction| received_part(t))
        &&& self.total_sent as int == sum_of(self.transactions@, |t: Transaction| sent_part(t))
        &&& self.total_fees as int == sum_of(self.transactions@, |t: Transaction| fee_part(t))
        &&& forall|i: int, j: int| 0 <= i < j < self.transactions@.len() ==> self.transactions@[i].timestamp
            >= self.transactions@[j].timestamp
    }

    pub fn new() -> (r: TransactionHistory)
        ensures
            r.wf(),
            r.transactions@.len() == 0,
    {
        TransactionHistory { transactions: Vec::new(), total_sent: 0, total_received: 0, total_fees: 0 }
    }

    /// Inserts a record after every record at least as new, and adds it to the totals.
    pub fn add_transaction(&mut self, transaction: Transaction)
        requires
            old(self).wf(),
            old(self).transactions@.len() < usize::MAX,
        ensures
            final(self).wf(),
            final(self).transactions@ == insert_desc(old(self).transactions@, transaction, time_key()),
            final(self).total_received == old(self).total_received + received_part(transaction),
            final(self).total_sent == old(self).total_sent + sent_part(transaction),
            final(self).total_fees == old(self).total_fees + fee_part(transaction),
    {
        let ghost old_txs = self.transactions@;
        let ghost x = transaction;
        let ghost n = old_txs.len();
        proof {
            lemma_sum_bounds(old_txs, |t: Transaction| received_part(t), 0x8000_0000_0000_0000);
            lemma_sum_bounds(old_txs, |t: Transaction| sent_part(t), 0x8000_0000_0000_0000);
            lemma_sum_bounds(old_txs, |t: Transaction| fee_part(t), 0xFFFF_FFFF_FFFF_FFFF);
            assert(n * 0x8000_0000_0000_0000 <= 0xFFFF_FFFF_FFFF_FFFE * 0x8000_0000_0000_0000) by (nonlinear_arith)
                requires n <= 0xFFFF_FFFF_FFFF_FFFE;
            assert(n * 0xFFFF_FFFF_FFFF_FFFF <= 0xFFFF_FFFF_FFFF_FFFE * 0xFFFF_FFFF_FFFF_FFFF) by (nonlinear_arith)
                requires n <= 0xFFFF_FFFF_FFFF_FFFE;
        }
        if transaction.amount > 0 {
            self.total_received = self.total_received + transaction.amount as u128;
        } else {
            let sent: u128 = if transaction.amount == i64::MIN {
                0x8000_0000_0000_0000u128
            } else {
                (-transaction.amount) as u128
            };
            self.total_sent = self.total_sent + sent;
        }
        self.total_fees = self.total_fees + transaction.fee as u128;
        let mut p: usize = 0;
        while p < self.transactions.len() && self.transactions[p].timestamp >= transaction.timestamp
            invariant
                self.transactions@ == old_txs,
                x == transaction,
                p <= old_txs.len(),
                forall|j: int| 0 <= j < p ==> (time_key())(#[trigger] old_txs[j]) >= (time_key())(x),
            decreases old_txs.len() - p,
        {
            p = p + 1;
        }
        proof {
            assert(first_below(old_txs, x, time_key(), p as int));
            lemma_insert_desc_at(old_txs, x, time_key(), p as int);
            lemma_sum_insert(old_txs, p as int, x, |t: Transaction| received_part(t));
            lemma_sum_insert(old_txs, p as int, x, |t: Transaction| sent_part(t));
            lemma_sum_insert(old_txs, p as int, x, |t: Transaction| fee_part(t));
        }
        self.transactions.insert(p, transaction);
        proof {
            let s = self.transactions@;
            assert(s == old_txs.insert(p as int, x));
            assert forall|i: int, j: int| 0 <= i < j < s.len() implies s[i].timestamp >= s[j].timestamp by {
                let oi = if i < p { i } else if i == p { -1 } else { i - 1 };
                let oj = if j < p { j } else if j == p { -1 } else { j - 1 };
                if i == p {
                    assert(s[j] == old_txs[oj]);
                    if p < old_txs.len() {
                        assert(old_txs[p as int].timestamp < x.timestamp);
                        assert(old_txs[p as int].timestamp >= old_txs[oj].timestamp || oj == p);
                    }
                } else if j == p {
                    assert(s[i] == old_txs[oi]);
                    assert((time_key())(old_txs[oi]) >= (time_key())(x));
                } else {
                    assert(s[i] == old_txs[oi]);
                    assert(s[j] == old_txs[oj]);
                }
            }
        }
    }

    /// The records with this status, in ledger order.
    pub fn get_transactions_by_status(&self, status: TransactionStatus) -> (r: Vec<&Transaction>)
        ensures
            r@.len() == with_status(self.transactions@, status).len(),
            forall|j: int| 0 <= j < r@.len() ==> *r@[j] == with_status(self.transactions@, status)[j],
    {
        let mut r: Vec<&Transaction> = Vec::new();
        let mut i: usize = 0;
        while i < self.transactions.len()
            invariant
                i <= self.transactions@.len(),
                r@.len() == with_status(self.transactions@.subrange(0, i as int), status).len(),
                forall|j: int| 0 <= j < r@.len() ==> *r@[j] == with_status(self.transactions@.subrange(0, i as int), status)[j],
            decreases self.transactions@.len() - i,
        {
            assert(self.transactions@.subrange(0, i + 1).drop_last() =~= self.transactions@.subrange(0, i as int));
            if self.transactions[i].status == status {
                r.push(&self.transactions[i]);
            }
            i = i + 1;
        }
        assert(self.transactions@.subrange(0, self.transactions@.len() as int) =~= self.transactions@);
        r
    }

    /// The pending records, in ledger order.
    pub fn get_pending_transactions(&self) -> (r: Vec<&Transaction>)
        ensures
            r@.len() == with_status(self.transactions@, TransactionStatus::Pending).len(),
            forall|j: int| 0 <= j < r@.len() ==> *r@[j] == with_status(self.transactions@, TransactionStatus::Pending)[j],
    {
        self.get_transactions_by_status(TransactionStatus::Pending)
    }

    /// The newest `limit` records, or all of them if there are fewer.
    pub fn get_recent_transactions(&self, limit: usize) -> (r: Vec<&Transaction>)
        ensures
            r@.len() == if limit < self.transactions@.len() { limit as int } else { self.transactions@.len() as int },
            forall|j: int| 0 <= j < r@.len() ==> *r@[j] == self.transactions@[j],
    {
        let mut r: Vec<&Transaction> = Vec::new();
        let mut i: usize = 0;
        while i < self.transactions.len() && i < limit
            invariant
                i <= self.transactions@.len(),
                i <= limit,
                r@.len() == i,
                forall|j: int| 0 <= j < i ==> *r@[j] == self.transactions@[j],
            decreases self.transactions@.len() - i,
        {
            r.push(&self.transactions[i]);
            i = i + 1;
        }
        r
    }

    /// The records sent from or to `address`, in ledger order.
    pub fn get_transactions_by_address(&self, address: &str) -> (r: Vec<&Transaction>)
        ensures
            r@.len() == touching(self.transactions@, address@).len(),
            forall|j: int| 0 <= j < r@.len() ==> *r@[j] == touching(self.transactions@, address@)[j],
    {
        let mut r: Vec<&Transaction> = Vec::new();
        let mut i: usize = 0;
        while i < self.transactions.len()
            invariant
                i <= self.transactions@.len(),
                r@.len() == touching(self.transactions@.subrange(0, i as int), address@).len(),
                forall|j: int| 0 <= j < r@.len() ==> *r@[j] == touching(self.transactions@.subrange(0, i as int), address@)[j],
            decreases self.transactions@.len() - i,
        {
            assert(self.transactions@.subrange(0, i + 1).drop_last() =~= self.transactions@.subrange(0, i as int));
            if same_text(self.transactions[i].from_address.as_str(), address) || same_text(
                self.transactions[i].to_address.as_str(),
                address,
            ) {
                r.push(&self.transactions[i]);
            }
            i = i + 1;
        }
        assert(self.transactions@.subrange(0, self.transactions@.len() as int) =~= self.transactions@);
        r
    }

    /// The net amount, in satoshis, of the records stamped at or before `timestamp`.
    pub fn get_balance_at_time(&self, timestamp: i64) -> (r: i128)
        ensures
            r as int == balance_at(self.transactions@, timestamp),
    {
        let mut balance: i128 = 0;
        let mut i: usize = 0;
        while i < self.transactions.len()
            invariant
                i <= self.transactions@.len(),
                balance as int == balance_at(self.transactions@.subrange(0, i as int), timestamp),
            decreases self.transactions@.len() - i,
        {
            proof {
                let s = self.transactions@.subrange(0, i + 1);
                assert(s.drop_last() =~= self.transactions@.subrange(0, i as int));
                lemma_balance_bounds(s.drop_last(), timestamp);
                assert(i * 0x8000_0000_0000_0000 <= 0xFFFF_FFFF_FFFF_FFFF * 0x8000_0000_0000_0000) by (nonlinear_arith)
                    requires i <= 0xFFFF_FFFF_FFFF_FFFFu64;
            }
            if self.transactions[i].timestamp <= timestamp {
                balance = balance + self.transactions[i].amount as i128;
            }
            i = i + 1;
        }
        assert(self.transactions@.subrange(0, self.transactions@.len() as int) =~= self.transactions@);
        balance
    }

    /// The ledger as CSV: a header line, then one line per record in ledger order.
    pub fn export_to_csv(&self) -> (r: Result<String, WalletError>)
        ensures
            r matches Ok(s) && s@ == ledger_csv_header() + ledger_csv_rows(self.transactions@),
    {
        let mut csv = String::from_str("ID,Hash,From,To,Amount,Fee,Status,Timestamp,Block Height,Confirmations,Memo\n");
        let mut i: usize = 0;
        while i < self.transactions.len()
            invariant
                i <= self.transactions@.len(),
                csv@ == ledger_csv_header() + ledger_csv_rows(self.transactions@.subrange(0, i as int)),
            decreases self.transactions@.len() - i,
        {
            assert(self.transactions@.subrange(0, i + 1).drop_last() =~= self.transactions@.subrange(0, i as int));
            let row = ledger_csv_row_exec(&self.transactions[i]);
            csv.append(row.as_str());
            i = i + 1;
            assert(csv@ =~= ledger_csv_header() + ledger_csv_rows(self.transactions@.subrange(0, i as int)));
        }
        assert(self.transactions@.subrange(0, self.transactions@.len() as int) =~= self.transactions@);
        Ok(csv)
    }
}

/// The totals of a well-formed ledger are the sums over its records: received the positive
/// amounts, sent the magnitudes of the negative ones, fees the fees. Every `add_transaction`
/// keeps the ledger well-formed, so this holds after any sequence of them.
pub proof fn lemma_totals_recomputable(h: TransactionHistory)
    requires
        h.wf(),
    ensures
        h.total_received as int == sum_of(h.transactions@, |t: Transaction| received_part(t)),
        h.total_sent as int == sum_of(h.transactions@, |t: Transaction| sent_part(t)),
        h.total_fees as int == sum_of(h.transactions@, |t: Transaction| fee_part(t)),
{
}

} // verus!
