//! Laws of transaction processing: how a successful transaction moves the
//! sender's nonce and the balances, what a transfer does to the balances
//! however it ends, and which blocks keep the sum of all balances.

use vstd::prelude::*;
use vstd::bytes::{lemma_auto_spec_u64_to_from_le_bytes, spec_u64_to_le_bytes};
use crate::engine::executor::{run_from, spec_execute_block};
use crate::engine::host::HostModel;
use crate::engine::transaction::{
    account_prefix, balance_key_spec, balance_suffix, lemma_emit_all_advances,
    lemma_process_inner_advances, lemma_transfer_advances, next_nonce, nonce_key_spec, nonce_suffix,
    read_u64_at, spec_decode_transaction, spec_execute_transfer, spec_process_inner,
    spec_process_transaction, DecodedTransactionView, PayloadView,
};
use crate::primitives::crypto::signature_accepted;
use crate::engine::validation::request_valid;
use crate::primitives::error::ExecErrorView;
use crate::primitives::execution::{ExecutionRequestView, ExecutionStatus};
use crate::primitives::gas::{cost_with_bytes, G_STATE_GET, G_STATE_SET, G_VERIFY_ED25519};
use crate::primitives::state::OverlayResultView;
use crate::primitives::types::spec_read_u64;

verus! {

/// A number written as eight little-endian bytes reads back.
pub proof fn lemma_number_reads_back(x: u64)
    ensures
        spec_u64_to_le_bytes(x).len() == 8,
        spec_read_u64(spec_u64_to_le_bytes(x)) == Some(x),
{
    lemma_auto_spec_u64_to_from_le_bytes();
    assert(spec_u64_to_le_bytes(x).subrange(0, 8) =~= spec_u64_to_le_bytes(x));
}

/// Balance keys of different addresses differ, and no balance key is a
/// nonce key.
pub proof fn lemma_account_keys_distinct(a: Seq<u8>, b: Seq<u8>)
    ensures
        balance_key_spec(a) == balance_key_spec(b) ==> a == b,
        balance_key_spec(a) != nonce_key_spec(b),
        balance_key_spec(a).len() == a.len() + 13,
        nonce_key_spec(a).len() == a.len() + 11,
{
    let ka = balance_key_spec(a);
    let kb = balance_key_spec(b);
    assert(account_prefix().len() == 5);
    assert(balance_suffix().len() == 8);
    assert(nonce_suffix().len() == 6);
    assert(ka.len() == a.len() + 13);
    assert(kb.len() == b.len() + 13);
    assert(nonce_key_spec(a).len() == a.len() + 11);
    assert(nonce_key_spec(b).len() == b.len() + 11);
    if ka == kb {
        assert(a.len() == b.len());
        assert forall|i: int| 0 <= i < a.len() implies a[i] == b[i] by {
            assert(ka[5 + i] == a[i]);
            assert(kb[5 + i] == b[i]);
        }
        assert(a =~= b);
    }
    let nb = nonce_key_spec(b);
    if ka == nb {
        assert(ka[ka.len() - 6] == 97u8);
        assert(nb[nb.len() - 6] == 47u8);
    }
}

/// The balance of an account as the host reads it: zero when none is
/// stored or when what is stored cannot be read.
pub open spec fn balance_of(m: HostModel, addr: Seq<u8>) -> int {
    match read_u64_at(m, balance_key_spec(addr)) {
        Ok(v) => v as int,
        Err(_) => 0,
    }
}

/// The nonce of an account as the host reads it.
pub open spec fn nonce_of(m: HostModel, addr: Seq<u8>) -> int {
    match read_u64_at(m, nonce_key_spec(addr)) {
        Ok(v) => v as int,
        Err(_) => 0,
    }
}

/// Nonce monotonicity: a transaction succeeds only when its nonce is the
/// sender's current nonce, and afterwards the overlay holds the next nonce
/// for the sender: one more, or zero after `u64::MAX`.
pub proof fn lemma_nonce_monotonic(m: HostModel, tx_index: u32, tx: DecodedTransactionView)
    requires
        spec_process_transaction(m, tx_index, tx).1.success,
    ensures
        read_u64_at(m, nonce_key_spec(tx.sender)) == Ok::<u64, ExecErrorView>(tx.nonce),
        spec_process_transaction(m, tx_index, tx).0.overlay.get(nonce_key_spec(tx.sender))
            == OverlayResultView::Found(spec_u64_to_le_bytes(next_nonce(tx.nonce))),
        read_u64_at(spec_process_transaction(m, tx_index, tx).0, nonce_key_spec(tx.sender)) == Ok::<
            u64,
            ExecErrorView,
        >(next_nonce(tx.nonce)),
        tx.nonce < u64::MAX ==> nonce_of(spec_process_transaction(m, tx_index, tx).0, tx.sender)
            == nonce_of(m, tx.sender) + 1,
{
    reveal(spec_process_transaction);
    let key = nonce_key_spec(tx.sender);
    let (inner, r) = spec_process_inner(m, tx_index, tx);
    assert(r is Ok);
    lemma_emit_all_advances(inner, r->Ok_0);
    lemma_number_reads_back(next_nonce(tx.nonce));
    let m1 = m.charge(G_VERIFY_ED25519).0;
    let m2 = m1.charge(cost_with_bytes(G_STATE_GET, key.len())).0;
    assert(read_u64_at(m2, key) == read_u64_at(m, key));
    match tx.payload {
        PayloadView::Transfer { to, amount } => {
            let (m3, r3) = spec_execute_transfer(m2, tx_index, tx.sender, to, amount);
            let m4 = m3.charge(cost_with_bytes(G_STATE_SET, key.len() + 8)).0;
            let m5 = m4.state_set(key, spec_u64_to_le_bytes(next_nonce(tx.nonce))).0;
            assert(inner == m5);
        },
    }
}

/// What a successful transaction with a transfer does to the balances: the
/// amount leaves the sender, reaches the recipient, and every other
/// account keeps its balance.
pub proof fn lemma_transfer_moves_tokens(
    m: HostModel,
    tx_index: u32,
    tx: DecodedTransactionView,
    other: Seq<u8>,
)
    requires
        spec_process_transaction(m, tx_index, tx).1.success,
        tx.payload matches PayloadView::Transfer { to, .. } && tx.sender != to,
    ensures
        tx.payload matches PayloadView::Transfer { to, amount } && balance_of(
            spec_process_transaction(m, tx_index, tx).0,
            tx.sender,
        ) == balance_of(m, tx.sender) - amount && balance_of(
            spec_process_transaction(m, tx_index, tx).0,
            to,
        ) == balance_of(m, to) + amount,
        tx.payload matches PayloadView::Transfer { to, .. } && (other != tx.sender && other != to
            ==> balance_of(spec_process_transaction(m, tx_index, tx).0, other) == balance_of(
            m,
            other,
        )),
{
    let after = spec_process_transaction(m, tx_index, tx).0;
    lemma_balances_follow_transfer(m, tx_index, tx);
    lemma_success_completes_transfer(m, tx_index, tx);
    match tx.payload {
        PayloadView::Transfer { to, amount } => {
            let start = transfer_start(m, tx)->Some_0;
            lemma_transfer_shifts_balances(start, tx_index, tx.sender, to, amount);
            let done = spec_execute_transfer(start, tx_index, tx.sender, to, amount).0;
            assert(balance_of(after, tx.sender) == balance_of(done, tx.sender));
            assert(balance_of(after, to) == balance_of(done, to));
            assert(balance_of(after, other) == balance_of(done, other));
            assert(balance_of(start, tx.sender) == balance_of(m, tx.sender));
            assert(balance_of(start, to) == balance_of(m, to));
            assert(balance_of(start, other) == balance_of(m, other));
        },
    }
}

/// Every balance after is the balance before, plus `sender_delta` for
/// `sender` and plus `to_delta` for `to`.
pub open spec fn balances_shifted(
    before: HostModel,
    after: HostModel,
    sender: Seq<u8>,
    sender_delta: int,
    to: Seq<u8>,
    to_delta: int,
) -> bool {
    forall|a: Seq<u8>|
        #![trigger balance_of(after, a)]
        balance_of(after, a) == balance_of(before, a) + (if a == sender {
            sender_delta
        } else {
            0
        }) + (if a == to {
            to_delta
        } else {
            0
        })
}

/// Every account has the same balance in both hosts.
pub open spec fn same_balances(before: HostModel, after: HostModel) -> bool {
    forall|a: Seq<u8>| #![trigger balance_of(after, a)] balance_of(after, a) == balance_of(before, a)
}

/// Two hosts over one committed state whose overlays hold the same writes
/// read the same balances.
pub proof fn lemma_same_writes_same_balances(before: HostModel, after: HostModel)
    requires
        after.committed == before.committed,
        after.overlay.writes == before.overlay.writes,
    ensures
        same_balances(before, after),
{
}

/// What a transfer does to the balances, however it ends. One that
/// succeeds between two accounts moves the amount from the sender to the
/// recipient; one that succeeds from an account to itself adds the amount
/// to it, since the recipient's balance is written last. One that fails
/// has written nothing, or only the sender's lowered balance.
pub proof fn lemma_transfer_shifts_balances(
    m: HostModel,
    tx_index: u32,
    sender: Seq<u8>,
    to: Seq<u8>,
    amount: u64,
)
    ensures
        ({
            let (after, r) = spec_execute_transfer(m, tx_index, sender, to, amount);
            match r {
                Ok(_) => balances_shifted(
                    m,
                    after,
                    sender,
                    if sender == to {
                        0
                    } else {
                        -amount
                    },
                    to,
                    amount as int,
                ),
                Err(_) => balances_shifted(m, after, sender, 0, to, 0) || balances_shifted(
                    m,
                    after,
                    sender,
                    -amount,
                    to,
                    0,
                ),
            }
        }),
{
    reveal(spec_execute_transfer);
    let (after, r) = spec_execute_transfer(m, tx_index, sender, to, amount);
    let sender_key = balance_key_spec(sender);
    let to_key = balance_key_spec(to);
    let m1 = m.charge(cost_with_bytes(G_STATE_GET, sender_key.len())).0;
    let m2 = m1.charge(cost_with_bytes(G_STATE_GET, to_key.len())).0;
    let m3 = m2.charge(cost_with_bytes(G_STATE_SET, sender_key.len() + 8)).0;
    lemma_same_writes_same_balances(m, m1);
    lemma_same_writes_same_balances(m, m2);
    lemma_same_writes_same_balances(m, m3);
    if r is Err && after.overlay.writes == m.overlay.writes {
        lemma_same_writes_same_balances(m, after);
    } else {
        let sender_balance = read_u64_at(m1, sender_key)->Ok_0;
        let to_balance = read_u64_at(m2, to_key)->Ok_0;
        let lowered = spec_u64_to_le_bytes((sender_balance - amount) as u64);
        let raised = spec_u64_to_le_bytes((to_balance + amount) as u64);
        lemma_number_reads_back((sender_balance - amount) as u64);
        lemma_number_reads_back((to_balance + amount) as u64);
        let m4 = m3.state_set(sender_key, lowered).0;
        let m5 = m4.charge(cost_with_bytes(G_STATE_SET, to_key.len() + 8)).0;
        let m6 = m5.state_set(to_key, raised).0;
        assert(read_u64_at(m1, sender_key) == read_u64_at(m, sender_key));
        assert(read_u64_at(m2, to_key) == read_u64_at(m, to_key));
        assert(balance_of(m, sender) == sender_balance);
        assert(balance_of(m, to) == to_balance);
        lemma_same_writes_same_balances(m4, m5);
        assert(balances_shifted(m, m4, sender, -amount, to, 0)) by {
            assert forall|a: Seq<u8>| #![trigger balance_of(m4, a)] balance_of(m4, a) == balance_of(m, a) + (if a
                == sender {
                -amount
            } else {
                0
            }) by {
                lemma_account_keys_distinct(a, sender);
                assert(balance_of(m3, a) == balance_of(m, a));
            }
        }
        if r is Ok {
            assert(after == m6);
            assert forall|a: Seq<u8>| #![trigger balance_of(m6, a)] balance_of(m6, a) == balance_of(m, a) + (if a
                == sender {
                if sender == to {
                    0
                } else {
                    -amount
                }
            } else {
                0
            }) + (if a == to {
                amount as int
            } else {
                0
            }) by {
                lemma_account_keys_distinct(a, to);
                assert(balance_of(m5, a) == balance_of(m4, a));
            }
        } else {
            assert(after.overlay.writes == m4.overlay.writes);
            assert(after.committed == m4.committed);
            lemma_same_writes_same_balances(m4, after);
        }
    }
}

/// The sum of the balances of the listed accounts.
pub open spec fn total_balance(m: HostModel, accounts: Seq<Seq<u8>>) -> int
    decreases accounts.len(),
{
    if accounts.len() == 0 {
        0
    } else {
        balance_of(m, accounts[0]) + total_balance(m, accounts.skip(1))
    }
}

/// `amount` when `addr` is listed, else zero.
pub open spec fn share(accounts: Seq<Seq<u8>>, addr: Seq<u8>, amount: int) -> int {
    if accounts.contains(addr) {
        amount
    } else {
        0
    }
}

/// A shift of balances changes the sum over a list of accounts by the
/// shifts of those that are listed.
pub proof fn lemma_shift_changes_total(
    before: HostModel,
    after: HostModel,
    sender: Seq<u8>,
    sender_delta: int,
    to: Seq<u8>,
    to_delta: int,
    accounts: Seq<Seq<u8>>,
)
    requires
        balances_shifted(before, after, sender, sender_delta, to, to_delta),
        accounts.no_duplicates(),
    ensures
        total_balance(after, accounts) == total_balance(before, accounts) + share(
            accounts,
            sender,
            sender_delta,
        ) + share(accounts, to, to_delta),
    decreases accounts.len(),
{
    if accounts.len() > 0 {
        let first = accounts[0];
        let tail = accounts.skip(1);
        assert forall|i: int, j: int| 0 <= i < tail.len() && 0 <= j < tail.len() && i != j implies tail[i]
            != tail[j] by {
            assert(tail[i] == accounts[i + 1] && tail[j] == accounts[j + 1]);
        }
        lemma_shift_changes_total(before, after, sender, sender_delta, to, to_delta, tail);
        assert forall|a: Seq<u8>| accounts.contains(a) <==> (a == first || tail.contains(a)) by {
            if accounts.contains(a) {
                let i = choose|i: int| 0 <= i < accounts.len() && accounts[i] == a;
                if i > 0 {
                    assert(tail[i - 1] == a);
                }
            }
            if tail.contains(a) {
                let i = choose|i: int| 0 <= i < tail.len() && tail[i] == a;
                assert(accounts[i + 1] == a);
            }
            if a == first {
                assert(accounts[0] == a);
            }
        }
        assert(!tail.contains(first)) by {
            if tail.contains(first) {
                let i = choose|i: int| 0 <= i < tail.len() && tail[i] == first;
                assert(accounts[i + 1] == accounts[0]);
            }
        }
        assert(balance_of(after, first) == balance_of(before, first) + (if first == sender {
            sender_delta
        } else {
            0
        }) + (if first == to {
            to_delta
        } else {
            0
        }));
    }
}

/// The host when a transaction's transfer begins, if the transaction gets
/// that far: the signature check and the nonce read have been charged, the
/// signature is accepted and the nonce is the sender's.
pub open spec fn transfer_start(m: HostModel, tx: DecodedTransactionView) -> Option<HostModel> {
    let key = nonce_key_spec(tx.sender);
    let (m1, c1) = m.charge(G_VERIFY_ED25519);
    let (m2, c2) = m1.charge(cost_with_bytes(G_STATE_GET, key.len()));
    if c1 is Ok && signature_accepted(tx.signed_data, tx.signature, tx.public_key) && c2 is Ok
        && read_u64_at(m2, key) == Ok::<u64, ExecErrorView>(tx.nonce) {
        Some(m2)
    } else {
        None
    }
}

/// The balances after a transaction are those that its transfer left; a
/// transaction that does not get to its transfer leaves them as they were.
pub proof fn lemma_balances_follow_transfer(m: HostModel, tx_index: u32, tx: DecodedTransactionView)
    ensures
        match (transfer_start(m, tx), tx.payload) {
            (None, _) => same_balances(m, spec_process_transaction(m, tx_index, tx).0),
            (Some(start), PayloadView::Transfer { to, amount }) => same_balances(m, start)
                && same_balances(
                spec_execute_transfer(start, tx_index, tx.sender, to, amount).0,
                spec_process_transaction(m, tx_index, tx).0,
            ),
        },
{
    reveal(spec_process_transaction);
    let after = spec_process_transaction(m, tx_index, tx).0;
    let key = nonce_key_spec(tx.sender);
    let (inner, r) = spec_process_inner(m, tx_index, tx);
    if r is Ok {
        lemma_emit_all_advances(inner, r->Ok_0);
    }
    lemma_process_inner_advances(m, tx_index, tx);
    lemma_same_writes_same_balances(inner, after);
    let m1 = m.charge(G_VERIFY_ED25519).0;
    let m2 = m1.charge(cost_with_bytes(G_STATE_GET, key.len())).0;
    lemma_same_writes_same_balances(m, m1);
    lemma_same_writes_same_balances(m, m2);
    match tx.payload {
        PayloadView::Transfer { to, amount } => {
            if transfer_start(m, tx) is Some {
                let m3 = spec_execute_transfer(m2, tx_index, tx.sender, to, amount).0;
                lemma_transfer_advances(m2, tx_index, tx.sender, to, amount);
                let m4 = m3.charge(cost_with_bytes(G_STATE_SET, key.len() + 8)).0;
                let m5 = m4.state_set(key, spec_u64_to_le_bytes(next_nonce(tx.nonce))).0;
                lemma_same_writes_same_balances(m3, m4);
                assert(same_balances(m4, m5)) by {
                    assert forall|a: Seq<u8>| #![trigger balance_of(m5, a)] balance_of(m5, a) == balance_of(
                        m4,
                        a,
                    ) by {
                        lemma_account_keys_distinct(a, tx.sender);
                    }
                }
                assert(inner == m3 || inner == m4 || inner == m5);
            } else {
                assert(inner == m || inner == m1 || inner == m2);
            }
        },
    }
}

/// A transaction that succeeds got to its transfer, and the transfer
/// succeeded.
pub proof fn lemma_success_completes_transfer(m: HostModel, tx_index: u32, tx: DecodedTransactionView)
    requires
        spec_process_transaction(m, tx_index, tx).1.success,
    ensures
        transfer_start(m, tx) matches Some(start) && (tx.payload matches PayloadView::Transfer {
            to,
            amount,
        } && spec_execute_transfer(start, tx_index, tx.sender, to, amount).1 is Ok),
{
    reveal(spec_process_transaction);
}

/// A transaction that keeps the sum of the balances: its transfer does not
/// begin, or moves nothing, or writes nothing, or writes both balances of
/// two different accounts. What this leaves out is a transfer of a positive
/// amount that ends after its first write, which takes the amount from the
/// sender and gives it to nobody, and one from an account to itself, which
/// adds the amount to that account.
pub open spec fn keeps_tokens(m: HostModel, tx_index: u32, tx: DecodedTransactionView) -> bool {
    match (transfer_start(m, tx), tx.payload) {
        (None, _) => true,
        (Some(start), PayloadView::Transfer { to, amount }) => {
            let (after, r) = spec_execute_transfer(start, tx_index, tx.sender, to, amount);
            amount == 0 || after.overlay.writes == start.overlay.writes || (r is Ok && tx.sender != to)
        },
    }
}

/// Both accounts of the transaction's transfer are listed.
pub open spec fn accounts_listed(tx: DecodedTransactionView, accounts: Seq<Seq<u8>>) -> bool {
    tx.payload matches PayloadView::Transfer { to, .. } && accounts.contains(tx.sender)
        && accounts.contains(to)
}

/// A transaction that keeps the tokens leaves the sum of the balances of
/// any list of accounts that holds its sender and its recipient as it was.
pub proof fn lemma_transaction_conserves_tokens(
    m: HostModel,
    tx_index: u32,
    tx: DecodedTransactionView,
    accounts: Seq<Seq<u8>>,
)
    requires
        keeps_tokens(m, tx_index, tx),
        accounts.no_duplicates(),
        accounts_listed(tx, accounts),
    ensures
        total_balance(spec_process_transaction(m, tx_index, tx).0, accounts) == total_balance(
            m,
            accounts,
        ),
{
    let after = spec_process_transaction(m, tx_index, tx).0;
    lemma_balances_follow_transfer(m, tx_index, tx);
    match tx.payload {
        PayloadView::Transfer { to, amount } => {
            match transfer_start(m, tx) {
                None => {
                    assert(balances_shifted(m, after, tx.sender, 0, to, 0));
                    lemma_shift_changes_total(m, after, tx.sender, 0, to, 0, accounts);
                },
                Some(start) => {
                    let (done, r) = spec_execute_transfer(start, tx_index, tx.sender, to, amount);
                    lemma_transfer_shifts_balances(start, tx_index, tx.sender, to, amount);
                    lemma_transfer_advances(start, tx_index, tx.sender, to, amount);
                    if done.overlay.writes == start.overlay.writes {
                        lemma_same_writes_same_balances(start, done);
                        assert(balances_shifted(m, after, tx.sender, 0, to, 0));
                        lemma_shift_changes_total(m, after, tx.sender, 0, to, 0, accounts);
                    } else if amount == 0 {
                        assert(balances_shifted(m, after, tx.sender, 0, to, 0));
                        lemma_shift_changes_total(m, after, tx.sender, 0, to, 0, accounts);
                    } else {
                        assert(balances_shifted(m, after, tx.sender, -amount, to, amount as int));
                        lemma_shift_changes_total(m, after, tx.sender, -amount, to, amount as int, accounts);
                    }
                },
            }
        },
    }
}

/// A transfer from an account to itself that succeeds adds the amount to
/// the account's balance.
pub proof fn lemma_self_transfer_adds(m: HostModel, tx_index: u32, tx: DecodedTransactionView)
    requires
        spec_process_transaction(m, tx_index, tx).1.success,
        tx.payload matches PayloadView::Transfer { to, .. } && tx.sender == to,
    ensures
        tx.payload matches PayloadView::Transfer { amount, .. } && balance_of(
            spec_process_transaction(m, tx_index, tx).0,
            tx.sender,
        ) == balance_of(m, tx.sender) + amount,
{
    let after = spec_process_transaction(m, tx_index, tx).0;
    lemma_balances_follow_transfer(m, tx_index, tx);
    lemma_success_completes_transfer(m, tx_index, tx);
    match tx.payload {
        PayloadView::Transfer { to, amount } => {
            let start = transfer_start(m, tx)->Some_0;
            lemma_transfer_shifts_balances(start, tx_index, tx.sender, to, amount);
            let done = spec_execute_transfer(start, tx_index, tx.sender, to, amount).0;
            assert(balance_of(after, tx.sender) == balance_of(done, tx.sender));
            assert(balance_of(done, tx.sender) == balance_of(start, tx.sender) + amount);
            assert(balance_of(start, tx.sender) == balance_of(m, tx.sender));
        },
    }
}

/// Every transaction that the run from position `i` processes keeps the
/// tokens and names listed accounts.
pub open spec fn run_keeps_tokens(
    m: HostModel,
    txs: Seq<Seq<u8>>,
    i: int,
    accounts: Seq<Seq<u8>>,
) -> bool
    decreases txs.len() - i,
{
    if i < 0 || i >= txs.len() {
        true
    } else {
        match spec_decode_transaction(txs[i]) {
            None => run_keeps_tokens(m, txs, i + 1, accounts),
            Some(tx) => {
                let after = spec_process_transaction(m, i as u32, tx).0;
                keeps_tokens(m, i as u32, tx) && accounts_listed(tx, accounts) && (
                after.gas.is_exhausted() || run_keeps_tokens(after, txs, i + 1, accounts))
            },
        }
    }
}

proof fn lemma_run_conserves_tokens(
    m: HostModel,
    txs: Seq<Seq<u8>>,
    i: int,
    accounts: Seq<Seq<u8>>,
)
    requires
        0 <= i,
        accounts.no_duplicates(),
        run_keeps_tokens(m, txs, i, accounts),
    ensures
        total_balance(run_from(m, txs, i).0, accounts) == total_balance(m, accounts),
    decreases txs.len() - i,
{
    if i < txs.len() {
        match spec_decode_transaction(txs[i]) {
            None => {
                lemma_run_conserves_tokens(m, txs, i + 1, accounts);
            },
            Some(tx) => {
                let after = spec_process_transaction(m, i as u32, tx).0;
                lemma_transaction_conserves_tokens(m, i as u32, tx, accounts);
                if !after.gas.is_exhausted() {
                    lemma_run_conserves_tokens(after, txs, i + 1, accounts);
                }
            },
        }
    }
}

/// Conservation of tokens: in a block that succeeds and whose transactions
/// each keep the tokens, the sum of the balances of any list of accounts
/// that holds every sender and recipient is the same after the block as
/// before. A transaction that fails before its first write, or after both
/// balances are written, is among those that keep them.
pub proof fn lemma_block_conserves_tokens(
    req: ExecutionRequestView,
    m: HostModel,
    accounts: Seq<Seq<u8>>,
)
    requires
        spec_execute_block(req, m).1.status == ExecutionStatus::Success,
        accounts.no_duplicates(),
        run_keeps_tokens(m, req.transactions, 0, accounts),
    ensures
        total_balance(spec_execute_block(req, m).0, accounts) == total_balance(m, accounts),
{
    assert(request_valid(req));
    lemma_run_conserves_tokens(m, req.transactions, 0, accounts);
}

} // verus!
