//! Transactions: the wire format, the account keys, and the processing of
//! one transaction against a host.
//!
//! A transaction is laid out as
//! `sender(32) || nonce(8, LE) || type(1) || payload || public_key(32) || signature(64)`.
//! The only payload type is a transfer, `0x01`, with payload
//! `to(32) || amount(8, LE)`, which makes 177 bytes. The signature covers
//! everything before the public key.

use vstd::prelude::*;
use vstd::bytes::{
    lemma_auto_spec_u64_to_from_le_bytes, spec_u64_from_le_bytes, spec_u64_to_le_bytes,
};
use vstd::slice::{slice_subrange, slice_to_vec};
use vstd::string::StringExecFns;
use crate::engine::host::{unit_result_view, HostInterface, HostModel};
use crate::primitives::crypto::{public_key_bytes, sign_ed25519, signature_accepted};
use crate::primitives::error::{decimal, decimal_digits, ErrorCode, ExecError, ExecErrorView, ExecResult};
use crate::primitives::execution::{
    Event, EventAttribute, EventAttributeView, EventView, Receipt, ReceiptView,
};
use crate::primitives::gas::{
    cost_with_bytes, gas_cost_state_get, gas_cost_state_set, G_STATE_GET, G_STATE_SET,
    G_VERIFY_ED25519,
};
use crate::primitives::types::{
    array32_from, array64_from, spec_read_u64, u64_from_le_bytes, u64_to_le_bytes, Address,
};

verus! {

/// Length of a transfer transaction on the wire.
pub const MIN_TRANSFER_TX_SIZE: usize = 177;

/// Type tag of a transfer.
pub const PAYLOAD_TRANSFER: u8 = 0x01;

/// Length of the signed part of a transfer.
pub const SIGNED_DATA_LEN: usize = 81;

/// The bytes of `acct/`.
pub open spec fn account_prefix() -> Seq<u8> {
    seq![97u8, 99u8, 99u8, 116u8, 47u8]
}

/// The bytes of `/balance`.
pub open spec fn balance_suffix() -> Seq<u8> {
    seq![47u8, 98u8, 97u8, 108u8, 97u8, 110u8, 99u8, 101u8]
}

/// The bytes of `/nonce`.
pub open spec fn nonce_suffix() -> Seq<u8> {
    seq![47u8, 110u8, 111u8, 110u8, 99u8, 101u8]
}

/// The state key of an account's balance: `acct/ || address || /balance`.
pub open spec fn balance_key_spec(addr: Seq<u8>) -> Seq<u8> {
    account_prefix() + addr + balance_suffix()
}

/// The state key of an account's nonce: `acct/ || address || /nonce`.
pub open spec fn nonce_key_spec(addr: Seq<u8>) -> Seq<u8> {
    account_prefix() + addr + nonce_suffix()
}

/// Payload of a transaction.
#[derive(Debug, Clone, PartialEq, Eq)]
pub enum TransactionPayload {
    /// Moves `amount` from the sender to `to`.
    Transfer { to: Address, amount: u64 },
}

/// Mathematical content of a [`TransactionPayload`].
pub enum PayloadView {
    Transfer { to: Seq<u8>, amount: u64 },
}

impl View for TransactionPayload {
    type V = PayloadView;

    open spec fn view(&self) -> PayloadView {
        match *self {
            TransactionPayload::Transfer { to, amount } => PayloadView::Transfer { to: to@, amount },
        }
    }
}

/// A transaction taken apart.
#[derive(Debug, Clone, PartialEq, Eq)]
pub struct DecodedTransaction {
    /// Address of the sender.
    pub sender: Address,
    /// Sequence number, for replay protection.
    pub nonce: u64,
    /// What the transaction does.
    pub payload: TransactionPayload,
    /// Ed25519 public key of the signer.
    pub public_key: [u8; 32],
    /// Ed25519 signature over `signed_data`.
    pub signature: [u8; 64],
    /// The bytes that were signed.
    pub signed_data: Vec<u8>,
}

/// Mathematical content of a [`DecodedTransaction`].
pub struct DecodedTransactionView {
    pub sender: Seq<u8>,
    pub nonce: u64,
    pub payload: PayloadView,
    pub public_key: Seq<u8>,
    pub signature: Seq<u8>,
    pub signed_data: Seq<u8>,
}

impl View for DecodedTransaction {
    type V = DecodedTransactionView;

    open spec fn view(&self) -> DecodedTransactionView {
        DecodedTransactionView {
            sender: self.sender@,
            nonce: self.nonce,
            payload: self.payload@,
            public_key: self.public_key@,
            signature: self.signature@,
            signed_data: self.signed_data@,
        }
    }
}

/// The transaction that raw bytes hold; `None` when they are fewer than
/// 177 or the type byte is not a transfer. Bytes after the signature are
/// ignored.
pub open spec fn spec_decode_transaction(raw: Seq<u8>) -> Option<DecodedTransactionView> {
    if raw.len() < MIN_TRANSFER_TX_SIZE {
        None
    } else if raw[40] != PAYLOAD_TRANSFER {
        None
    } else {
        Some(
            DecodedTransactionView {
                sender: raw.subrange(0, 32),
                nonce: spec_u64_from_le_bytes(raw.subrange(32, 40)),
                payload: PayloadView::Transfer {
                    to: raw.subrange(41, 73),
                    amount: spec_u64_from_le_bytes(raw.subrange(73, 81)),
                },
                public_key: raw.subrange(81, 113),
                signature: raw.subrange(113, 177),
                signed_data: raw.subrange(0, 81),
            },
        )
    }
}

/// The signed part of a transfer.
pub open spec fn transfer_signed_data(sender: Seq<u8>, nonce: u64, to: Seq<u8>, amount: u64) -> Seq<
    u8,
> {
    sender + spec_u64_to_le_bytes(nonce) + seq![PAYLOAD_TRANSFER] + to + spec_u64_to_le_bytes(
        amount,
    )
}

/// A transfer put on the wire decodes to the values it was made of.
pub proof fn lemma_decode_encoded_transfer(
    sender: Seq<u8>,
    nonce: u64,
    to: Seq<u8>,
    amount: u64,
    public_key: Seq<u8>,
    signature: Seq<u8>,
)
    requires
        sender.len() == 32,
        to.len() == 32,
        public_key.len() == 32,
        signature.len() == 64,
    ensures
        spec_decode_transaction(
            transfer_signed_data(sender, nonce, to, amount) + public_key + signature,
        ) == Some(
            DecodedTransactionView {
                sender,
                nonce,
                payload: PayloadView::Transfer { to, amount },
                public_key,
                signature,
                signed_data: transfer_signed_data(sender, nonce, to, amount),
            },
        ),
{
    lemma_auto_spec_u64_to_from_le_bytes();
    let signed = transfer_signed_data(sender, nonce, to, amount);
    let raw = signed + public_key + signature;
    assert(signed.len() == 81);
    assert(raw.subrange(0, 32) =~= sender);
    assert(raw.subrange(32, 40) =~= spec_u64_to_le_bytes(nonce));
    assert(raw.subrange(41, 73) =~= to);
    assert(raw.subrange(73, 81) =~= spec_u64_to_le_bytes(amount));
    assert(raw.subrange(81, 113) =~= public_key);
    assert(raw.subrange(113, 177) =~= signature);
    assert(raw.subrange(0, 81) =~= signed);
}

/// An encoding error that carries `message`.
fn malformed(message: &str) -> (e: ExecError)
    ensures
        e@ == ExecErrorView::SerializationError,
        e matches ExecError::SerializationError(text) && text@ == message@,
{
    ExecError::SerializationError(message.to_owned())
}

/// A broken rule that carries `message`.
fn rejected(message: &str) -> (e: ExecError)
    ensures
        e@ == ExecErrorView::InvalidBlock,
        e matches ExecError::InvalidBlock(text) && text@ == message@,
{
    ExecError::InvalidBlock(message.to_owned())
}

/// A broken rule that is told with two numbers: `message`, the first
/// number in decimal, `between`, the second number in decimal.
fn rejected_with(message: &str, first: u64, between: &str, second: u64) -> (e: ExecError)
    ensures
        e@ == ExecErrorView::InvalidBlock,
        e matches ExecError::InvalidBlock(text) && text@ == message@ + decimal_digits(first as nat)
            + between@ + decimal_digits(second as nat),
{
    ExecError::InvalidBlock(
        String::from_str(message).concat(decimal(first).as_str()).concat(between).concat(
            decimal(second).as_str(),
        ),
    )
}

/// Decodes a raw transaction. Fails exactly when the bytes are fewer than
/// 177 or the type byte is not a transfer.
pub fn decode_transaction(raw: &[u8]) -> (r: ExecResult<DecodedTransaction>)
    ensures
        r is Ok <==> spec_decode_transaction(raw@) is Some,
        r matches Ok(tx) ==> spec_decode_transaction(raw@) == Some(tx@),
        r matches Err(e) ==> e@ == ExecErrorView::SerializationError,
{
    if raw.len() < MIN_TRANSFER_TX_SIZE {
        return Err(malformed("transaction too short"));
    }
    let sender = array32_from(raw, 0);
    let nonce_bytes = slice_subrange(raw, 32, 40);
    assert(nonce_bytes@.subrange(0, 8) =~= raw@.subrange(32, 40));
    let nonce = match u64_from_le_bytes(nonce_bytes) {
        Some(v) => v,
        None => {
            return Err(malformed("invalid nonce"));
        },
    };
    let payload_type = raw[40];
    if payload_type != PAYLOAD_TRANSFER {
        return Err(
            ExecError::SerializationError(
                String::from_str("unknown payload type: ").concat(
                    decimal(payload_type as u64).as_str(),
                ),
            ),
        );
    }
    let to = array32_from(raw, 41);
    let amount_bytes = slice_subrange(raw, 73, 81);
    assert(amount_bytes@.subrange(0, 8) =~= raw@.subrange(73, 81));
    let amount = match u64_from_le_bytes(amount_bytes) {
        Some(v) => v,
        None => {
            return Err(malformed("invalid amount"));
        },
    };
    let signed_data = slice_to_vec(slice_subrange(raw, 0, SIGNED_DATA_LEN));
    let public_key = array32_from(raw, 81);
    let signature = array64_from(raw, 113);
    Ok(
        DecodedTransaction {
            sender,
            nonce,
            payload: TransactionPayload::Transfer { to, amount },
            public_key,
            signature,
            signed_data,
        },
    )
}

fn push_account_prefix(key: &mut Vec<u8>)
    ensures
        final(key)@ == old(key)@ + account_prefix(),
{
    key.push(97);
    key.push(99);
    key.push(99);
    key.push(116);
    key.push(47);
    assert(key@ =~= old(key)@ + account_prefix());
}

/// The state key of an account's balance.
pub fn balance_key(addr: &Address) -> (key: Vec<u8>)
    ensures
        key@ == balance_key_spec(addr@),
        key@.len() == 45,
{
    let mut key: Vec<u8> = Vec::new();
    push_account_prefix(&mut key);
    key.extend_from_slice(addr.as_slice());
    key.push(47);
    key.push(98);
    key.push(97);
    key.push(108);
    key.push(97);
    key.push(110);
    key.push(99);
    key.push(101);
    assert(key@ =~= balance_key_spec(addr@));
    key
}

/// The state key of an account's nonce.
pub fn nonce_key(addr: &Address) -> (key: Vec<u8>)
    ensures
        key@ == nonce_key_spec(addr@),
        key@.len() == 43,
{
    let mut key: Vec<u8> = Vec::new();
    push_account_prefix(&mut key);
    key.extend_from_slice(addr.as_slice());
    key.push(47);
    key.push(110);
    key.push(111);
    key.push(110);
    key.push(99);
    key.push(101);
    assert(key@ =~= nonce_key_spec(addr@));
    key
}

/// The content of the result of reading a number.
pub open spec fn number_result_view(r: ExecResult<u64>) -> Result<u64, ExecErrorView> {
    match r {
        Ok(v) => Ok(v),
        Err(e) => Err(e@),
    }
}

/// The number stored under `key`: zero when the key is absent, an encoding
/// error when the value has fewer than eight bytes.
pub open spec fn read_u64_at(m: HostModel, key: Seq<u8>) -> Result<u64, ExecErrorView> {
    match m.state_get(key) {
        Err(e) => Err(e),
        Ok(None) => Ok(0),
        Ok(Some(bytes)) => match spec_read_u64(bytes) {
            Some(v) => Ok(v),
            None => Err(ExecErrorView::SerializationError),
        },
    }
}

fn read_number<H: HostInterface>(host: &H, key: &Vec<u8>, what: &str) -> (r: ExecResult<u64>)
    ensures
        number_result_view(r) == read_u64_at(host.model(), key@),
{
    match host.state_get(key.as_slice()) {
        Ok(Some(bytes)) => match u64_from_le_bytes(bytes.as_slice()) {
            Some(v) => Ok(v),
            None => Err(malformed(what)),
        },
        Ok(None) => Ok(0),
        Err(e) => Err(e),
    }
}

/// Reads an account's balance; zero when none is stored.
pub fn read_balance<H: HostInterface>(host: &H, addr: &Address) -> (r: ExecResult<u64>)
    ensures
        number_result_view(r) == read_u64_at(host.model(), balance_key_spec(addr@)),
{
    let key = balance_key(addr);
    read_number(host, &key, "corrupt balance")
}

/// Reads an account's nonce; zero when none is stored.
pub fn read_nonce<H: HostInterface>(host: &H, addr: &Address) -> (r: ExecResult<u64>)
    ensures
        number_result_view(r) == read_u64_at(host.model(), nonce_key_spec(addr@)),
{
    let key = nonce_key(addr);
    read_number(host, &key, "corrupt nonce")
}

/// Writes an account's balance.
pub fn write_balance<H: HostInterface>(host: &mut H, addr: &Address, balance: u64) -> (r:
    ExecResult<()>)
    ensures
        (final(host).model(), unit_result_view(r)) == old(host).model().state_set(
            balance_key_spec(addr@),
            spec_u64_to_le_bytes(balance),
        ),
{
    let key = balance_key(addr);
    let value = u64_to_le_bytes(balance);
    host.state_set(key.as_slice(), value.as_slice())
}

/// Writes an account's nonce.
pub fn write_nonce<H: HostInterface>(host: &mut H, addr: &Address, nonce: u64) -> (r: ExecResult<
    (),
>)
    ensures
        (final(host).model(), unit_result_view(r)) == old(host).model().state_set(
            nonce_key_spec(addr@),
            spec_u64_to_le_bytes(nonce),
        ),
{
    let key = nonce_key(addr);
    let value = u64_to_le_bytes(nonce);
    host.state_set(key.as_slice(), value.as_slice())
}

fn charge<H: HostInterface>(host: &mut H, amount: u64) -> (r: ExecResult<()>)
    ensures
        (final(host).model(), unit_result_view(r)) == old(host).model().charge(amount),
{
    host.gas_meter_mut().consume(amount)
}

/// The event that a transfer emits.
pub open spec fn transfer_event(tx_index: u32, sender: Seq<u8>, to: Seq<u8>, amount: u64) -> EventView {
    EventView {
        tx_index,
        event_type: "transfer"@,
        attributes: seq![
            EventAttributeView { key: "sender"@, value: sender },
            EventAttributeView { key: "recipient"@, value: to },
            EventAttributeView { key: "amount"@, value: spec_u64_to_le_bytes(amount) },
        ],
    }
}

/// A step that failed: the host as it is, and the error.
pub open spec fn failed<T>(m: HostModel, e: ExecErrorView) -> (HostModel, Result<T, ExecErrorView>) {
    (m, Err(e))
}

/// The two balance writes and the event of a transfer, once both balances
/// have been read: gas is charged before each write.
pub open spec fn spec_transfer_writes(
    m: HostModel,
    tx_index: u32,
    sender: Seq<u8>,
    to: Seq<u8>,
    amount: u64,
    sender_balance: u64,
    to_balance: u64,
) -> (HostModel, Result<Seq<EventView>, ExecErrorView>) {
    let sender_key = balance_key_spec(sender);
    let to_key = balance_key_spec(to);
    let (m1, c1) = m.charge(cost_with_bytes(G_STATE_SET, sender_key.len() + 8));
    if c1 is Err {
        failed(m1, c1->Err_0)
    } else {
        let (m2, w2) = m1.state_set(
            sender_key,
            spec_u64_to_le_bytes((sender_balance - amount) as u64),
        );
        if w2 is Err {
            failed(m2, w2->Err_0)
        } else {
            let (m3, c3) = m2.charge(cost_with_bytes(G_STATE_SET, to_key.len() + 8));
            if c3 is Err {
                failed(m3, c3->Err_0)
            } else {
                let (m4, w4) = m3.state_set(
                    to_key,
                    spec_u64_to_le_bytes((to_balance + amount) as u64),
                );
                if w4 is Err {
                    failed(m4, w4->Err_0)
                } else {
                    (m4, Ok(seq![transfer_event(tx_index, sender, to, amount)]))
                }
            }
        }
    }
}

/// A transfer: read the sender's balance and refuse when it is below the
/// amount; read the recipient's balance and refuse when the sum would
/// overflow; write the sender's balance, then the recipient's. Gas is
/// charged before each read and write, and the first failure ends the
/// transfer with the writes made so far left in place.
#[verifier::opaque]
pub open spec fn spec_execute_transfer(
    m: HostModel,
    tx_index: u32,
    sender: Seq<u8>,
    to: Seq<u8>,
    amount: u64,
) -> (HostModel, Result<Seq<EventView>, ExecErrorView>) {
    let sender_key = balance_key_spec(sender);
    let to_key = balance_key_spec(to);
    let (m1, c1) = m.charge(cost_with_bytes(G_STATE_GET, sender_key.len()));
    if c1 is Err {
        failed(m1, c1->Err_0)
    } else {
        match read_u64_at(m1, sender_key) {
            Err(e) => failed(m1, e),
            Ok(sender_balance) => if sender_balance < amount {
                failed(m1, ExecErrorView::InvalidBlock)
            } else {
                let (m2, c2) = m1.charge(cost_with_bytes(G_STATE_GET, to_key.len()));
                if c2 is Err {
                    failed(m2, c2->Err_0)
                } else {
                    match read_u64_at(m2, to_key) {
                        Err(e) => failed(m2, e),
                        Ok(to_balance) => if to_balance + amount > u64::MAX {
                            failed(m2, ExecErrorView::InvalidBlock)
                        } else {
                            spec_transfer_writes(
                                m2,
                                tx_index,
                                sender,
                                to,
                                amount,
                                sender_balance,
                                to_balance,
                            )
                        },
                    }
                }
            },
        }
    }
}

/// The nonce after `current`; it wraps to zero after `u64::MAX`.
pub open spec fn next_nonce(current: u64) -> u64 {
    if current == u64::MAX {
        0
    } else {
        (current + 1) as u64
    }
}

/// The payload and the nonce update of a transaction whose signature and
/// nonce have been accepted.
pub open spec fn spec_apply_payload(
    m: HostModel,
    tx_index: u32,
    tx: DecodedTransactionView,
    current_nonce: u64,
) -> (HostModel, Result<Seq<EventView>, ExecErrorView>) {
    let key = nonce_key_spec(tx.sender);
    let (m1, r1) = match tx.payload {
        PayloadView::Transfer { to, amount } => spec_execute_transfer(
            m,
            tx_index,
            tx.sender,
            to,
            amount,
        ),
    };
    match r1 {
        Err(e) => failed(m1, e),
        Ok(events) => {
            let (m2, c2) = m1.charge(cost_with_bytes(G_STATE_SET, key.len() + 8));
            if c2 is Err {
                failed(m2, c2->Err_0)
            } else {
                let (m3, w3) = m2.state_set(key, spec_u64_to_le_bytes(next_nonce(current_nonce)));
                if w3 is Err {
                    failed(m3, w3->Err_0)
                } else {
                    (m3, Ok(events))
                }
            }
        },
    }
}

/// The steps of a transaction, each charged before it is done: verify the
/// signature (code 8 when it does not verify), read the sender's nonce and
/// compare it with the transaction's, apply the payload, write the next
/// nonce.
pub open spec fn spec_process_inner(m: HostModel, tx_index: u32, tx: DecodedTransactionView) -> (
    HostModel,
    Result<Seq<EventView>, ExecErrorView>,
) {
    let key = nonce_key_spec(tx.sender);
    let (m1, c1) = m.charge(G_VERIFY_ED25519);
    if c1 is Err {
        failed(m1, c1->Err_0)
    } else if !signature_accepted(tx.signed_data, tx.signature, tx.public_key) {
        failed(m1, ExecErrorView::HostError(ErrorCode::SigInvalid))
    } else {
        let (m2, c2) = m1.charge(cost_with_bytes(G_STATE_GET, key.len()));
        if c2 is Err {
            failed(m2, c2->Err_0)
        } else {
            match read_u64_at(m2, key) {
                Err(e) => failed(m2, e),
                Ok(current_nonce) => if tx.nonce != current_nonce {
                    failed(m2, ExecErrorView::InvalidBlock)
                } else {
                    spec_apply_payload(m2, tx_index, tx, current_nonce)
                },
            }
        }
    }
}

/// The host after emitting `events` in order; an event that the host
/// refuses is dropped.
pub open spec fn emit_all(m: HostModel, events: Seq<EventView>) -> HostModel
    decreases events.len(),
{
    if events.len() == 0 {
        m
    } else {
        emit_all(m.emit_event(events[0]).0, events.skip(1))
    }
}

/// The gas consumed between two states of one host.
pub open spec fn gas_between(before: HostModel, after: HostModel) -> u64 {
    (after.gas.consumed - before.gas.consumed) as u64
}

/// The outcome of one transaction: the host afterwards and the receipt. A
/// transaction that succeeds emits its events and reports code 0; one that
/// fails emits nothing and reports the code of its error. Either way the
/// receipt carries the gas consumed.
#[verifier::opaque]
pub open spec fn spec_process_transaction(
    m: HostModel,
    tx_index: u32,
    tx: DecodedTransactionView,
) -> (HostModel, ReceiptView) {
    let (m1, r) = spec_process_inner(m, tx_index, tx);
    match r {
        Ok(events) => {
            let m2 = emit_all(m1, events);
            (
                m2,
                ReceiptView {
                    tx_index,
                    success: true,
                    gas_used: gas_between(m, m2),
                    result_code: 0,
                    return_data: Seq::empty(),
                },
            )
        },
        Err(e) => (
            m1,
            ReceiptView {
                tx_index,
                success: false,
                gas_used: gas_between(m, m1),
                result_code: e.result_code(),
                return_data: Seq::empty(),
            },
        ),
    }
}

/// What a step may change of a host: the overlay, the gas consumed (which
/// never decreases), and the events. Everything else stays.
pub open spec fn host_advanced(before: HostModel, after: HostModel) -> bool {
    &&& after.committed == before.committed
    &&& after.context == before.context
    &&& after.logs == before.logs
    &&& after.max_events == before.max_events
    &&& after.max_write_bytes == before.max_write_bytes
    &&& after.gas.limit == before.gas.limit
    &&& after.gas.consumed >= before.gas.consumed
}

pub proof fn lemma_transfer_advances(
    m: HostModel,
    tx_index: u32,
    sender: Seq<u8>,
    to: Seq<u8>,
    amount: u64,
)
    ensures
        host_advanced(m, spec_execute_transfer(m, tx_index, sender, to, amount).0),
        spec_execute_transfer(m, tx_index, sender, to, amount).0.events == m.events,
{
    reveal(spec_execute_transfer);
}

pub proof fn lemma_process_inner_advances(m: HostModel, tx_index: u32, tx: DecodedTransactionView)
    ensures
        host_advanced(m, spec_process_inner(m, tx_index, tx).0),
        spec_process_inner(m, tx_index, tx).0.events == m.events,
{
    match tx.payload {
        PayloadView::Transfer { to, amount } => {
            let m1 = m.charge(G_VERIFY_ED25519).0;
            let m2 = m1.charge(cost_with_bytes(G_STATE_GET, nonce_key_spec(tx.sender).len())).0;
            lemma_transfer_advances(m2, tx_index, tx.sender, to, amount);
        },
    }
}

pub proof fn lemma_emit_all_advances(m: HostModel, events: Seq<EventView>)
    ensures
        host_advanced(m, emit_all(m, events)),
        emit_all(m, events).gas == m.gas,
        emit_all(m, events).overlay == m.overlay,
    decreases events.len(),
{
    if events.len() > 0 {
        lemma_emit_all_advances(m.emit_event(events[0]).0, events.skip(1));
    }
}

/// Processing a transaction changes only the overlay, the gas consumed and
/// the events; gas is never given back.
pub proof fn lemma_process_transaction_advances(
    m: HostModel,
    tx_index: u32,
    tx: DecodedTransactionView,
)
    ensures
        host_advanced(m, spec_process_transaction(m, tx_index, tx).0),
        spec_process_transaction(m, tx_index, tx).1.gas_used == spec_process_transaction(
            m,
            tx_index,
            tx,
        ).0.gas.consumed - m.gas.consumed,
        spec_process_transaction(m, tx_index, tx).1.tx_index == tx_index,
{
    reveal(spec_process_transaction);
    lemma_process_inner_advances(m, tx_index, tx);
    let (m1, r) = spec_process_inner(m, tx_index, tx);
    if r is Ok {
        lemma_emit_all_advances(m1, r->Ok_0);
    }
}

/// Runs a transfer against the host.
pub fn execute_transfer<H: HostInterface>(
    tx_index: u32,
    sender: &Address,
    to: &Address,
    amount: u64,
    host: &mut H,
) -> (r: ExecResult<Vec<Event>>)
    ensures
        (final(host).model(), events_result_view(r)) == spec_execute_transfer(
            old(host).model(),
            tx_index,
            sender@,
            to@,
            amount,
        ),
{
    proof {
        reveal(spec_execute_transfer);
    }
    let sender_bal_key = balance_key(sender);
    match charge(host, gas_cost_state_get(sender_bal_key.len())) {
        Ok(_) => {},
        Err(e) => {
            return Err(e);
        },
    }
    let sender_balance = match read_balance(host, sender) {
        Ok(v) => v,
        Err(e) => {
            return Err(e);
        },
    };
    if sender_balance < amount {
        return Err(rejected_with("insufficient balance: have ", sender_balance, ", need ", amount));
    }
    let to_bal_key = balance_key(to);
    match charge(host, gas_cost_state_get(to_bal_key.len())) {
        Ok(_) => {},
        Err(e) => {
            return Err(e);
        },
    }
    let to_balance = match read_balance(host, to) {
        Ok(v) => v,
        Err(e) => {
            return Err(e);
        },
    };
    let new_to_balance = match to_balance.checked_add(amount) {
        Some(v) => v,
        None => {
            return Err(rejected("recipient balance overflow"));
        },
    };
    match charge(host, gas_cost_state_set(sender_bal_key.len(), 8)) {
        Ok(_) => {},
        Err(e) => {
            return Err(e);
        },
    }
    match write_balance(host, sender, sender_balance - amount) {
        Ok(_) => {},
        Err(e) => {
            return Err(e);
        },
    }
    match charge(host, gas_cost_state_set(to_bal_key.len(), 8)) {
        Ok(_) => {},
        Err(e) => {
            return Err(e);
        },
    }
    match write_balance(host, to, new_to_balance) {
        Ok(_) => {},
        Err(e) => {
            return Err(e);
        },
    }
    let mut attributes: Vec<EventAttribute> = Vec::new();
    attributes.push(EventAttribute { key: "sender".to_owned(), value: slice_to_vec(sender.as_slice()) });
    attributes.push(EventAttribute { key: "recipient".to_owned(), value: slice_to_vec(to.as_slice()) });
    attributes.push(
        EventAttribute {
            key: "amount".to_owned(),
            value: slice_to_vec(u64_to_le_bytes(amount).as_slice()),
        },
    );
    let event = Event { tx_index, event_type: "transfer".to_owned(), attributes };
    assert(event@.attributes =~= transfer_event(tx_index, sender@, to@, amount).attributes);
    let mut events: Vec<Event> = Vec::new();
    events.push(event);
    assert(events.deep_view() =~= seq![transfer_event(tx_index, sender@, to@, amount)]);
    Ok(events)
}

/// The content of the result of a step that yields events.
pub open spec fn events_result_view(r: ExecResult<Vec<Event>>) -> Result<
    Seq<EventView>,
    ExecErrorView,
> {
    match r {
        Ok(events) => Ok(events.deep_view()),
        Err(e) => Err(e@),
    }
}

/// Runs the steps of a transaction that can fail.
pub fn process_transaction_inner<H: HostInterface>(
    tx_index: u32,
    tx: &DecodedTransaction,
    host: &mut H,
) -> (r: ExecResult<Vec<Event>>)
    ensures
        (final(host).model(), events_result_view(r)) == spec_process_inner(
            old(host).model(),
            tx_index,
            tx@,
        ),
{
    match charge(host, G_VERIFY_ED25519) {
        Ok(_) => {},
        Err(e) => {
            return Err(e);
        },
    }
    let sig_valid = match host.verify_ed25519(
        tx.signed_data.as_slice(),
        &tx.signature,
        &tx.public_key,
    ) {
        Ok(v) => v,
        Err(e) => {
            return Err(e);
        },
    };
    if !sig_valid {
        return Err(ExecError::HostError(ErrorCode::SigInvalid));
    }
    let nonce_key_bytes = nonce_key(&tx.sender);
    match charge(host, gas_cost_state_get(nonce_key_bytes.len())) {
        Ok(_) => {},
        Err(e) => {
            return Err(e);
        },
    }
    let current_nonce = match read_nonce(host, &tx.sender) {
        Ok(v) => v,
        Err(e) => {
            return Err(e);
        },
    };
    if tx.nonce != current_nonce {
        return Err(rejected_with("nonce mismatch: expected ", current_nonce, ", got ", tx.nonce));
    }
    let events = match &tx.payload {
        TransactionPayload::Transfer { to, amount } => {
            match execute_transfer(tx_index, &tx.sender, to, *amount, host) {
                Ok(v) => v,
                Err(e) => {
                    return Err(e);
                },
            }
        },
    };
    match charge(host, gas_cost_state_set(nonce_key_bytes.len(), 8)) {
        Ok(_) => {},
        Err(e) => {
            return Err(e);
        },
    }
    let next = match current_nonce.checked_add(1) {
        Some(v) => v,
        None => 0,
    };
    match write_nonce(host, &tx.sender, next) {
        Ok(_) => {},
        Err(e) => {
            return Err(e);
        },
    }
    Ok(events)
}

/// Processes one decoded transaction and reports it in a receipt. A
/// failure of the transaction is reported in the receipt and leaves the
/// block running.
pub fn process_transaction<H: HostInterface>(
    tx_index: u32,
    tx: &DecodedTransaction,
    host: &mut H,
) -> (receipt: Receipt)
    ensures
        (final(host).model(), receipt@) == spec_process_transaction(
            old(host).model(),
            tx_index,
            tx@,
        ),
{
    let gas_before = host.gas_meter().consumed();
    let ghost start = host.model();
    proof {
        reveal(spec_process_transaction);
        lemma_process_transaction_advances(start, tx_index, tx@);
        lemma_process_inner_advances(start, tx_index, tx@);
    }
    match process_transaction_inner(tx_index, tx, host) {
        Ok(events) => {
            let ghost inner = host.model();
            let ghost views = events.deep_view();
            assert(views.skip(0) =~= views);
            let mut i: usize = 0;
            while i < events.len()
                invariant
                    i <= events@.len(),
                    views == events.deep_view(),
                    emit_all(host.model(), views.skip(i as int)) == emit_all(inner, views),
                decreases events@.len() - i,
            {
                assert(views.skip(i as int).skip(1) =~= views.skip(i + 1));
                let _ = host.emit_event(events[i].clone());
                i += 1;
            }
            Receipt {
                tx_index,
                success: true,
                gas_used: host.gas_meter().consumed() - gas_before,
                result_code: 0,
                return_data: Vec::new(),
            }
        },
        Err(err) => {
            Receipt {
                tx_index,
                success: false,
                gas_used: host.gas_meter().consumed() - gas_before,
                result_code: err.result_code(),
                return_data: Vec::new(),
            }
        },
    }
}

/// Builds and signs a transfer, as a client would.
pub fn encode_transfer_tx(
    sender: &Address,
    nonce: u64,
    to: &Address,
    amount: u64,
    signing_key: &ed25519_dalek::SigningKey,
) -> (raw: Vec<u8>)
    ensures
        raw@.len() == MIN_TRANSFER_TX_SIZE,
        raw@.subrange(0, 81) == transfer_signed_data(sender@, nonce, to@, amount),
        spec_decode_transaction(raw@) matches Some(tx) && tx.sender == sender@ && tx.nonce == nonce
            && tx.payload == (PayloadView::Transfer { to: to@, amount }),
{
    let mut signed_data: Vec<u8> = Vec::new();
    signed_data.extend_from_slice(sender.as_slice());
    signed_data.extend_from_slice(u64_to_le_bytes(nonce).as_slice());
    signed_data.push(PAYLOAD_TRANSFER);
    signed_data.extend_from_slice(to.as_slice());
    signed_data.extend_from_slice(u64_to_le_bytes(amount).as_slice());
    proof {
        lemma_auto_spec_u64_to_from_le_bytes();
        assert(signed_data@ =~= transfer_signed_data(sender@, nonce, to@, amount));
    }
    let signature = sign_ed25519(signed_data.as_slice(), signing_key);
    let public_key = public_key_bytes(signing_key);
    let mut raw = signed_data;
    raw.extend_from_slice(public_key.as_slice());
    raw.extend_from_slice(signature.as_slice());
    proof {
        assert(raw@ =~= transfer_signed_data(sender@, nonce, to@, amount) + public_key@
            + signature@);
        lemma_decode_encoded_transfer(sender@, nonce, to@, amount, public_key@, signature@);
        assert(raw@.subrange(0, 81) =~= transfer_signed_data(sender@, nonce, to@, amount));
    }
    raw
}

} // verus!
