//! Transfers from the wallet of a validator.
use crate::cells::{boc_decode, build_cell, build_ext_message, decode_base64, load_u64_at};
use crate::elect::config::{apply_price_factor, ONE_CC};
use crate::ids::HashBytes;
use crate::queue::addr::StdAddr;
use vstd::prelude::*;

verus! {

/// What is kept back of a balance.
pub const DEFAULT_RESERVE: u128 = ONE_CC / 2;

/// How long a message is valid by default, in seconds.
pub const DEFAULT_TIMEOUT: u64 = 40;

/// How long to wait before a balance is looked at again, in seconds.
pub const BALANCE_POLL_INTERVAL: u64 = 5;

/// How much to send.
#[derive(Clone, Copy, Debug, PartialEq, Eq, Structural)]
pub enum Amount {
    Exact(u128),
    AllBut(u128),
    All,
}

/// The flags with which a wallet sends.
#[derive(Clone, Copy, Debug, PartialEq, Eq, Structural)]
pub struct SendFlags {
    /// The amount is what arrives at most.
    pub simple_send: u8,
    /// Fees are paid beside the amount.
    pub separate_send: u8,
    /// The whole balance is sent.
    pub send_all: u8,
}

/// A message that the wallet is to send. The payload is a BOC.
#[derive(Debug)]
pub struct InternalMessage {
    pub to: StdAddr,
    pub amount: Amount,
    pub bounce: bool,
    pub payload: Vec<u8>,
}

/// How a message is sent.
#[derive(Clone, Copy, Debug, PartialEq, Eq, Structural)]
pub struct TransferParams {
    pub reserve: u128,
    /// How long the message is valid, in seconds.
    pub timeout: u64,
    pub wait_for_balance: bool,
    pub wait_for_delivery: bool,
}

/// What a user says about a transfer.
#[derive(Clone, Copy, Debug, PartialEq, Eq, Structural)]
pub struct TransferArgs {
    /// Wait for the balance to be enough.
    pub wait_balance: bool,
    /// Skip waiting for the delivery.
    pub ignore_delivery: bool,
    /// How long the message is valid, in seconds.
    pub ttl: u64,
}

impl TransferArgs {
    /// The parameters of a transfer.
    pub fn into_params(self, price_factor: u64) -> (r: TransferParams)
        ensures
            r == (TransferParams {
                reserve: if self.wait_balance {
                    crate::elect::config::with_price_factor(DEFAULT_RESERVE, price_factor)
                } else {
                    0
                },
                timeout: self.ttl,
                wait_for_balance: self.wait_balance,
                wait_for_delivery: !self.ignore_delivery,
            }),
    {
        let reserve: u128 = if self.wait_balance {
            apply_price_factor(DEFAULT_RESERVE, price_factor)
        } else {
            0
        };
        TransferParams {
            reserve,
            timeout: self.ttl,
            wait_for_balance: self.wait_balance,
            wait_for_delivery: !self.ignore_delivery,
        }
    }
}

impl TransferParams {
    /// Parameters of a transfer that waits for everything.
    pub fn reliable(price_factor: u64) -> (r: Self)
        ensures
            r == (TransferParams {
                reserve: crate::elect::config::with_price_factor(DEFAULT_RESERVE, price_factor),
                timeout: DEFAULT_TIMEOUT,
                wait_for_balance: true,
                wait_for_delivery: true,
            }),
    {
        TransferParams {
            reserve: apply_price_factor(DEFAULT_RESERVE, price_factor),
            timeout: DEFAULT_TIMEOUT,
            wait_for_balance: true,
            wait_for_delivery: true,
        }
    }
}

/// The amount that a withdrawal asks for: everything if the flag is set, whatever
/// else is said; otherwise all but the amount, or the amount.
pub fn withdraw_amount(amount: Option<u128>, all: bool, all_but: bool) -> (r: Amount)
    ensures
        r == (match amount {
            None => Amount::All,
            Some(_) if all => Amount::All,
            Some(value) if all_but => Amount::AllBut(value),
            Some(value) => Amount::Exact(value),
        }),
{
    match amount {
        None => Amount::All,
        Some(value) => if all {
            Amount::All
        } else if all_but {
            Amount::AllBut(value)
        } else {
            Amount::Exact(value)
        },
    }
}

/// The payload of a withdrawal: an empty cell, or what a text in base64 stands for.
pub open spec fn payload_of(text: Option<Seq<char>>) -> Option<Seq<u8>> {
    match text {
        None => crate::cells::cell_boc(Seq::empty(), None, None),
        Some(text) => crate::cells::base64_boc(text),
    }
}

/// Reads the payload of a withdrawal.
pub fn withdraw_payload(text: &Option<String>) -> (r: Result<Vec<u8>, TransferError>)
    ensures
        match (
            r,
            payload_of(
                match *text {
                    Some(text) => Some(text@),
                    None => None,
                },
            ),
        ) {
            (Ok(payload), Some(named)) => payload@ == named,
            (Err(e), None) => e == TransferError::InvalidPayload,
            _ => false,
        },
{
    let payload = match text {
        None => {
            let bits: Vec<u8> = Vec::new();
            assert(bits@ =~= Seq::<u8>::empty());
            build_cell(bits.as_slice(), &None, &None)
        },
        Some(text) => decode_base64(text.as_str()),
    };
    match payload {
        Some(payload) => Ok(payload),
        None => Err(TransferError::InvalidPayload),
    }
}

/// The state of an account.
#[derive(Clone, Copy, Debug, PartialEq, Eq, Structural)]
pub enum AccountStatus {
    Active,
    Uninit,
    Frozen,
}

/// What is known of an account.
#[derive(Clone, Copy, Debug, PartialEq, Eq, Structural)]
pub struct AccountInfo {
    pub balance: u128,
    pub status: AccountStatus,
}

/// Why a transfer fails.
#[derive(Clone, Copy, Debug, PartialEq, Eq, Structural)]
pub enum TransferError {
    NoAccount,
    InsufficientBalance { balance: u128, target_balance: u128 },
    Frozen,
    /// The payload is no bag of cells.
    InvalidPayload,
    /// The message cannot be built.
    InvalidMessage,
    NotDelivered,
}

/// What a transfer does next.
#[derive(Clone, Copy, Debug, PartialEq, Eq, Structural)]
pub enum TransferStep {
    /// It waits for the balance.
    WaitForBalance,
    /// It sends a value with flags, and deploys the wallet if it has to.
    Send { value: u128, flags: u8, deploy: bool },
}

/// A sum, or the greatest number if it is greater.
pub open spec fn plus(a: u128, b: u128) -> u128 {
    if a + b > u128::MAX {
        u128::MAX
    } else {
        (a + b) as u128
    }
}

/// The balance that an amount needs, with what is kept back.
pub open spec fn target_balance(amount: Amount, reserve: u128) -> u128 {
    match amount {
        Amount::Exact(value) => plus(value, reserve),
        Amount::AllBut(value) => plus(reserve, value),
        Amount::All => reserve,
    }
}

/// The value that is sent of a balance that suffices.
pub open spec fn value_to_send(amount: Amount, balance: u128, reserve: u128) -> u128 {
    match amount {
        Amount::Exact(value) => value,
        Amount::AllBut(value) => (balance - plus(reserve, value)) as u128,
        Amount::All => 0,
    }
}

/// The flags of an amount.
pub open spec fn flags_of(amount: Amount, flags: SendFlags) -> u8 {
    match amount {
        Amount::Exact(_) => flags.simple_send,
        Amount::AllBut(_) => flags.separate_send,
        Amount::All => flags.send_all,
    }
}

/// Decides about a transfer, given what is known of the account of the wallet.
pub fn on_account(
    amount: Amount,
    flags: &SendFlags,
    params: &TransferParams,
    account: Option<AccountInfo>,
) -> (r: Result<TransferStep, TransferError>)
    ensures
        r == (match account {
            None => Err::<TransferStep, TransferError>(TransferError::NoAccount),
            Some(account) => {
                let target = target_balance(amount, params.reserve);
                if account.balance < target {
                    if params.wait_for_balance {
                        Ok(TransferStep::WaitForBalance)
                    } else {
                        Err(
                            TransferError::InsufficientBalance {
                                balance: account.balance,
                                target_balance: target,
                            },
                        )
                    }
                } else if account.status == AccountStatus::Frozen {
                    Err(TransferError::Frozen)
                } else {
                    Ok(
                        TransferStep::Send {
                            value: value_to_send(amount, account.balance, params.reserve),
                            flags: flags_of(amount, *flags),
                            deploy: account.status == AccountStatus::Uninit,
                        },
                    )
                }
            },
        }),
{
    let account = match account {
        Some(account) => account,
        None => return Err(TransferError::NoAccount),
    };
    let (target, flag): (u128, u8) = match amount {
        Amount::Exact(value) => (value.saturating_add(params.reserve), flags.simple_send),
        Amount::AllBut(value) => (params.reserve.saturating_add(value), flags.separate_send),
        Amount::All => (params.reserve, flags.send_all),
    };
    if account.balance < target {
        if params.wait_for_balance {
            return Ok(TransferStep::WaitForBalance);
        }
        return Err(
            TransferError::InsufficientBalance { balance: account.balance, target_balance: target },
        );
    }
    let value: u128 = match amount {
        Amount::Exact(value) => value,
        Amount::AllBut(_) => account.balance - target,
        Amount::All => 0,
    };
    match account.status {
        AccountStatus::Active => Ok(TransferStep::Send { value, flags: flag, deploy: false }),
        AccountStatus::Uninit => Ok(TransferStep::Send { value, flags: flag, deploy: true }),
        AccountStatus::Frozen => Err(TransferError::Frozen),
    }
}

/// A value that is sent of a balance that suffices leaves the reserve in the
/// wallet, and all but an amount leaves that amount as well.
pub proof fn law_reserve_is_kept(amount: Amount, balance: u128, reserve: u128)
    requires
        balance >= target_balance(amount, reserve),
        amount matches Amount::Exact(value) ==> value + reserve <= u128::MAX,
        amount matches Amount::AllBut(value) ==> value + reserve <= u128::MAX,
    ensures
        value_to_send(amount, balance, reserve) + reserve <= balance,
        amount matches Amount::AllBut(kept) ==> value_to_send(amount, balance, reserve) + reserve
            + kept == balance,
{
}

/// A message that was sent.
#[derive(Clone, Copy, Debug)]
pub struct SentMessage {
    pub timestamp: u64,
    pub hash: HashBytes,
    pub expire_at: u32,
}

/// How long a message is valid: between one second and a minute.
pub open spec fn ttl_of(timeout: u64) -> u64 {
    if timeout < 1 {
        1
    } else if timeout > 60 {
        60
    } else {
        timeout
    }
}

/// When a message expires that is sent now. Seconds are counted in 32 bits.
pub fn compute_expire_at(now_ms: u64, timeout: u64) -> (r: u32)
    requires
        now_ms / 1000 % 0x1_0000_0000 + ttl_of(timeout) <= u32::MAX,
    ensures
        r == now_ms / 1000 % 0x1_0000_0000 + ttl_of(timeout),
{
    let ttl: u64 = if timeout < 1 {
        1
    } else if timeout > 60 {
        60
    } else {
        timeout
    };
    (now_ms / 1000 % 0x1_0000_0000) as u32 + ttl as u32
}

/// The message to a wallet, and what is kept of it, given the root of its cells.
pub open spec fn message_sent(
    message: Option<Seq<u8>>,
    timestamp: u64,
    expire_at: u32,
) -> Option<(Seq<u8>, SentMessage)> {
    match message {
        None => None,
        Some(boc) => match crate::cells::boc_root(boc) {
            None => None,
            Some(root) => Some(
                (boc, SentMessage { timestamp, hash: root.repr_hash, expire_at }),
            ),
        },
    }
}

/// Makes the message that carries a body to a wallet, with the initial state of the
/// wallet if it has to be deployed. What is kept of it is its time, its hash and when
/// it expires.
pub fn make_message(
    address: &StdAddr,
    init: &Option<Vec<u8>>,
    body: &Vec<u8>,
    timestamp: u64,
    expire_at: u32,
) -> (r: Result<(Vec<u8>, SentMessage), TransferError>)
    ensures
        match (
            r,
            message_sent(
                crate::cells::ext_message_boc(
                    address.workchain,
                    address.address@,
                    crate::cells::opt_view(*init),
                    body@,
                ),
                timestamp,
                expire_at,
            ),
        ) {
            (Ok((message, sent)), Some(named)) => message@ == named.0 && sent == named.1,
            (Err(e), None) => e == TransferError::InvalidMessage,
            _ => false,
        },
{
    let message = match build_ext_message(
        address.workchain,
        &address.address,
        init,
        body.as_slice(),
    ) {
        Some(message) => message,
        None => return Err(TransferError::InvalidMessage),
    };
    match boc_decode(message.as_slice()) {
        Some(root) => Ok((message, SentMessage { timestamp, hash: root.repr_hash, expire_at })),
        None => Err(TransferError::InvalidMessage),
    }
}

/// Where the data of a wallet hold the time of the last message: behind the public
/// key.
pub const TIMESTAMP_OFFSET: u16 = 256;

/// Decides whether a message was delivered, given the data of the wallet, if it is
/// deployed.
pub fn check_wallet_data(message: &SentMessage, data: &Option<Vec<u8>>, gen_utime: u32) -> (r: Result<
    bool,
    TransferError,
>)
    ensures
        r == delivered(
            *message,
            match crate::cells::opt_view(*data) {
                Some(bytes) => crate::cells::u64_at(bytes, TIMESTAMP_OFFSET),
                None => None,
            },
            gen_utime,
        ),
{
    let stored: Option<u64> = match data {
        Some(bytes) => load_u64_at(bytes.as_slice(), TIMESTAMP_OFFSET),
        None => None,
    };
    check_delivered(message, stored, gen_utime)
}

/// Whether a message was delivered, where that is known.
pub open spec fn delivered(message: SentMessage, stored: Option<u64>, gen_utime: u32) -> Result<
    bool,
    TransferError,
> {
    if stored matches Some(timestamp) && timestamp >= message.timestamp {
        Ok(true)
    } else if gen_utime > message.expire_at {
        Err(TransferError::NotDelivered)
    } else {
        Ok(false)
    }
}

/// Decides whether a message was delivered: the wallet has stored its time or a
/// later one. It was not if it has expired without that; otherwise it is not known
/// yet. `stored` is the time in the data of the wallet, where it can be read.
pub fn check_delivered(message: &SentMessage, stored: Option<u64>, gen_utime: u32) -> (r: Result<
    bool,
    TransferError,
>)
    ensures
        r == delivered(*message, stored, gen_utime),
{
    if let Some(timestamp) = stored {
        if timestamp >= message.timestamp {
            return Ok(true);
        }
    }
    if gen_utime > message.expire_at {
        return Err(TransferError::NotDelivered);
    }
    Ok(false)
}

/// How a client reaches the node.
#[derive(Clone, Copy, Debug, PartialEq, Eq, Structural)]
pub enum ClientKind {
    Jrpc,
    Control,
}

/// The control socket is used, unless RPC is wanted or there is no socket for
/// it.
pub fn choose_client(has_rpc: bool, force_rpc: bool, socket_exists: bool) -> (r: ClientKind)
    ensures
        r == (if has_rpc && (force_rpc || !socket_exists) {
            ClientKind::Jrpc
        } else {
            ClientKind::Control
        }),
{
    if has_rpc && (force_rpc || !socket_exists) {
        ClientKind::Jrpc
    } else {
        ClientKind::Control
    }
}

/// A transfer needs its amount and the reserve, and one of the whole balance the
/// reserve alone. No balance is enough for more than there can be but the greatest.
pub proof fn law_balance_covers_amount_and_reserve(value: u128, reserve: u128)
    ensures
        value + reserve <= u128::MAX ==> target_balance(Amount::Exact(value), reserve) == value
            + reserve && target_balance(Amount::AllBut(value), reserve) == value + reserve,
        value + reserve > u128::MAX ==> target_balance(Amount::Exact(value), reserve) == u128::MAX
            && target_balance(Amount::AllBut(value), reserve) == u128::MAX,
        target_balance(Amount::All, reserve) == reserve,
{
}

/// An exact amount is sent as it is, whatever the balance. The value of a message that
/// carries the whole balance is zero.
pub proof fn law_exact_amount_is_sent(value: u128, balance: u128, reserve: u128)
    ensures
        value_to_send(Amount::Exact(value), balance, reserve) == value,
        value_to_send(Amount::All, balance, reserve) == 0,
        value + reserve <= balance ==> value_to_send(Amount::AllBut(value), balance, reserve)
            == balance - reserve - value,
{
}

/// Each kind of amount has the flags that are named after it.
pub proof fn law_flags_tell_the_amount(value: u128, flags: SendFlags)
    ensures
        flags_of(Amount::Exact(value), flags) == flags.simple_send,
        flags_of(Amount::AllBut(value), flags) == flags.separate_send,
        flags_of(Amount::All, flags) == flags.send_all,
{
}

/// A message is valid as long as it is waited for, but at least a second and at most
/// a minute.
pub proof fn law_message_is_valid_for_a_minute(timeout: u64)
    ensures
        1 <= ttl_of(timeout) <= 60,
        1 <= timeout <= 60 ==> ttl_of(timeout) == timeout,
        ttl_of(timeout) > timeout ==> timeout == 0,
        ttl_of(timeout) < timeout ==> ttl_of(timeout) == 60,
{
}

/// A message counts as delivered as soon as its time or a later one is stored, even
/// if it has expired. It counts as lost only after it has expired without that, and
/// what is lost stays lost while nothing is stored.
pub proof fn law_delivery_is_seen_in_the_stored_time(
    message: SentMessage,
    stored: Option<u64>,
    gen_utime: u32,
)
    ensures
        delivered(message, stored, gen_utime) == Ok::<bool, TransferError>(true) <==> stored is Some
            && message.timestamp <= stored->0,
        delivered(message, stored, gen_utime) is Err <==> message.expire_at < gen_utime && (stored
            is None || stored->0 < message.timestamp),
        delivered(message, stored, gen_utime) is Err ==> delivered(message, stored, gen_utime)
            == Err::<bool, TransferError>(TransferError::NotDelivered),
{
}

/// What is kept of a message is its own: the hash of its root, its time and when it
/// expires. There is nothing to keep exactly where there are no cells.
pub proof fn law_sent_message_is_kept(message: Option<Seq<u8>>, timestamp: u64, expire_at: u32)
    ensures
        message_sent(message, timestamp, expire_at) is Some <==> message is Some
            && crate::cells::boc_root(message->0) is Some,
        message_sent(message, timestamp, expire_at) is Some ==> {
            let (boc, sent) = message_sent(message, timestamp, expire_at)->0;
            &&& boc == message->0
            &&& sent.hash == crate::cells::boc_root(boc)->0.repr_hash
            &&& sent.timestamp == timestamp
            &&& sent.expire_at == expire_at
        },
{
}

/// Half a coin is kept back, a message is waited for forty seconds, and the time of the
/// last message stands behind the 256 bits of the key.
pub proof fn law_wallet_defaults()
    ensures
        2 * DEFAULT_RESERVE == 1_000_000_000,
        DEFAULT_TIMEOUT == 40,
        BALANCE_POLL_INTERVAL == 5,
        TIMESTAMP_OFFSET == 256,
{
}

} // verus!
