//! Changes of the blockchain config, signed by its master key.
use crate::bytes::write_be;
use crate::cells::{
    boc_decode, build_cell, build_ext_message, decode_base64, load_config_data,
    load_signature_with_id, parse_param,
};
use crate::ids::HashBytes;
use crate::models::parts::{KeyPair, Signature};
use crate::outside::{ed25519_key_valid, ed25519_sign, extend_signature_with_id};
use crate::queue::addr::StdAddr;
use crate::tl::{write_hash, write_raw};
use vstd::prelude::*;

verus! {

/// How long a message is valid by default, in seconds.
pub const DEFAULT_TTL: u32 = 40;

/// The workchain of the config contract: the masterchain.
pub const CONFIG_WORKCHAIN: i8 = -1;

/// A change of the config. Values, code and parameters are bags of cells.
#[derive(Debug)]
pub enum Action {
    /// A parameter gets a value.
    SubmitParam { index: u32, value: Vec<u8> },
    /// The config gets a master key.
    UpdateMasterKey { pubkey: HashBytes },
    /// The elector gets code; the parameters are handed to it after the upgrade.
    UpdateElectorCode { code: Vec<u8>, params: Option<Vec<u8>> },
    /// The config gets code; the parameters are handed to it after the upgrade.
    UpdateConfigCode { code: Vec<u8>, params: Option<Vec<u8>> },
}

/// Why an action cannot be sent.
#[derive(Clone, Copy, Debug, PartialEq, Eq, Structural)]
pub enum ActionError {
    /// The text does not describe the parameter.
    InvalidParam,
    /// The code is no bag of cells.
    InvalidCode,
    /// The parameters of an upgrade are no bag of cells.
    InvalidParams,
    /// A part does not fit in a cell or is no bag of cells.
    InvalidCell,
    AccountFrozen,
    AccountUninit,
    AccountNotFound,
    UnexpectedResponse,
    /// The account has no data.
    NoData,
    InvalidData,
    NoSeqno,
    NoPublicKey,
    /// The public key of the account, or the one that it is to get, is none.
    InvalidPublicKey,
    OtherPublicKey,
    /// The blockchain config does not say what the network is capable of.
    NoGlobalVersion,
}

/// What an action is made of: its number, the bits and the first reference of its
/// data, and the cell whose contents follow.
#[derive(Debug)]
pub struct ActionParts {
    pub tag: u32,
    pub bits: Vec<u8>,
    pub reference: Option<Vec<u8>>,
    pub tail: Option<Vec<u8>>,
}

impl Action {
    /// The number of the action.
    pub open spec fn tag(&self) -> u32 {
        match self {
            Action::SubmitParam { .. } => 0x4366_5021,
            Action::UpdateMasterKey { .. } => 0x5062_4b21,
            Action::UpdateElectorCode { .. } => 0x4e43_ef05,
            Action::UpdateConfigCode { .. } => 0x4e43_6f64,
        }
    }

    /// The bits of its data.
    pub open spec fn bits(&self) -> Seq<u8> {
        match self {
            Action::SubmitParam { index, .. } => crate::bytes::be_bytes(4, *index as nat),
            Action::UpdateMasterKey { pubkey } => pubkey@,
            _ => Seq::empty(),
        }
    }

    /// The first reference of its data.
    pub open spec fn reference(&self) -> Option<Seq<u8>> {
        match self {
            Action::SubmitParam { value, .. } => Some(value@),
            Action::UpdateMasterKey { .. } => None,
            Action::UpdateElectorCode { code, .. } => Some(code@),
            Action::UpdateConfigCode { code, .. } => Some(code@),
        }
    }

    /// The cell whose contents follow.
    pub open spec fn tail(&self) -> Option<Seq<u8>> {
        match self {
            Action::UpdateElectorCode { params, .. } => crate::cells::opt_view(*params),
            Action::UpdateConfigCode { params, .. } => crate::cells::opt_view(*params),
            _ => None,
        }
    }

    /// Whether the master key that the config is to get is a public key.
    pub open spec fn has_valid_key(&self) -> bool {
        self matches Action::UpdateMasterKey { pubkey } ==> crate::outside::is_public_key(pubkey@)
    }

    /// Checks the master key that the config is to get.
    pub fn check_key(&self) -> (r: bool)
        ensures
            r == self.has_valid_key(),
    {
        match self {
            Action::UpdateMasterKey { pubkey } => ed25519_key_valid(pubkey),
            _ => true,
        }
    }

    /// The action that gives a parameter the value that a text in JSON describes.
    pub fn submit_param(index: u32, text: &str) -> (r: Result<Action, ActionError>)
        ensures
            match crate::cells::param_boc(index, text@) {
                None => r == Err::<Action, ActionError>(ActionError::InvalidParam),
                Some(boc) => r matches Ok(Action::SubmitParam { index: i, value }) && i == index
                    && value@ == boc,
            },
    {
        match parse_param(index, text) {
            Some(value) => Ok(Action::SubmitParam { index, value }),
            None => Err(ActionError::InvalidParam),
        }
    }

    /// The action that gives code to the elector or to the config. The parameters are
    /// a text in base64.
    pub fn update_code(elector: bool, code: Vec<u8>, upgrade_args: &Option<String>) -> (r: Result<
        Action,
        ActionError,
    >)
        ensures
            ({
                let params = match *upgrade_args {
                    Some(text) => crate::cells::base64_boc(text@),
                    None => None,
                };
                if crate::cells::boc_root(code@) is None {
                    r == Err::<Action, ActionError>(ActionError::InvalidCode)
                } else if *upgrade_args is Some && params is None {
                    r == Err::<Action, ActionError>(ActionError::InvalidParams)
                } else {
                    r matches Ok(action) && action.reference() == Some(code@) && action.tail()
                        == params && if elector {
                        action is UpdateElectorCode
                    } else {
                        action is UpdateConfigCode
                    }
                }
            }),
    {
        if boc_decode(code.as_slice()).is_none() {
            return Err(ActionError::InvalidCode);
        }
        let params: Option<Vec<u8>> = match upgrade_args {
            Some(text) => match decode_base64(text.as_str()) {
                Some(params) => Some(params),
                None => return Err(ActionError::InvalidParams),
            },
            None => None,
        };
        if elector {
            Ok(Action::UpdateElectorCode { code, params })
        } else {
            Ok(Action::UpdateConfigCode { code, params })
        }
    }

    /// Takes the action apart.
    pub fn build(self) -> (r: ActionParts)
        ensures
            r.tag == self.tag(),
            r.bits@ == self.bits(),
            crate::cells::opt_view(r.reference) == self.reference(),
            crate::cells::opt_view(r.tail) == self.tail(),
    {
        let mut bits: Vec<u8> = Vec::new();
        match self {
            Action::SubmitParam { index, value } => {
                write_be(&mut bits, 4, index as u64);
                assert(bits@ =~= crate::bytes::be_bytes(4, index as nat));
                ActionParts { tag: 0x4366_5021, bits, reference: Some(value), tail: None }
            },
            Action::UpdateMasterKey { pubkey } => {
                write_hash(&mut bits, &pubkey);
                assert(bits@ =~= pubkey@);
                ActionParts { tag: 0x5062_4b21, bits, reference: None, tail: None }
            },
            Action::UpdateElectorCode { code, params } => {
                assert(bits@ =~= Seq::<u8>::empty());
                ActionParts { tag: 0x4e43_ef05, bits, reference: Some(code), tail: params }
            },
            Action::UpdateConfigCode { code, params } => {
                assert(bits@ =~= Seq::<u8>::empty());
                ActionParts { tag: 0x4e43_6f64, bits, reference: Some(code), tail: params }
            },
        }
    }
}

/// The bits that are signed: the action, its number, when it expires, and its
/// data.
pub open spec fn signed_bits(action: Action, seqno: u32, expire_at: u32) -> Seq<u8> {
    crate::bytes::be_bytes(4, action.tag() as nat) + crate::bytes::be_bytes(
        4,
        seqno as nat,
    ) + crate::bytes::be_bytes(4, expire_at as nat) + action.bits()
}

/// The signature under an action: one under the hash of the cell with the bits
/// that are signed.
pub open spec fn action_signature(
    action: Action,
    seqno: u32,
    expire_at: u32,
    secret: Seq<u8>,
    signature_id: Option<i32>,
) -> Option<Seq<u8>> {
    match crate::cells::cell_boc(
        signed_bits(action, seqno, expire_at),
        action.reference(),
        action.tail(),
    ) {
        None => None,
        Some(boc) => match crate::cells::boc_root(boc) {
            None => None,
            Some(root) => Some(
                crate::outside::signature_of(
                    secret,
                    crate::outside::with_signature_id(root.repr_hash@, signature_id),
                ),
            ),
        },
    }
}

/// The message that carries an action to the config contract: the signature, then
/// what was signed.
pub open spec fn action_message(
    action: Action,
    seqno: u32,
    expire_at: u32,
    config_addr: StdAddr,
    secret: Seq<u8>,
    signature_id: Option<i32>,
) -> Option<Seq<u8>> {
    match action_signature(action, seqno, expire_at, secret, signature_id) {
        None => None,
        Some(signature) => match crate::cells::cell_boc(
            signature + signed_bits(action, seqno, expire_at),
            action.reference(),
            action.tail(),
        ) {
            None => None,
            Some(body) => crate::cells::ext_message_boc(
                config_addr.workchain,
                config_addr.address@,
                None,
                body,
            ),
        },
    }
}

/// Whether signatures are bound to the network: its number, if they are.
pub fn signature_id(capable: bool, global_id: i32) -> (r: Option<i32>)
    ensures
        r == (if capable {
            Some(global_id)
        } else {
            None
        }),
{
    if capable {
        Some(global_id)
    } else {
        None
    }
}

/// What comes of an action that is to be sent: the message and when it expires, or why
/// there is none.
pub open spec fn is_created(
    r: Result<(Vec<u8>, u32), ActionError>,
    action: Action,
    seqno: u32,
    expire_at: u32,
    config_addr: StdAddr,
    secret: Seq<u8>,
    signature_id: Option<i32>,
) -> bool {
    if !action.has_valid_key() {
        r == Err::<(Vec<u8>, u32), ActionError>(ActionError::InvalidPublicKey)
    } else {
        match (r, action_message(action, seqno, expire_at, config_addr, secret, signature_id)) {
            (Ok((message, at)), Some(named)) => message@ == named && at == expire_at,
            (Err(e), None) => e == ActionError::InvalidCell,
            _ => false,
        }
    }
}

/// Makes the message that carries an action, and says when it expires.
pub fn create_message(
    seqno: u32,
    config_addr: &StdAddr,
    action: Action,
    keypair: &KeyPair,
    signature_id: Option<i32>,
    now: u32,
    ttl: u32,
) -> (r: Result<(Vec<u8>, u32), ActionError>)
    requires
        now + ttl <= u32::MAX,
    ensures
        is_created(
            r,
            action,
            seqno,
            (now + ttl) as u32,
            *config_addr,
            keypair.secret@,
            signature_id,
        ),
{
    if !action.check_key() {
        return Err(ActionError::InvalidPublicKey);
    }
    let expire_at: u32 = now + ttl;
    let ghost signed = signed_bits(action, seqno, expire_at);
    proof {
        crate::bytes::lemma_be_bytes_len(4, action.tag() as nat);
        crate::bytes::lemma_be_bytes_len(4, seqno as nat);
        crate::bytes::lemma_be_bytes_len(4, expire_at as nat);
        if let Action::SubmitParam { index, .. } = action {
            crate::bytes::lemma_be_bytes_len(4, index as nat);
        }
    }
    let parts = action.build();
    let mut bits: Vec<u8> = Vec::new();
    write_be(&mut bits, 4, parts.tag as u64);
    write_be(&mut bits, 4, seqno as u64);
    write_be(&mut bits, 4, expire_at as u64);
    write_raw(&mut bits, parts.bits.as_slice());
    assert(bits@ =~= signed);
    let unsigned = match build_cell(bits.as_slice(), &parts.reference, &parts.tail) {
        Some(boc) => boc,
        None => return Err(ActionError::InvalidCell),
    };
    let root = match boc_decode(unsigned.as_slice()) {
        Some(root) => root,
        None => return Err(ActionError::InvalidCell),
    };
    let data = extend_signature_with_id(root.repr_hash.0.as_slice(), signature_id);
    let signature: Signature = ed25519_sign(&keypair.secret, data.as_slice());
    let mut body_bits: Vec<u8> = Vec::new();
    write_raw(&mut body_bits, signature.0.as_slice());
    write_raw(&mut body_bits, bits.as_slice());
    assert(body_bits@ =~= signature@ + signed);
    let body = match build_cell(body_bits.as_slice(), &parts.reference, &parts.tail) {
        Some(boc) => boc,
        None => return Err(ActionError::InvalidCell),
    };
    match build_ext_message(config_addr.workchain, &config_addr.address, &None, body.as_slice()) {
        Some(message) => Ok((message, expire_at)),
        None => Err(ActionError::InvalidCell),
    }
}

/// What is answered about the config account.
#[derive(Debug)]
pub enum ConfigAccount {
    /// It is active; its data are a bag of cells.
    Active { data: Option<Vec<u8>> },
    Frozen,
    Uninit,
    NotExists,
    Unchanged,
}

/// The number of the next action, if the config account is in order and has the
/// expected public key.
pub open spec fn expected_seqno(account: ConfigAccount, expected_pubkey: HashBytes) -> Result<
    u32,
    ActionError,
> {
    match account {
        ConfigAccount::Frozen => Err(ActionError::AccountFrozen),
        ConfigAccount::Uninit => Err(ActionError::AccountUninit),
        ConfigAccount::NotExists => Err(ActionError::AccountNotFound),
        ConfigAccount::Unchanged => Err(ActionError::UnexpectedResponse),
        ConfigAccount::Active { data: None } => Err(ActionError::NoData),
        ConfigAccount::Active { data: Some(data) } => match crate::cells::config_data_of(data@) {
            None => Err(ActionError::InvalidData),
            Some(config) => checked_seqno(config, expected_pubkey),
        },
    }
}

/// The number of the next action, given what the data of the account start with.
pub open spec fn checked_seqno(
    config: crate::cells::ConfigData,
    expected_pubkey: HashBytes,
) -> Result<u32, ActionError> {
    match (config.seqno, config.public_key) {
        (None, _) => Err(ActionError::NoSeqno),
        (Some(_), None) => Err(ActionError::NoPublicKey),
        (Some(seqno), Some(public)) => if !crate::outside::is_public_key(public@) {
            Err(ActionError::InvalidPublicKey)
        } else if public != expected_pubkey {
            Err(ActionError::OtherPublicKey)
        } else {
            Ok(seqno)
        },
    }
}

/// Checks the config account before an action, and gives the number of the
/// action.
pub fn prepare_action(account: &ConfigAccount, expected_pubkey: &HashBytes) -> (r: Result<
    u32,
    ActionError,
>)
    ensures
        r == expected_seqno(*account, *expected_pubkey),
{
    let data: &Vec<u8> = match account {
        ConfigAccount::Active { data: Some(data) } => data,
        ConfigAccount::Active { data: None } => return Err(ActionError::NoData),
        ConfigAccount::Frozen => return Err(ActionError::AccountFrozen),
        ConfigAccount::Uninit => return Err(ActionError::AccountUninit),
        ConfigAccount::NotExists => return Err(ActionError::AccountNotFound),
        ConfigAccount::Unchanged => return Err(ActionError::UnexpectedResponse),
    };
    match load_config_data(data.as_slice()) {
        None => Err(ActionError::InvalidData),
        Some(config) => check_config_data(&config, expected_pubkey),
    }
}

/// Checks what the data of the config account start with.
pub fn check_config_data(config: &crate::cells::ConfigData, expected_pubkey: &HashBytes) -> (r:
    Result<u32, ActionError>)
    ensures
        r == checked_seqno(*config, *expected_pubkey),
{
    let seqno: u32 = match config.seqno {
        Some(seqno) => seqno,
        None => return Err(ActionError::NoSeqno),
    };
    let public = match config.public_key {
        Some(public) => public,
        None => return Err(ActionError::NoPublicKey),
    };
    if !ed25519_key_valid(&public) {
        return Err(ActionError::InvalidPublicKey);
    }
    if !public.same(expected_pubkey) {
        return Err(ActionError::OtherPublicKey);
    }
    Ok(seqno)
}

/// The message that carries an action, given what is known of the network: its
/// number, its config, and the account of the config contract, which is in the
/// masterchain.
pub fn make_config_action(
    global_id: i32,
    config: &Vec<u8>,
    account: &ConfigAccount,
    config_addr: &HashBytes,
    action: Action,
    keypair: &KeyPair,
    now: u32,
    ttl: u32,
) -> (r: Result<(Vec<u8>, u32), ActionError>)
    requires
        now + ttl <= u32::MAX,
    ensures
        if !action.has_valid_key() {
            r == Err::<(Vec<u8>, u32), ActionError>(ActionError::InvalidPublicKey)
        } else {
            match crate::cells::signature_with_id_of(config@) {
                None => r == Err::<(Vec<u8>, u32), ActionError>(ActionError::NoGlobalVersion),
                Some(capable) => match expected_seqno(*account, keypair.public) {
                    Err(e) => r == Err::<(Vec<u8>, u32), ActionError>(e),
                    Ok(seqno) => is_created(
                        r,
                        action,
                        seqno,
                        (now + ttl) as u32,
                        (StdAddr { workchain: CONFIG_WORKCHAIN, address: *config_addr }),
                        keypair.secret@,
                        if capable {
                            Some(global_id)
                        } else {
                            None
                        },
                    ),
                },
            }
        },
{
    if !action.check_key() {
        return Err(ActionError::InvalidPublicKey);
    }
    let capable = match load_signature_with_id(config.as_slice()) {
        Some(capable) => capable,
        None => return Err(ActionError::NoGlobalVersion),
    };
    let seqno: u32 = match prepare_action(account, &keypair.public) {
        Ok(seqno) => seqno,
        Err(e) => return Err(e),
    };
    create_message(
        seqno,
        &StdAddr { workchain: CONFIG_WORKCHAIN, address: *config_addr },
        action,
        keypair,
        signature_id(capable, global_id),
        now,
        ttl,
    )
}

/// What is signed starts with twelve bytes: the name of the action, its number and
/// when it expires. The data follow.
pub proof fn law_signed_bits_layout(action: Action, seqno: u32, expire_at: u32)
    ensures
        ({
            let bits = signed_bits(action, seqno, expire_at);
            &&& bits.len() >= 12
            &&& crate::bytes::be_nat(bits.subrange(0, 4)) == action.tag()
            &&& crate::bytes::be_nat(bits.subrange(4, 8)) == seqno
            &&& crate::bytes::be_nat(bits.subrange(8, 12)) == expire_at
            &&& bits.skip(12) == action.bits()
        }),
{
    let bits = signed_bits(action, seqno, expire_at);
    crate::bytes::law_four_bytes_of_a_number(action.tag());
    crate::bytes::law_four_bytes_of_a_number(seqno);
    crate::bytes::law_four_bytes_of_a_number(expire_at);
    let a = crate::bytes::be_bytes(4, action.tag() as nat);
    let b = crate::bytes::be_bytes(4, seqno as nat);
    let c = crate::bytes::be_bytes(4, expire_at as nat);
    assert(bits == a + b + c + action.bits());
    assert((a + b + c + action.bits()).subrange(0, 4) =~= a);
    assert((a + b + c + action.bits()).subrange(4, 8) =~= b);
    assert((a + b + c + action.bits()).subrange(8, 12) =~= c);
    assert((a + b + c + action.bits()).skip(12) =~= action.bits());
}

/// Each kind of action has a name of its own. Its data are the index of a parameter in
/// four bytes, the highest first, or the key, or nothing.
pub proof fn law_action_is_named_by_its_kind(action: Action)
    ensures
        match action {
            Action::SubmitParam { index, .. } => action.tag() == 0x4366_5021 && action.bits().len()
                == 4 && crate::bytes::be_nat(action.bits()) == index,
            Action::UpdateMasterKey { pubkey } => action.tag() == 0x5062_4b21 && action.bits()
                == pubkey@,
            Action::UpdateElectorCode { .. } => action.tag() == 0x4e43_ef05 && action.bits().len()
                == 0,
            Action::UpdateConfigCode { .. } => action.tag() == 0x4e43_6f64 && action.bits().len()
                == 0,
        },
{
    match action {
        Action::SubmitParam { index, .. } => {
            crate::bytes::law_four_bytes_of_a_number(index);
        },
        _ => {},
    }
}

/// The value of a parameter and the code of an upgrade are referenced. What an upgrade
/// is given follows it; other actions have nothing there.
pub proof fn law_action_carries_its_cells(action: Action)
    ensures
        match action {
            Action::SubmitParam { value, .. } => action.reference() == Some(value@)
                && action.tail() is None,
            Action::UpdateMasterKey { .. } => action.reference() is None && action.tail() is None,
            Action::UpdateElectorCode { code, params } => action.reference() == Some(code@)
                && action.tail() == crate::cells::opt_view(params),
            Action::UpdateConfigCode { code, params } => action.reference() == Some(code@)
                && action.tail() == crate::cells::opt_view(params),
        },
{
}

/// Only a master key has to be a public key.
pub proof fn law_master_key_is_checked(action: Action)
    ensures
        match action {
            Action::UpdateMasterKey { pubkey } => action.has_valid_key()
                == crate::outside::is_public_key(pubkey@),
            _ => action.has_valid_key(),
        },
{
}

/// The signature is under the hash of a cell that holds what is signed and nothing
/// else. The message holds the same, with the signature in front, and goes to the
/// config contract.
pub proof fn law_message_holds_what_is_signed(
    action: Action,
    seqno: u32,
    expire_at: u32,
    config_addr: StdAddr,
    secret: Seq<u8>,
    signature_id: Option<i32>,
    boc: Seq<u8>,
    root: crate::cells::BocRoot,
    body: Seq<u8>,
)
    requires
        crate::cells::cell_boc(
            signed_bits(action, seqno, expire_at),
            action.reference(),
            action.tail(),
        ) == Some(boc),
        crate::cells::boc_root(boc) == Some(root),
        crate::cells::cell_boc(
            crate::outside::signature_of(
                secret,
                crate::outside::with_signature_id(root.repr_hash@, signature_id),
            ) + signed_bits(action, seqno, expire_at),
            action.reference(),
            action.tail(),
        ) == Some(body),
    ensures
        action_signature(action, seqno, expire_at, secret, signature_id) == Some(
            crate::outside::signature_of(
                secret,
                crate::outside::with_signature_id(root.repr_hash@, signature_id),
            ),
        ),
        action_message(action, seqno, expire_at, config_addr, secret, signature_id)
            == crate::cells::ext_message_boc(
            config_addr.workchain,
            config_addr.address@,
            None,
            body,
        ),
{
}

/// An action gets a number exactly from an active account whose data name the expected
/// key, which has to be one, and a number.
pub proof fn law_number_needs_the_expected_key(
    account: ConfigAccount,
    config: crate::cells::ConfigData,
    expected_pubkey: HashBytes,
    seqno: u32,
)
    ensures
        checked_seqno(config, expected_pubkey) == Ok::<u32, ActionError>(seqno) <==> config.seqno
            == Some(seqno) && config.public_key == Some(expected_pubkey)
            && crate::outside::is_public_key(expected_pubkey@),
        expected_seqno(account, expected_pubkey) is Ok ==> account is Active && account->data
            is Some && crate::cells::config_data_of(account->data->0@) is Some,
        account is Active && account->data is Some && crate::cells::config_data_of(
            account->data->0@,
        ) == Some(config) ==> expected_seqno(account, expected_pubkey) == checked_seqno(
            config,
            expected_pubkey,
        ),
{
}

/// A message that is made holds the action and names when it expires. None is made for a
/// master key that is none, and only then the key is blamed.
pub proof fn law_message_is_made_of_the_action(
    r: Result<(Vec<u8>, u32), ActionError>,
    action: Action,
    seqno: u32,
    expire_at: u32,
    config_addr: StdAddr,
    secret: Seq<u8>,
    signature_id: Option<i32>,
)
    requires
        is_created(r, action, seqno, expire_at, config_addr, secret, signature_id),
    ensures
        r is Ok <==> action.has_valid_key() && action_message(
            action,
            seqno,
            expire_at,
            config_addr,
            secret,
            signature_id,
        ) is Some,
        r is Ok ==> action_message(action, seqno, expire_at, config_addr, secret, signature_id)
            == Some(r->Ok_0.0@) && r->Ok_0.1 == expire_at,
        r == Err::<(Vec<u8>, u32), ActionError>(ActionError::InvalidPublicKey)
            <==> !action.has_valid_key(),
{
}

/// The config contract lives in the masterchain, and an action is valid for forty seconds
/// unless another time is given.
pub proof fn law_action_defaults()
    ensures
        CONFIG_WORKCHAIN == -1,
        DEFAULT_TTL == 40,
{
}

} // verus!
