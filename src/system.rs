use vstd::bytes::{spec_u32_from_le_bytes, spec_u32_to_le_bytes, spec_u64_from_le_bytes, spec_u64_to_le_bytes};
use vstd::prelude::*;

use crate::account::{Account, AccountModel};
use crate::address::{system_id, Address};
use crate::instruction::{
    refs_view, AccountMeta, AccountRef, AccountRefModel, Instruction, InstructionError, MetaModel,
};
use crate::layout::{put_address, put_u32, put_u64, read_address, read_u32, read_u64};

verus! {

/// Largest data length, in bytes, that an account can be created with.
pub const MAX_PERMITTED_DATA_LENGTH: u64 = 10 * 1024 * 1024;

/// Tag of the instruction that creates an account.
pub const CREATE_ACCOUNT_TAG: u32 = 0;

/// Tag of the instruction that moves balance.
pub const TRANSFER_TAG: u32 = 2;

/// An instruction of the system namespace.
#[derive(Clone, Copy, Debug)]
pub enum SystemInstruction {
    /// Moves `lamports` from the first account to the second, which must be
    /// unused, and gives the second `space` zero bytes of data and `owner`.
    CreateAccount { lamports: u64, space: u64, owner: Address },
    /// Moves `lamports` from the first account to the second.
    Transfer { lamports: u64 },
}

/// A system instruction as mathematical values.
pub enum SystemCall {
    CreateAccount { lamports: u64, space: u64, owner: Seq<u8> },
    Transfer { lamports: u64 },
}

impl View for SystemInstruction {
    type V = SystemCall;

    open spec fn view(&self) -> SystemCall {
        match *self {
            SystemInstruction::CreateAccount { lamports, space, owner } => SystemCall::CreateAccount {
                lamports,
                space,
                owner: owner@,
            },
            SystemInstruction::Transfer { lamports } => SystemCall::Transfer { lamports },
        }
    }
}

/// The payload of a system instruction: a little-endian `u32` tag, then the
/// fields in order, integers little-endian.
pub open spec fn system_payload(call: SystemCall) -> Seq<u8> {
    match call {
        SystemCall::CreateAccount { lamports, space, owner } => spec_u32_to_le_bytes(CREATE_ACCOUNT_TAG)
            + spec_u64_to_le_bytes(lamports) + spec_u64_to_le_bytes(space) + owner,
        SystemCall::Transfer { lamports } => spec_u32_to_le_bytes(TRANSFER_TAG) + spec_u64_to_le_bytes(
            lamports,
        ),
    }
}

/// The system instruction that a payload holds, if it holds exactly one.
pub open spec fn parse_system(data: Seq<u8>) -> Option<SystemCall> {
    if data.len() < 4 {
        None
    } else {
        let tag = spec_u32_from_le_bytes(data.subrange(0, 4));
        if tag == CREATE_ACCOUNT_TAG && data.len() == 52 {
            Some(
                SystemCall::CreateAccount {
                    lamports: spec_u64_from_le_bytes(data.subrange(4, 12)),
                    space: spec_u64_from_le_bytes(data.subrange(12, 20)),
                    owner: data.subrange(20, 52),
                },
            )
        } else if tag == TRANSFER_TAG && data.len() == 12 {
            Some(SystemCall::Transfer { lamports: spec_u64_from_le_bytes(data.subrange(4, 12)) })
        } else {
            None
        }
    }
}

/// Why the system namespace refuses to debit `from` by `lamports`, if it does.
pub open spec fn debit_refusal(from: AccountRefModel, lamports: u64) -> Option<InstructionError> {
    if from.account.owner != system_id() {
        Some(InstructionError::ExternalAccountLamportSpend)
    } else if from.account.data.len() != 0 {
        Some(InstructionError::InvalidArgument)
    } else if from.account.balance < lamports {
        Some(InstructionError::InsufficientFunds)
    } else {
        None
    }
}

/// The reference with its balance replaced.
pub open spec fn with_balance(r: AccountRefModel, balance: u64) -> AccountRefModel {
    AccountRefModel { account: AccountModel { balance, ..r.account }, ..r }
}

/// What the system namespace does to the accounts it is handed.
pub open spec fn system_process(refs: Seq<AccountRefModel>, data: Seq<u8>) -> Result<
    Seq<AccountRefModel>,
    InstructionError,
> {
    match parse_system(data) {
        None => Err(InstructionError::InvalidInstructionData),
        Some(SystemCall::Transfer { lamports }) => {
            if refs.len() < 2 {
                Err(InstructionError::NotEnoughAccountKeys)
            } else if !refs[0].is_signer {
                Err(InstructionError::MissingRequiredSignature)
            } else if debit_refusal(refs[0], lamports) is Some {
                Err(debit_refusal(refs[0], lamports)->Some_0)
            } else if refs[0].address == refs[1].address {
                Ok(refs)
            } else if refs[1].account.balance + lamports > u64::MAX {
                Err(InstructionError::ArithmeticOverflow)
            } else {
                Ok(
                    refs.update(0, with_balance(refs[0], (refs[0].account.balance - lamports) as u64)).update(
                        1,
                        with_balance(refs[1], (refs[1].account.balance + lamports) as u64),
                    ),
                )
            }
        },
        Some(SystemCall::CreateAccount { lamports, space, owner }) => {
            if refs.len() < 2 {
                Err(InstructionError::NotEnoughAccountKeys)
            } else if !refs[0].is_signer || !refs[1].is_signer {
                Err(InstructionError::MissingRequiredSignature)
            } else if refs[0].address == refs[1].address || refs[1].account.balance != 0
                || refs[1].account.data.len() != 0 || refs[1].account.owner != system_id() {
                Err(InstructionError::AccountAlreadyInUse)
            } else if space > MAX_PERMITTED_DATA_LENGTH {
                Err(InstructionError::InvalidAccountDataLength)
            } else if debit_refusal(refs[0], lamports) is Some {
                Err(debit_refusal(refs[0], lamports)->Some_0)
            } else {
                Ok(
                    refs.update(0, with_balance(refs[0], (refs[0].account.balance - lamports) as u64)).update(
                        1,
                        AccountRefModel {
                            account: AccountModel {
                                balance: lamports,
                                owner,
                                data: Seq::new(space as nat, |i: int| 0u8),
                                executable: false,
                            },
                            ..refs[1]
                        },
                    ),
                )
            }
        },
    }
}

/// The payload of `call`.
pub fn encode_system(call: &SystemInstruction) -> (r: Vec<u8>)
    ensures
        r@ == system_payload(call@),
{
    let mut out: Vec<u8> = Vec::new();
    match *call {
        SystemInstruction::CreateAccount { lamports, space, owner } => {
            put_u32(&mut out, CREATE_ACCOUNT_TAG);
            put_u64(&mut out, lamports);
            put_u64(&mut out, space);
            put_address(&mut out, &owner);
        },
        SystemInstruction::Transfer { lamports } => {
            put_u32(&mut out, TRANSFER_TAG);
            put_u64(&mut out, lamports);
        },
    }
    out
}

/// The system instruction that `data` holds.
pub fn decode_system(data: &[u8]) -> (r: Option<SystemInstruction>)
    ensures
        match r {
            Some(c) => parse_system(data@) == Some(c@),
            None => parse_system(data@) is None,
        },
{
    let n = data.len();
    if n < 4 {
        return None;
    }
    let tag = read_u32(data, 0);
    if tag == CREATE_ACCOUNT_TAG && n == 52 {
        let lamports = read_u64(data, 4);
        let space = read_u64(data, 12);
        let owner = read_address(data, 20);
        Some(SystemInstruction::CreateAccount { lamports, space, owner })
    } else if tag == TRANSFER_TAG && n == 12 {
        Some(SystemInstruction::Transfer { lamports: read_u64(data, 4) })
    } else {
        None
    }
}

/// A payload always reads back as the instruction it was made from.
pub proof fn lemma_system_payload_round_trip(call: SystemCall)
    requires
        call matches SystemCall::CreateAccount { owner, .. } ==> owner.len() == 32,
    ensures
        parse_system(system_payload(call)) == Some(call),
{
    vstd::bytes::lemma_auto_spec_u32_to_from_le_bytes();
    vstd::bytes::lemma_auto_spec_u64_to_from_le_bytes();
    let d = system_payload(call);
    match call {
        SystemCall::CreateAccount { lamports, space, owner } => {
            assert(d.subrange(0, 4) =~= spec_u32_to_le_bytes(CREATE_ACCOUNT_TAG));
            assert(d.subrange(4, 12) =~= spec_u64_to_le_bytes(lamports));
            assert(d.subrange(12, 20) =~= spec_u64_to_le_bytes(space));
            assert(d.subrange(20, 52) =~= owner);
        },
        SystemCall::Transfer { lamports } => {
            assert(d.subrange(0, 4) =~= spec_u32_to_le_bytes(TRANSFER_TAG));
            assert(d.subrange(4, 12) =~= spec_u64_to_le_bytes(lamports));
        },
    }
}

/// The system namespace never lowers the balance of, nor changes the data of, an
/// account that it does not own.
pub proof fn lemma_system_respects_ownership(refs: Seq<AccountRefModel>, data: Seq<u8>)
    ensures
        system_process(refs, data) matches Ok(after) ==> {
            &&& after.len() == refs.len()
            &&& forall|j: int|
                0 <= j < refs.len() && refs[j].account.owner != system_id() ==> (#[trigger] after[j]).account.balance
                    >= refs[j].account.balance && after[j].account.data == refs[j].account.data
        },
{
}

fn zeros(n: u64) -> (r: Vec<u8>)
    requires
        n <= MAX_PERMITTED_DATA_LENGTH,
    ensures
        r@ == Seq::new(n as nat, |i: int| 0u8),
{
    let mut r: Vec<u8> = Vec::new();
    let mut i: u64 = 0;
    while i < n
        invariant
            0 <= i <= n,
            r@ == Seq::new(i as nat, |j: int| 0u8),
        decreases n - i,
    {
        r.push(0u8);
        i = i + 1;
        assert(r@ =~= Seq::new(i as nat, |j: int| 0u8));
    }
    r
}

/// Checks that the first reference may be debited by `lamports`.
fn check_debit(from: &AccountRef, lamports: u64) -> (r: Result<(), InstructionError>)
    ensures
        match debit_refusal(from@, lamports) {
            Some(e) => r is Err && r->Err_0 == e,
            None => r is Ok,
        },
{
    if from.account.owner != Address::system() {
        Err(InstructionError::ExternalAccountLamportSpend)
    } else if from.account.data.len() != 0 {
        Err(InstructionError::InvalidArgument)
    } else if from.account.balance < lamports {
        Err(InstructionError::InsufficientFunds)
    } else {
        Ok(())
    }
}

/// Runs a system instruction on the references it is handed.
pub fn process(refs: &mut Vec<AccountRef>, data: &Vec<u8>) -> (r: Result<(), InstructionError>)
    ensures
        match system_process(refs_view(old(refs)@), data@) {
            Ok(after) => r is Ok && refs_view(final(refs)@) == after,
            Err(e) => r is Err && r->Err_0 == e,
        },
{
    let ghost before = refs_view(refs@);
    let call = match decode_system(data.as_slice()) {
        Some(c) => c,
        None => {
            return Err(InstructionError::InvalidInstructionData);
        },
    };
    if refs.len() < 2 {
        return Err(InstructionError::NotEnoughAccountKeys);
    }
    assert(before[0] == refs@[0]@ && before[1] == refs@[1]@);
    match call {
        SystemInstruction::Transfer { lamports } => {
            if !refs[0].is_signer {
                return Err(InstructionError::MissingRequiredSignature);
            }
            check_debit(&refs[0], lamports)?;
            if refs[0].address == refs[1].address {
                return Ok(());
            }
            let to_balance = refs[1].account.balance;
            if to_balance > u64::MAX - lamports {
                return Err(InstructionError::ArithmeticOverflow);
            }
            let mut from = refs[0].duplicate();
            from.account.balance = from.account.balance - lamports;
            refs.set(0, from);
            let mut to = refs[1].duplicate();
            to.account.balance = to_balance + lamports;
            refs.set(1, to);
            assert(refs_view(refs@) =~= before.update(0, with_balance(before[0], (before[0].account.balance - lamports) as u64)).update(
                1,
                with_balance(before[1], (before[1].account.balance + lamports) as u64),
            ));
            Ok(())
        },
        SystemInstruction::CreateAccount { lamports, space, owner } => {
            if !refs[0].is_signer || !refs[1].is_signer {
                return Err(InstructionError::MissingRequiredSignature);
            }
            if refs[0].address == refs[1].address || refs[1].account.balance != 0
                || refs[1].account.data.len() != 0 || refs[1].account.owner != Address::system() {
                return Err(InstructionError::AccountAlreadyInUse);
            }
            if space > MAX_PERMITTED_DATA_LENGTH {
                return Err(InstructionError::InvalidAccountDataLength);
            }
            check_debit(&refs[0], lamports)?;
            let mut from = refs[0].duplicate();
            from.account.balance = from.account.balance - lamports;
            refs.set(0, from);
            let to = AccountRef {
                address: refs[1].address,
                is_signer: refs[1].is_signer,
                is_writable: refs[1].is_writable,
                account: Account { balance: lamports, owner, data: zeros(space), executable: false },
            };
            refs.set(1, to);
            assert(refs_view(refs@) =~= before.update(0, with_balance(before[0], (before[0].account.balance - lamports) as u64)).update(
                1,
                AccountRefModel {
                    account: AccountModel {
                        balance: lamports,
                        owner: owner@,
                        data: Seq::new(space as nat, |i: int| 0u8),
                        executable: false,
                    },
                    ..before[1]
                },
            ));
            Ok(())
        },
    }
}

/// An instruction that moves `lamports` from `from`, which signs, to `to`.
pub fn transfer(from: &Address, to: &Address, lamports: u64) -> (r: Instruction)
    ensures
        r@.program == system_id(),
        r@.metas == seq![
            MetaModel { address: from@, is_signer: true, is_writable: true },
            MetaModel { address: to@, is_signer: false, is_writable: true },
        ],
        r@.data == system_payload(SystemCall::Transfer { lamports }),
{
    let accounts = vec![AccountMeta::new(*from, true), AccountMeta::new(*to, false)];
    let r = Instruction {
        program_id: Address::system(),
        accounts,
        data: encode_system(&SystemInstruction::Transfer { lamports }),
    };
    assert(r@.metas =~= seq![
        MetaModel { address: from@, is_signer: true, is_writable: true },
        MetaModel { address: to@, is_signer: false, is_writable: true },
    ]);
    r
}

/// An instruction that moves `lamports` from `from` to the unused `to`, both of
/// which sign, and gives `to` `space` zero bytes of data and the owner `owner`.
pub fn create_account(from: &Address, to: &Address, lamports: u64, space: u64, owner: &Address) -> (r: Instruction)
    ensures
        r@.program == system_id(),
        r@.metas == seq![
            MetaModel { address: from@, is_signer: true, is_writable: true },
            MetaModel { address: to@, is_signer: true, is_writable: true },
        ],
        r@.data == system_payload(SystemCall::CreateAccount { lamports, space, owner: owner@ }),
{
    let accounts = vec![AccountMeta::new(*from, true), AccountMeta::new(*to, true)];
    let r = Instruction {
        program_id: Address::system(),
        accounts,
        data: encode_system(&SystemInstruction::CreateAccount { lamports, space, owner: *owner }),
    };
    assert(r@.metas =~= seq![
        MetaModel { address: from@, is_signer: true, is_writable: true },
        MetaModel { address: to@, is_signer: true, is_writable: true },
    ]);
    r
}

} // verus!
