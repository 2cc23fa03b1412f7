use vstd::prelude::*;

use crate::account::{Account, AccountModel};
use crate::address::Address;

verus! {

/// One account reference of an instruction, with its access flags.
#[derive(Clone, Copy, Debug)]
pub struct AccountMeta {
    pub address: Address,
    pub is_signer: bool,
    pub is_writable: bool,
}

/// An account reference as mathematical values.
pub struct MetaModel {
    pub address: Seq<u8>,
    pub is_signer: bool,
    pub is_writable: bool,
}

impl View for AccountMeta {
    type V = MetaModel;

    open spec fn view(&self) -> MetaModel {
        MetaModel { address: self.address@, is_signer: self.is_signer, is_writable: self.is_writable }
    }
}

impl AccountMeta {
    /// A writable reference.
    pub fn new(address: Address, is_signer: bool) -> (r: AccountMeta)
        ensures
            r@ == (MetaModel { address: address@, is_signer, is_writable: true }),
    {
        AccountMeta { address, is_signer, is_writable: true }
    }

    /// A read-only reference.
    pub fn new_readonly(address: Address, is_signer: bool) -> (r: AccountMeta)
        ensures
            r@ == (MetaModel { address: address@, is_signer, is_writable: false }),
    {
        AccountMeta { address, is_signer, is_writable: false }
    }
}

/// A call of one program: the accounts it may touch, in the order it expects
/// them, and a payload that only the program interprets.
#[derive(Clone, Debug)]
pub struct Instruction {
    pub program_id: Address,
    pub accounts: Vec<AccountMeta>,
    pub data: Vec<u8>,
}

/// An instruction as mathematical values.
pub struct InstructionModel {
    pub program: Seq<u8>,
    pub metas: Seq<MetaModel>,
    pub data: Seq<u8>,
}

impl View for Instruction {
    type V = InstructionModel;

    open spec fn view(&self) -> InstructionModel {
        InstructionModel {
            program: self.program_id@,
            metas: self.accounts@.map_values(|m: AccountMeta| m@),
            data: self.data@,
        }
    }
}

/// Instructions applied together, with the addresses that signed the submission.
#[derive(Clone, Debug)]
pub struct Transaction {
    pub instructions: Vec<Instruction>,
    pub signers: Vec<Address>,
}

impl Transaction {
    pub open spec fn instructions_view(&self) -> Seq<InstructionModel> {
        self.instructions@.map_values(|i: Instruction| i@)
    }

    pub open spec fn signers_view(&self) -> Seq<Seq<u8>> {
        self.signers@.map_values(|a: Address| a@)
    }
}

/// What a program sees of one referenced account, and may change.
#[derive(Clone, Debug)]
pub struct AccountRef {
    pub address: Address,
    pub is_signer: bool,
    pub is_writable: bool,
    pub account: Account,
}

/// A handed-over account as mathematical values.
pub struct AccountRefModel {
    pub address: Seq<u8>,
    pub is_signer: bool,
    pub is_writable: bool,
    pub account: AccountModel,
}

impl View for AccountRef {
    type V = AccountRefModel;

    open spec fn view(&self) -> AccountRefModel {
        AccountRefModel {
            address: self.address@,
            is_signer: self.is_signer,
            is_writable: self.is_writable,
            account: self.account@,
        }
    }
}

impl AccountRef {
    /// A copy of the reference.
    pub fn duplicate(&self) -> (r: AccountRef)
        ensures
            r@ == self@,
    {
        AccountRef {
            address: self.address,
            is_signer: self.is_signer,
            is_writable: self.is_writable,
            account: self.account.duplicate(),
        }
    }
}

/// The views of a vector of references.
pub open spec fn refs_view(refs: Seq<AccountRef>) -> Seq<AccountRefModel> {
    refs.map_values(|r: AccountRef| r@)
}

pub(crate) proof fn lemma_refs_view_push(refs: Seq<AccountRef>, r: AccountRef)
    ensures
        refs_view(refs.push(r)) == refs_view(refs).push(r@),
{
    assert(refs_view(refs.push(r)) =~= refs_view(refs).push(r@));
}

/// Why one instruction failed.
#[derive(Clone, Copy, Debug, PartialEq, Eq, Structural)]
pub enum InstructionError {
    /// The program rejected the instruction with its own code.
    Custom(u32),
    /// The program changed the list of references it was handed.
    ReferencesChanged,
    /// The program changed an account that the instruction marks read-only.
    ReadonlyModified,
    /// The payload is not an instruction of the program.
    InvalidInstructionData,
    /// Fewer accounts are referenced than the instruction needs.
    NotEnoughAccountKeys,
    /// An account that must sign did not.
    MissingRequiredSignature,
    /// The account to create already holds a balance, data or an owner.
    AccountAlreadyInUse,
    /// The account to debit holds less than the amount.
    InsufficientFunds,
    /// The account to debit is not owned by the system namespace.
    ExternalAccountLamportSpend,
    /// The account to debit carries data.
    InvalidArgument,
    /// The requested data length is over the limit.
    InvalidAccountDataLength,
    /// The balance would pass `u64::MAX`.
    ArithmeticOverflow,
}

} // verus!
