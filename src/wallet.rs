use vstd::bytes::{spec_u64_from_le_bytes, spec_u64_to_le_bytes};
use vstd::prelude::*;

use crate::accessor::Record;
use crate::address::{derive_spec, derived_view, seeds_view, Address, DeriveError};
use crate::layout::{put_address, put_u64, read_address, read_u64};

verus! {

/// Length in bytes of an encoded `Wallet`.
pub const WALLET_LEN: u64 = 32 + 32;

/// The state of a wallet program's account: who may withdraw, and where the funds sit.
#[derive(Clone, Copy, Debug, PartialEq, Eq)]
pub struct Wallet {
    pub authority: Address,
    pub vault: Address,
}

/// A wallet as mathematical values.
pub struct WalletModel {
    pub authority: Seq<u8>,
    pub vault: Seq<u8>,
}

impl View for Wallet {
    type V = WalletModel;

    open spec fn view(&self) -> WalletModel {
        WalletModel { authority: self.authority@, vault: self.vault@ }
    }
}

impl Record for Wallet {
    open spec fn encoding(v: WalletModel) -> Seq<u8> {
        v.authority + v.vault
    }

    open spec fn decoding(bytes: Seq<u8>) -> Option<WalletModel> {
        if bytes.len() == WALLET_LEN {
            Some(WalletModel { authority: bytes.subrange(0, 32), vault: bytes.subrange(32, 64) })
        } else {
            None
        }
    }

    proof fn lemma_round_trip(r: &Wallet) {
        let b = Self::encoding(r@);
        assert(b.subrange(0, 32) =~= r.authority@);
        assert(b.subrange(32, 64) =~= r.vault@);
    }

    fn encode(&self) -> (r: Vec<u8>) {
        let mut out: Vec<u8> = Vec::new();
        put_address(&mut out, &self.authority);
        put_address(&mut out, &self.vault);
        assert(out@ =~= self.authority@ + self.vault@);
        out
    }

    fn decode(bytes: &[u8]) -> (r: Option<Wallet>) {
        if bytes.len() as u64 != WALLET_LEN {
            return None;
        }
        Some(Wallet { authority: read_address(bytes, 0), vault: read_address(bytes, 32) })
    }
}

/// An instruction of the wallet program: a one-byte variant index, then the amount.
#[derive(Clone, Copy, Debug, PartialEq, Eq, Structural)]
pub enum WalletInstruction {
    Initialize,
    Deposit { amount: u64 },
    Withdraw { amount: u64 },
}

impl View for WalletInstruction {
    type V = WalletInstruction;

    open spec fn view(&self) -> WalletInstruction {
        *self
    }
}

impl Record for WalletInstruction {
    open spec fn encoding(v: WalletInstruction) -> Seq<u8> {
        match v {
            WalletInstruction::Initialize => seq![0u8],
            WalletInstruction::Deposit { amount } => seq![1u8] + spec_u64_to_le_bytes(amount),
            WalletInstruction::Withdraw { amount } => seq![2u8] + spec_u64_to_le_bytes(amount),
        }
    }

    open spec fn decoding(bytes: Seq<u8>) -> Option<WalletInstruction> {
        if bytes.len() == 1 && bytes[0] == 0 {
            Some(WalletInstruction::Initialize)
        } else if bytes.len() == 9 && bytes[0] == 1 {
            Some(WalletInstruction::Deposit { amount: spec_u64_from_le_bytes(bytes.subrange(1, 9)) })
        } else if bytes.len() == 9 && bytes[0] == 2 {
            Some(WalletInstruction::Withdraw { amount: spec_u64_from_le_bytes(bytes.subrange(1, 9)) })
        } else {
            None
        }
    }

    proof fn lemma_round_trip(r: &WalletInstruction) {
        vstd::bytes::lemma_auto_spec_u64_to_from_le_bytes();
        let b = Self::encoding(*r);
        match *r {
            WalletInstruction::Initialize => {},
            WalletInstruction::Deposit { amount } => {
                assert(b.subrange(1, 9) =~= spec_u64_to_le_bytes(amount));
            },
            WalletInstruction::Withdraw { amount } => {
                assert(b.subrange(1, 9) =~= spec_u64_to_le_bytes(amount));
            },
        }
    }

    fn encode(&self) -> (r: Vec<u8>) {
        let mut out: Vec<u8> = Vec::new();
        match *self {
            WalletInstruction::Initialize => {
                out.push(0u8);
                assert(out@ =~= seq![0u8]);
            },
            WalletInstruction::Deposit { amount } => {
                out.push(1u8);
                put_u64(&mut out, amount);
                assert(out@ =~= seq![1u8] + spec_u64_to_le_bytes(amount));
            },
            WalletInstruction::Withdraw { amount } => {
                out.push(2u8);
                put_u64(&mut out, amount);
                assert(out@ =~= seq![2u8] + spec_u64_to_le_bytes(amount));
            },
        }
        out
    }

    fn decode(bytes: &[u8]) -> (r: Option<WalletInstruction>) {
        let n = bytes.len();
        if n == 1 && bytes[0] == 0 {
            Some(WalletInstruction::Initialize)
        } else if n == 9 && bytes[0] == 1 {
            Some(WalletInstruction::Deposit { amount: read_u64(bytes, 1) })
        } else if n == 9 && bytes[0] == 2 {
            Some(WalletInstruction::Withdraw { amount: read_u64(bytes, 1) })
        } else {
            None
        }
    }
}

/// The wallet address of `owner` under the wallet program: derived from the
/// owner's bytes as the only seed.
pub fn get_wallet_address(owner: &Address, wallet_program: &Address) -> (r: Result<(Address, u8), DeriveError>)
    ensures
        derived_view(r) == derive_spec(seq![owner@], wallet_program@),
{
    let seeds = vec![owner.to_vec()];
    assert(seeds_view(seeds@) =~= seq![owner@]);
    crate::address::derive(wallet_program, &seeds)
}

/// The wallet program's authority address: derived from no seeds.
pub fn get_authority(wallet_program: &Address) -> (r: Result<(Address, u8), DeriveError>)
    ensures
        derived_view(r) == derive_spec(Seq::empty(), wallet_program@),
{
    let seeds: Vec<Vec<u8>> = Vec::new();
    assert(seeds_view(seeds@) =~= Seq::<Seq<u8>>::empty());
    crate::address::derive(wallet_program, &seeds)
}

} // verus!
