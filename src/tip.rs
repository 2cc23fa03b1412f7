use vstd::bytes::{spec_u64_from_le_bytes, spec_u64_to_le_bytes};
use vstd::prelude::*;

use crate::accessor::Record;
use crate::address::Address;
use crate::layout::{put_address, put_u64, read_address, read_u64};

verus! {

/// Length in bytes of an encoded `TipPool`.
pub const TIP_POOL_LEN: u64 = 32 + 8 + 32;

/// The state of a tip pool: who may withdraw, how much was tipped, and the vault.
#[derive(Clone, Copy, Debug, PartialEq, Eq)]
pub struct TipPool {
    pub withdraw_authority: Address,
    pub value: u64,
    pub vault: Address,
}

/// A tip pool as mathematical values.
pub struct TipPoolModel {
    pub withdraw_authority: Seq<u8>,
    pub value: u64,
    pub vault: Seq<u8>,
}

impl View for TipPool {
    type V = TipPoolModel;

    open spec fn view(&self) -> TipPoolModel {
        TipPoolModel { withdraw_authority: self.withdraw_authority@, value: self.value, vault: self.vault@ }
    }
}

impl Record for TipPool {
    open spec fn encoding(v: TipPoolModel) -> Seq<u8> {
        v.withdraw_authority + spec_u64_to_le_bytes(v.value) + v.vault
    }

    open spec fn decoding(bytes: Seq<u8>) -> Option<TipPoolModel> {
        if bytes.len() == TIP_POOL_LEN {
            Some(
                TipPoolModel {
                    withdraw_authority: bytes.subrange(0, 32),
                    value: spec_u64_from_le_bytes(bytes.subrange(32, 40)),
                    vault: bytes.subrange(40, 72),
                },
            )
        } else {
            None
        }
    }

    proof fn lemma_round_trip(r: &TipPool) {
        vstd::bytes::lemma_auto_spec_u64_to_from_le_bytes();
        let b = Self::encoding(r@);
        assert(b.subrange(0, 32) =~= r.withdraw_authority@);
        assert(b.subrange(32, 40) =~= spec_u64_to_le_bytes(r.value));
        assert(b.subrange(40, 72) =~= r.vault@);
    }

    fn encode(&self) -> (r: Vec<u8>) {
        let mut out: Vec<u8> = Vec::new();
        put_address(&mut out, &self.withdraw_authority);
        put_u64(&mut out, self.value);
        put_address(&mut out, &self.vault);
        out
    }

    fn decode(bytes: &[u8]) -> (r: Option<TipPool>) {
        if bytes.len() as u64 != TIP_POOL_LEN {
            return None;
        }
        Some(
            TipPool {
                withdraw_authority: read_address(bytes, 0),
                value: read_u64(bytes, 32),
                vault: read_address(bytes, 40),
            },
        )
    }
}

} // verus!
