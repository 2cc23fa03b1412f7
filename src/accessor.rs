use vstd::prelude::*;

use crate::account::{Account, AccountModel};
use crate::address::Address;
use crate::store::{AccountStore, LedgerError};

verus! {

/// A record with a fixed binary layout: fields in declared order, integers
/// little-endian, addresses as their thirty-two bytes, enums as a one-byte
/// variant index followed by the variant's fields.
pub trait Record: Sized + View {
    /// The bytes that hold the record.
    spec fn encoding(v: Self::V) -> Seq<u8>;

    /// The record that `bytes` hold, when they hold exactly one.
    spec fn decoding(bytes: Seq<u8>) -> Option<Self::V>;

    /// Decoding an encoded record gives it back.
    proof fn lemma_round_trip(r: &Self)
        ensures
            Self::decoding(Self::encoding(r@)) == Some(r@),
    ;

    fn encode(&self) -> (r: Vec<u8>)
        ensures
            r@ == Self::encoding(self@),
    ;

    fn decode(bytes: &[u8]) -> (r: Option<Self>)
        ensures
            match r {
                Some(x) => Self::decoding(bytes@) == Some(x@),
                None => Self::decoding(bytes@) is None,
            },
    ;
}

/// What a typed read of `addr` gives.
pub open spec fn typed_spec<T: Record>(m: Map<Seq<u8>, AccountModel>, addr: Seq<u8>) -> Result<T::V, LedgerError> {
    if !m.contains_key(addr) {
        Err(LedgerError::NotFound)
    } else {
        match T::decoding(m[addr].data) {
            Some(v) => Ok(v),
            None => Err(LedgerError::DecodeError),
        }
    }
}

/// The view of a typed read's result.
pub open spec fn typed_view<T: Record>(r: Result<T, LedgerError>) -> Result<T::V, LedgerError> {
    match r {
        Ok(x) => Ok(x@),
        Err(e) => Err(e),
    }
}

/// The committed state of `addr`, as it is stored.
pub fn get_raw(store: &AccountStore, addr: &Address) -> (r: Result<Account, LedgerError>)
    requires
        store.wf(),
    ensures
        match r {
            Ok(a) => store@.contains_key(addr@) && a@ == store@[addr@],
            Err(e) => !store@.contains_key(addr@) && e == LedgerError::NotFound,
        },
{
    store.get(addr)
}

/// The data of `addr`, decoded as a `T`; the data must hold exactly one.
pub fn get_typed<T: Record>(store: &AccountStore, addr: &Address) -> (r: Result<T, LedgerError>)
    requires
        store.wf(),
    ensures
        typed_view(r) == typed_spec::<T>(store@, addr@),
{
    let account = store.get(addr)?;
    match T::decode(account.data.as_slice()) {
        Some(x) => Ok(x),
        None => Err(LedgerError::DecodeError),
    }
}

/// A record written into an account's data reads back as itself.
pub proof fn lemma_typed_round_trip<T: Record>(store: &AccountStore, addr: Address, rec: &T)
    requires
        store.wf(),
        store@.contains_key(addr@),
        store@[addr@].data == T::encoding(rec@),
    ensures
        typed_spec::<T>(store@, addr@) == Ok::<T::V, LedgerError>(rec@),
{
    T::lemma_round_trip(rec);
}

} // verus!
