use local_ledger::accessor::{get_raw, get_typed, Record};
use local_ledger::account::Account;
use local_ledger::address::Address;
use local_ledger::executor::{check_signatures, execute, Handler, TxError};
use local_ledger::instruction::{AccountMeta, AccountRef, Instruction, InstructionError, Transaction};
use local_ledger::store::{AccountStore, LedgerError};
use local_ledger::system::{create_account, transfer, MAX_PERMITTED_DATA_LENGTH};
use local_ledger::tip::TipPool;
use local_ledger::wallet::{Wallet, WalletInstruction};

fn addr(b: u8) -> Address {
    Address::new([b; 32])
}

fn wallet_program() -> Address {
    addr(200)
}

/// A wallet program that, on `Withdraw`, moves the amount from the vault (second
/// account) to the destination (fourth account), checking only that the third
/// account signed, never that it is the wallet's authority.
struct NaiveWallet;

impl Handler for NaiveWallet {
    fn handle(&self, program_id: &Address, accounts: &mut Vec<AccountRef>, payload: &Vec<u8>) -> Result<(), u32> {
        match WalletInstruction::decode(payload) {
            Some(WalletInstruction::Withdraw { amount }) => {
                if accounts.len() < 4 {
                    return Err(1);
                }
                if !accounts[2].is_signer {
                    return Err(2);
                }
                if accounts[1].account.owner != *program_id {
                    return Err(3);
                }
                if accounts[1].account.balance < amount {
                    return Err(4);
                }
                accounts[1].account.balance -= amount;
                accounts[3].account.balance += amount;
                Ok(())
            }
            _ => Err(9),
        }
    }
}

/// A program that writes a byte into the first account's data, refusing when it
/// does not own that account.
struct Scribbler {
    check_owner: bool,
}

impl Handler for Scribbler {
    fn handle(&self, program_id: &Address, accounts: &mut Vec<AccountRef>, _payload: &Vec<u8>) -> Result<(), u32> {
        if self.check_owner && accounts[0].account.owner != *program_id {
            return Err(77);
        }
        accounts[0].account.data = vec![42];
        Ok(())
    }
}

/// A program that drops the last account reference.
struct Truncator;

impl Handler for Truncator {
    fn handle(&self, _program_id: &Address, accounts: &mut Vec<AccountRef>, _payload: &Vec<u8>) -> Result<(), u32> {
        accounts.pop();
        Ok(())
    }
}

fn tx(instructions: Vec<Instruction>, signers: Vec<Address>) -> Transaction {
    Transaction { instructions, signers }
}

fn snapshot(store: &AccountStore, addrs: &[Address]) -> Vec<Result<Account, LedgerError>> {
    addrs.iter().map(|a| get_raw(store, a)).collect()
}

#[test]
fn empty_store_has_nothing() {
    let store = AccountStore::new();
    assert_eq!(store.len(), 0);
    assert_eq!(get_raw(&store, &addr(1)), Err(LedgerError::NotFound));
}

#[test]
fn credit_creates_then_adds() {
    let mut store = AccountStore::new();
    store.credit(&addr(1), 500).unwrap();
    let a = get_raw(&store, &addr(1)).unwrap();
    assert_eq!(a.balance, 500);
    assert_eq!(a.owner, Address::system());
    assert!(a.data.is_empty());
    assert!(!a.executable);
    store.credit(&addr(1), 250).unwrap();
    assert_eq!(get_raw(&store, &addr(1)).unwrap().balance, 750);
    assert_eq!(store.len(), 1);
}

#[test]
fn credit_overflow_is_refused() {
    let mut store = AccountStore::new();
    store.credit(&addr(1), u64::MAX).unwrap();
    assert_eq!(store.credit(&addr(1), 1), Err(LedgerError::BalanceOverflow));
    assert_eq!(get_raw(&store, &addr(1)).unwrap().balance, u64::MAX);
}

#[test]
fn put_replaces_and_remove_deletes() {
    let mut store = AccountStore::new();
    store.put(&addr(1), Account::new(5, addr(9), vec![1, 2], false));
    store.put(&addr(1), Account::new(6, addr(8), vec![3], true));
    assert_eq!(get_raw(&store, &addr(1)).unwrap(), Account::new(6, addr(8), vec![3], true));
    store.remove(&addr(1));
    assert_eq!(get_raw(&store, &addr(1)), Err(LedgerError::NotFound));
    store.remove(&addr(1));
    assert_eq!(store.len(), 0);
}

#[test]
fn balance_transfer() {
    let a = addr(1);
    let w = addr(2);
    let mut store = AccountStore::new();
    store.credit(&a, 25000).unwrap();
    let t = tx(vec![transfer(&a, &w, 10000)], vec![a]);
    assert_eq!(execute(&mut store, &t, &NaiveWallet), Ok(()));
    assert_eq!(get_raw(&store, &w).unwrap().balance, 10000);
    assert_eq!(get_raw(&store, &a).unwrap().balance, 15000);
}

#[test]
fn transfer_payload_matches_solana() {
    let a = addr(1);
    let w = addr(2);
    let ix = transfer(&a, &w, 10000);
    let theirs = solana_program::system_instruction::transfer(
        &solana_program::pubkey::Pubkey::new_from_array(a.bytes),
        &solana_program::pubkey::Pubkey::new_from_array(w.bytes),
        10000,
    );
    assert_eq!(ix.data, theirs.data);
    assert_eq!(ix.program_id.bytes, theirs.program_id.to_bytes());
    assert_eq!(ix.accounts.len(), 2);
    assert!(ix.accounts[0].is_signer && ix.accounts[0].is_writable);
    assert!(!ix.accounts[1].is_signer && ix.accounts[1].is_writable);
}

#[test]
fn create_account_payload_matches_solana() {
    let ix = create_account(&addr(1), &addr(2), 1000, 72, &wallet_program());
    let theirs = solana_program::system_instruction::create_account(
        &solana_program::pubkey::Pubkey::new_from_array([1; 32]),
        &solana_program::pubkey::Pubkey::new_from_array([2; 32]),
        1000,
        72,
        &solana_program::pubkey::Pubkey::new_from_array([200; 32]),
    );
    assert_eq!(ix.data, theirs.data);
}

#[test]
fn missing_signature_changes_nothing() {
    let a = addr(1);
    let w = addr(2);
    let mut store = AccountStore::new();
    store.credit(&a, 25000).unwrap();
    let before = snapshot(&store, &[a, w]);
    let t = tx(vec![transfer(&a, &w, 10000)], vec![w]);
    assert!(!check_signatures(&t));
    assert_eq!(execute(&mut store, &t, &NaiveWallet), Err(TxError::MissingSignature));
    assert_eq!(snapshot(&store, &[a, w]), before);
    assert_eq!(store.len(), 1);
}

#[test]
fn failing_instruction_rolls_back_the_whole_transaction() {
    let a = addr(1);
    let w = addr(2);
    let mut store = AccountStore::new();
    store.credit(&a, 25000).unwrap();
    let before = snapshot(&store, &[a, w]);
    let t = tx(vec![transfer(&a, &w, 10000), transfer(&a, &w, 20000)], vec![a]);
    assert_eq!(
        execute(&mut store, &t, &NaiveWallet),
        Err(TxError::InstructionFailed { index: 1, cause: InstructionError::InsufficientFunds })
    );
    assert_eq!(snapshot(&store, &[a, w]), before);
    assert_eq!(store.len(), 1);
}

#[test]
fn emptied_account_is_removed() {
    let a = addr(1);
    let w = addr(2);
    let mut store = AccountStore::new();
    store.credit(&a, 300).unwrap();
    let t = tx(vec![transfer(&a, &w, 300)], vec![a]);
    assert_eq!(execute(&mut store, &t, &NaiveWallet), Ok(()));
    assert_eq!(get_raw(&store, &a), Err(LedgerError::NotFound));
    assert_eq!(get_raw(&store, &w).unwrap().balance, 300);
}

#[test]
fn transfer_to_self_keeps_balance() {
    let a = addr(1);
    let mut store = AccountStore::new();
    store.credit(&a, 300).unwrap();
    let t = tx(vec![transfer(&a, &a, 100)], vec![a]);
    assert_eq!(execute(&mut store, &t, &NaiveWallet), Ok(()));
    assert_eq!(get_raw(&store, &a).unwrap().balance, 300);
}

#[test]
fn transfer_from_foreign_owned_account_is_refused() {
    let a = addr(1);
    let mut store = AccountStore::new();
    store.put(&a, Account::new(1000, wallet_program(), vec![], false));
    let t = tx(vec![transfer(&a, &addr(2), 10)], vec![a]);
    assert_eq!(
        execute(&mut store, &t, &NaiveWallet),
        Err(TxError::InstructionFailed { index: 0, cause: InstructionError::ExternalAccountLamportSpend })
    );
}

#[test]
fn transfer_from_account_with_data_is_refused() {
    let a = addr(1);
    let mut store = AccountStore::new();
    store.put(&a, Account::new(1000, Address::system(), vec![1], false));
    let t = tx(vec![transfer(&a, &addr(2), 10)], vec![a]);
    assert_eq!(
        execute(&mut store, &t, &NaiveWallet),
        Err(TxError::InstructionFailed { index: 0, cause: InstructionError::InvalidArgument })
    );
}

#[test]
fn transfer_overflowing_the_receiver_is_refused() {
    let a = addr(1);
    let w = addr(2);
    let mut store = AccountStore::new();
    store.credit(&a, 10).unwrap();
    store.credit(&w, u64::MAX).unwrap();
    let t = tx(vec![transfer(&a, &w, 10)], vec![a]);
    assert_eq!(
        execute(&mut store, &t, &NaiveWallet),
        Err(TxError::InstructionFailed { index: 0, cause: InstructionError::ArithmeticOverflow })
    );
}

#[test]
fn unsigned_system_account_in_signed_transaction_is_refused() {
    let a = addr(1);
    let mut store = AccountStore::new();
    store.credit(&a, 1000).unwrap();
    let mut ix = transfer(&a, &addr(2), 10);
    ix.accounts[0].is_signer = false;
    let t = tx(vec![ix], vec![]);
    assert_eq!(
        execute(&mut store, &t, &NaiveWallet),
        Err(TxError::InstructionFailed { index: 0, cause: InstructionError::MissingRequiredSignature })
    );
}

#[test]
fn create_account_allocates_zeroed_data_for_owner() {
    let payer = addr(1);
    let fresh = addr(3);
    let mut store = AccountStore::new();
    store.credit(&payer, 5000).unwrap();
    let t = tx(vec![create_account(&payer, &fresh, 1000, 72, &wallet_program())], vec![payer, fresh]);
    assert_eq!(execute(&mut store, &t, &NaiveWallet), Ok(()));
    let created = get_raw(&store, &fresh).unwrap();
    assert_eq!(created, Account::new(1000, wallet_program(), vec![0; 72], false));
    assert_eq!(get_raw(&store, &payer).unwrap().balance, 4000);
    assert_eq!(
        execute(&mut store, &t, &NaiveWallet),
        Err(TxError::InstructionFailed { index: 0, cause: InstructionError::AccountAlreadyInUse })
    );
}

#[test]
fn create_account_over_size_limit_is_refused() {
    let payer = addr(1);
    let fresh = addr(3);
    let mut store = AccountStore::new();
    store.credit(&payer, 5000).unwrap();
    let ix = create_account(&payer, &fresh, 1000, MAX_PERMITTED_DATA_LENGTH + 1, &wallet_program());
    let t = tx(vec![ix], vec![payer, fresh]);
    assert_eq!(
        execute(&mut store, &t, &NaiveWallet),
        Err(TxError::InstructionFailed { index: 0, cause: InstructionError::InvalidAccountDataLength })
    );
}

#[test]
fn malformed_system_payload_is_refused() {
    let a = addr(1);
    let mut store = AccountStore::new();
    store.credit(&a, 1000).unwrap();
    let mut ix = transfer(&a, &addr(2), 10);
    ix.data.push(0);
    assert_eq!(
        execute(&mut store, &tx(vec![ix], vec![a]), &NaiveWallet),
        Err(TxError::InstructionFailed { index: 0, cause: InstructionError::InvalidInstructionData })
    );
    let mut short = transfer(&a, &addr(2), 10);
    short.accounts.pop();
    assert_eq!(
        execute(&mut store, &tx(vec![short], vec![a]), &NaiveWallet),
        Err(TxError::InstructionFailed { index: 0, cause: InstructionError::NotEnoughAccountKeys })
    );
}

#[test]
fn readonly_account_cannot_be_debited() {
    let a = addr(1);
    let mut store = AccountStore::new();
    store.credit(&a, 1000).unwrap();
    let mut ix = transfer(&a, &addr(2), 10);
    ix.accounts[0].is_writable = false;
    assert_eq!(
        execute(&mut store, &tx(vec![ix], vec![a]), &NaiveWallet),
        Err(TxError::InstructionFailed { index: 0, cause: InstructionError::ReadonlyModified })
    );
    assert_eq!(get_raw(&store, &a).unwrap().balance, 1000);
}

#[test]
fn handler_that_changes_references_fails() {
    let mut store = AccountStore::new();
    store.credit(&addr(1), 1000).unwrap();
    let ix = Instruction {
        program_id: wallet_program(),
        accounts: vec![AccountMeta::new(addr(1), false), AccountMeta::new(addr(2), false)],
        data: vec![],
    };
    assert_eq!(
        execute(&mut store, &tx(vec![ix], vec![]), &Truncator),
        Err(TxError::InstructionFailed { index: 0, cause: InstructionError::ReferencesChanged })
    );
}

#[test]
fn handler_checking_ownership_rejects_foreign_data() {
    let target = addr(5);
    let mut store = AccountStore::new();
    store.put(&target, Account::new(1000, addr(99), vec![0], false));
    let ix = Instruction {
        program_id: wallet_program(),
        accounts: vec![AccountMeta::new(target, false)],
        data: vec![],
    };
    let t = tx(vec![ix], vec![]);
    assert_eq!(
        execute(&mut store, &t, &Scribbler { check_owner: true }),
        Err(TxError::InstructionFailed { index: 0, cause: InstructionError::Custom(77) })
    );
    assert_eq!(get_raw(&store, &target).unwrap().data, vec![0]);
    // The ledger itself does not enforce ownership of data.
    assert_eq!(execute(&mut store, &t, &Scribbler { check_owner: false }), Ok(()));
    assert_eq!(get_raw(&store, &target).unwrap().data, vec![42]);
}

#[test]
fn unauthorized_withdrawal_succeeds_when_handler_skips_role_check() {
    let program = wallet_program();
    let owner = addr(10);
    let hacker = addr(11);
    let (vault, _) = local_ledger::address::derive(&program, &vec![owner.bytes.to_vec(), b"VAULT".to_vec()]).unwrap();
    let mut store = AccountStore::new();
    store.put(&vault, Account::new(10000, program, vec![], false));
    store.credit(&hacker, 1000000).unwrap();
    let ix = Instruction {
        program_id: program,
        accounts: vec![
            AccountMeta::new(addr(12), false),
            AccountMeta::new(vault, false),
            AccountMeta::new_readonly(owner, false),
            AccountMeta::new(hacker, true),
        ],
        data: WalletInstruction::Withdraw { amount: 10000 }.encode(),
    };
    let t = tx(vec![ix.clone()], vec![]);
    assert_eq!(execute(&mut store, &t, &NaiveWallet), Err(TxError::MissingSignature));
    // The naive program checks that the third account signed; the owner did not.
    let mut ix2 = ix.clone();
    ix2.accounts[2] = AccountMeta::new_readonly(hacker, true);
    let t2 = tx(vec![ix2], vec![hacker]);
    assert_eq!(execute(&mut store, &t2, &NaiveWallet), Ok(()));
    assert_eq!(get_raw(&store, &vault), Err(LedgerError::NotFound));
    assert_eq!(get_raw(&store, &hacker).unwrap().balance, 1010000);
}

#[test]
fn handler_error_code_rolls_back() {
    let mut store = AccountStore::new();
    store.credit(&addr(1), 1000).unwrap();
    let a = addr(1);
    let ix = Instruction {
        program_id: wallet_program(),
        accounts: vec![AccountMeta::new(a, true)],
        data: vec![5],
    };
    let t = tx(vec![transfer(&a, &addr(2), 100), ix], vec![a]);
    assert_eq!(
        execute(&mut store, &t, &NaiveWallet),
        Err(TxError::InstructionFailed { index: 1, cause: InstructionError::Custom(9) })
    );
    assert_eq!(get_raw(&store, &a).unwrap().balance, 1000);
    assert_eq!(get_raw(&store, &addr(2)), Err(LedgerError::NotFound));
}

#[test]
fn typed_read_round_trips_a_wallet() {
    let w = Wallet { authority: addr(1), vault: addr(2) };
    let mut store = AccountStore::new();
    store.put(&addr(3), Account::new(10, wallet_program(), w.encode(), false));
    assert_eq!(get_typed::<Wallet>(&store, &addr(3)), Ok(w));
}

#[test]
fn typed_read_round_trips_a_tip_pool() {
    let p = TipPool { withdraw_authority: addr(1), value: 123456789, vault: addr(2) };
    let mut store = AccountStore::new();
    store.put(&addr(3), Account::new(10, wallet_program(), p.encode(), false));
    assert_eq!(get_typed::<TipPool>(&store, &addr(3)), Ok(p));
}

#[test]
fn typed_read_refuses_wrong_length() {
    let w = Wallet { authority: addr(1), vault: addr(2) };
    let mut data = w.encode();
    data.push(0);
    let mut store = AccountStore::new();
    store.put(&addr(3), Account::new(10, wallet_program(), data, false));
    assert_eq!(get_typed::<Wallet>(&store, &addr(3)), Err(LedgerError::DecodeError));
    assert_eq!(get_typed::<Wallet>(&store, &addr(4)), Err(LedgerError::NotFound));
}

#[test]
fn wallet_layout_matches_borsh() {
    let w = Wallet { authority: addr(1), vault: addr(2) };
    let theirs = borsh::to_vec(&([1u8; 32], [2u8; 32])).unwrap();
    assert_eq!(w.encode(), theirs);
}

#[test]
fn tip_pool_layout_matches_borsh() {
    let p = TipPool { withdraw_authority: addr(1), value: 77, vault: addr(2) };
    let theirs = borsh::to_vec(&([1u8; 32], 77u64, [2u8; 32])).unwrap();
    assert_eq!(p.encode(), theirs);
    assert_eq!(p.encode().len(), 72);
}

#[test]
fn wallet_instruction_layout() {
    assert_eq!(WalletInstruction::Initialize.encode(), vec![0]);
    assert_eq!(
        WalletInstruction::Deposit { amount: 10000 }.encode(),
        borsh::to_vec(&(1u8, 10000u64)).unwrap()
    );
    assert_eq!(
        WalletInstruction::Withdraw { amount: 5 }.encode(),
        vec![2, 5, 0, 0, 0, 0, 0, 0, 0]
    );
    assert_eq!(WalletInstruction::decode(&[2, 5, 0, 0, 0, 0, 0, 0, 0]), Some(WalletInstruction::Withdraw { amount: 5 }));
    assert_eq!(WalletInstruction::decode(&[3]), None);
    assert_eq!(WalletInstruction::decode(&[0, 0]), None);
}
