use vstd::prelude::*;

use crate::account::{empty_model, AccountModel};
use crate::address::{system_id, Address};
use crate::instruction::{
    lemma_refs_view_push, refs_view, AccountRef, AccountRefModel, Instruction, InstructionError, InstructionModel, MetaModel,
    Transaction,
};
use crate::store::{funded_only, AccountStore};
use crate::system::{lemma_system_payload_round_trip, process, system_payload, system_process, SystemCall};

verus! {

/// The programs that the ledger runs, other than the system namespace.
pub trait Handler {
    /// Runs the logic of `program_id` on the accounts it is handed, in the order the
    /// instruction lists them. The ledger keeps what it changed only when it returns
    /// `Ok`; an `Err` carries the program's own code.
    fn handle(&self, program_id: &Address, accounts: &mut Vec<AccountRef>, payload: &Vec<u8>) -> Result<
        (),
        u32,
    >;
}

/// Why a transaction left the store unchanged.
#[derive(Clone, Copy, Debug, PartialEq, Eq, Structural)]
pub enum TxError {
    /// An account that an instruction marks as signer is not among the signers.
    MissingSignature,
    /// The instruction at `index` failed.
    InstructionFailed { index: usize, cause: InstructionError },
}

/// What a handler left: the references after its run, or its error code.
pub type HandlerOutcome = Result<Seq<AccountRefModel>, u32>;

/// Whether every reference marked as signer is among the signers.
pub open spec fn signatures_present(ixs: Seq<InstructionModel>, signers: Seq<Seq<u8>>) -> bool {
    forall|k: int, j: int|
        0 <= k < ixs.len() && 0 <= j < ixs[k].metas.len() && (#[trigger] ixs[k].metas[j]).is_signer
            ==> signers.contains(ixs[k].metas[j].address)
}

/// The account under `a`, or the empty system-owned account when there is none.
pub open spec fn lookup(m: Map<Seq<u8>, AccountModel>, a: Seq<u8>) -> AccountModel {
    if m.contains_key(a) {
        m[a]
    } else {
        empty_model()
    }
}

/// The references that a program is handed for the accounts `metas` names.
pub open spec fn handed(m: Map<Seq<u8>, AccountModel>, metas: Seq<MetaModel>) -> Seq<AccountRefModel> {
    metas.map_values(
        |x: MetaModel|
            AccountRefModel {
                address: x.address,
                is_signer: x.is_signer,
                is_writable: x.is_writable,
                account: lookup(m, x.address),
            },
    )
}

/// Whether a program left the list of references as it was handed: the same
/// addresses, with the same flags, in the same order.
pub open spec fn same_refs(before: Seq<AccountRefModel>, after: Seq<AccountRefModel>) -> bool {
    &&& before.len() == after.len()
    &&& forall|j: int|
        0 <= j < before.len() ==> (#[trigger] after[j]).address == before[j].address
            && after[j].is_signer == before[j].is_signer && after[j].is_writable == before[j].is_writable
}

/// Whether every read-only reference kept its account.
pub open spec fn readonly_kept(before: Seq<AccountRefModel>, after: Seq<AccountRefModel>) -> bool {
    forall|j: int|
        0 <= j < before.len() && !before[j].is_writable ==> (#[trigger] after[j]).account
            == before[j].account
}

/// The store after the first `n` changed references are written back, in order.
pub open spec fn write_back(
    m: Map<Seq<u8>, AccountModel>,
    before: Seq<AccountRefModel>,
    after: Seq<AccountRefModel>,
    n: int,
) -> Map<Seq<u8>, AccountModel>
    decreases n,
{
    if n <= 0 {
        m
    } else {
        let prior = write_back(m, before, after, n - 1);
        if after[n - 1].account != before[n - 1].account {
            prior.insert(after[n - 1].address, after[n - 1].account)
        } else {
            prior
        }
    }
}

/// What a program's changes do to the store.
pub open spec fn apply_spec(
    m: Map<Seq<u8>, AccountModel>,
    before: Seq<AccountRefModel>,
    after: Seq<AccountRefModel>,
) -> Result<Map<Seq<u8>, AccountModel>, InstructionError> {
    if !same_refs(before, after) {
        Err(InstructionError::ReferencesChanged)
    } else if !readonly_kept(before, after) {
        Err(InstructionError::ReadonlyModified)
    } else {
        Ok(write_back(m, before, after, after.len() as int))
    }
}

/// What one instruction does to the store. A program other than the system
/// namespace is represented by what it left, `out`.
pub open spec fn step(m: Map<Seq<u8>, AccountModel>, ix: InstructionModel, out: HandlerOutcome) -> Result<
    Map<Seq<u8>, AccountModel>,
    InstructionError,
> {
    let before = handed(m, ix.metas);
    let result = if ix.program == system_id() {
        system_process(before, ix.data)
    } else {
        match out {
            Ok(after) => Ok(after),
            Err(code) => Err(InstructionError::Custom(code)),
        }
    };
    match result {
        Ok(after) => apply_spec(m, before, after),
        Err(e) => Err(e),
    }
}

/// The working state after the first `n` instructions, or the index and cause of
/// the first that failed.
pub open spec fn run(
    m: Map<Seq<u8>, AccountModel>,
    ixs: Seq<InstructionModel>,
    outs: Seq<HandlerOutcome>,
    n: int,
) -> Result<Map<Seq<u8>, AccountModel>, (int, InstructionError)>
    decreases n,
{
    if n <= 0 {
        Ok(m)
    } else {
        match run(m, ixs, outs, n - 1) {
            Ok(prior) => match step(prior, ixs[n - 1], outs[n - 1]) {
                Ok(next) => Ok(next),
                Err(e) => Err((n - 1, e)),
            },
            Err(failed) => Err(failed),
        }
    }
}

/// Whether a transaction's result and the store after it agree with a run of its
/// instructions in which the programs left `outs`.
pub open spec fn outcome_matches(
    m: Map<Seq<u8>, AccountModel>,
    ixs: Seq<InstructionModel>,
    outs: Seq<HandlerOutcome>,
    r: Result<(), TxError>,
    post: Map<Seq<u8>, AccountModel>,
) -> bool {
    match run(m, ixs, outs, ixs.len() as int) {
        Ok(w) => r is Ok && post == funded_only(w),
        Err((k, e)) => r is Err && r->Err_0 == (TxError::InstructionFailed { index: k as usize, cause: e })
            && post == m,
    }
}

/// Whether every instruction goes to the system namespace.
pub open spec fn all_system(ixs: Seq<InstructionModel>) -> bool {
    forall|k: int| 0 <= k < ixs.len() ==> (#[trigger] ixs[k]).program == system_id()
}

/// Outcomes for runs in which no program but the system namespace is called.
pub open spec fn no_outs(n: int) -> Seq<HandlerOutcome> {
    Seq::new(n as nat, |i: int| Err(0u32))
}

proof fn lemma_run_agree(
    m: Map<Seq<u8>, AccountModel>,
    ixs: Seq<InstructionModel>,
    o1: Seq<HandlerOutcome>,
    o2: Seq<HandlerOutcome>,
    n: int,
)
    requires
        forall|i: int| 0 <= i < n && ixs[i].program != system_id() ==> o1[i] == o2[i],
    ensures
        run(m, ixs, o1, n) == run(m, ixs, o2, n),
    decreases n,
{
    if n > 0 {
        lemma_run_agree(m, ixs, o1, o2, n - 1);
        if ixs[n - 1].program != system_id() {
            assert(o1[n - 1] == o2[n - 1]);
        }
    }
}

proof fn lemma_run_failure_stays(
    m: Map<Seq<u8>, AccountModel>,
    ixs: Seq<InstructionModel>,
    outs: Seq<HandlerOutcome>,
    k: int,
    n: int,
)
    requires
        0 <= k < n,
        run(m, ixs, outs, k + 1) is Err,
    ensures
        run(m, ixs, outs, n) == run(m, ixs, outs, k + 1),
    decreases n,
{
    if n > k + 1 {
        lemma_run_failure_stays(m, ixs, outs, k, n - 1);
    }
}

/// The instruction that moves `amount` from `from`, which signs, to `to`.
pub open spec fn transfer_model(from: Seq<u8>, to: Seq<u8>, amount: u64) -> InstructionModel {
    InstructionModel {
        program: system_id(),
        metas: seq![
            MetaModel { address: from, is_signer: true, is_writable: true },
            MetaModel { address: to, is_signer: false, is_writable: true },
        ],
        data: system_payload(SystemCall::Transfer { lamports: amount }),
    }
}

/// A transfer between two distinct accounts that the payer can afford and the
/// receiver can hold debits the payer and credits the receiver by exactly the
/// amount, and changes nothing else.
pub proof fn lemma_transfer_moves_balance(m: Map<Seq<u8>, AccountModel>, from: Seq<u8>, to: Seq<u8>, amount: u64)
    requires
        from != to,
        amount > 0,
        m.contains_key(from),
        m[from].owner == system_id(),
        m[from].data.len() == 0,
        m[from].balance >= amount,
        lookup(m, to).balance + amount <= u64::MAX,
    ensures
        run(m, seq![transfer_model(from, to, amount)], no_outs(1), 1) == Ok::<
            Map<Seq<u8>, AccountModel>,
            (int, InstructionError),
        >(
            m.insert(from, AccountModel { balance: (m[from].balance - amount) as u64, ..m[from] }).insert(
                to,
                AccountModel { balance: (lookup(m, to).balance + amount) as u64, ..lookup(m, to) },
            ),
        ),
{
    let ix = transfer_model(from, to, amount);
    lemma_system_payload_round_trip(SystemCall::Transfer { lamports: amount });
    let before = handed(m, ix.metas);
    assert(before[0].account == m[from]);
    assert(before[1].account == lookup(m, to));
    let after = system_process(before, ix.data)->Ok_0;
    assert(same_refs(before, after));
    assert(readonly_kept(before, after));
    assert(after[0].account != before[0].account);
    assert(after[1].account != before[1].account);
    let expected = m.insert(from, AccountModel { balance: (m[from].balance - amount) as u64, ..m[from] }).insert(
        to,
        AccountModel { balance: (lookup(m, to).balance + amount) as u64, ..lookup(m, to) },
    );
    assert(write_back(m, before, after, 0) == m);
    assert(write_back(m, before, after, 1) == m.insert(from, after[0].account));
    assert(write_back(m, before, after, 2) == expected);
    assert(after.len() == 2);
    assert(apply_spec(m, before, after) == Ok::<Map<Seq<u8>, AccountModel>, InstructionError>(expected));
    let ixs = seq![ix];
    assert(ixs[0] == ix);
    assert(step(m, ix, no_outs(1)[0]) == Ok::<Map<Seq<u8>, AccountModel>, InstructionError>(expected));
    assert(run(m, ixs, no_outs(1), 0) == Ok::<Map<Seq<u8>, AccountModel>, (int, InstructionError)>(m));
}

fn is_signed(signers: &Vec<Address>, a: &Address) -> (r: bool)
    ensures
        r == signers@.map_values(|s: Address| s@).contains(a@),
{
    let ghost sv = signers@.map_values(|s: Address| s@);
    let mut i: usize = 0;
    while i < signers.len()
        invariant
            0 <= i <= signers@.len(),
            sv == signers@.map_values(|s: Address| s@),
            forall|j: int| 0 <= j < i ==> sv[j] != a@,
        decreases signers@.len() - i,
    {
        if signers[i] == *a {
            assert(sv[i as int] == a@);
            return true;
        }
        i = i + 1;
    }
    false
}

/// Whether every account that an instruction of `tx` marks as signer has signed it.
pub fn check_signatures(tx: &Transaction) -> (r: bool)
    ensures
        r == signatures_present(tx.instructions_view(), tx.signers_view()),
{
    let ghost ixs = tx.instructions_view();
    let mut k: usize = 0;
    while k < tx.instructions.len()
        invariant
            0 <= k <= tx.instructions@.len(),
            ixs == tx.instructions_view(),
            forall|a: int, j: int|
                0 <= a < k && 0 <= j < ixs[a].metas.len() && (#[trigger] ixs[a].metas[j]).is_signer
                    ==> tx.signers_view().contains(ixs[a].metas[j].address),
        decreases tx.instructions@.len() - k,
    {
        let ix = &tx.instructions[k];
        assert(ixs[k as int] == ix@);
        let mut j: usize = 0;
        while j < ix.accounts.len()
            invariant
                0 <= k < tx.instructions@.len(),
                0 <= j <= ix.accounts@.len(),
                ixs == tx.instructions_view(),
                ixs[k as int] == ix@,
                forall|a: int, b: int|
                    0 <= a < k && 0 <= b < ixs[a].metas.len() && (#[trigger] ixs[a].metas[b]).is_signer
                        ==> tx.signers_view().contains(ixs[a].metas[b].address),
                forall|b: int|
                    0 <= b < j && (#[trigger] ixs[k as int].metas[b]).is_signer
                        ==> tx.signers_view().contains(ixs[k as int].metas[b].address),
            decreases ix.accounts@.len() - j,
        {
            let meta = ix.accounts[j];
            assert(ixs[k as int].metas[j as int] == meta@);
            if meta.is_signer && !is_signed(&tx.signers, &meta.address) {
                return false;
            }
            j = j + 1;
        }
        k = k + 1;
    }
    true
}

/// The references that the accounts of `ix` are handed as.
fn build_refs(working: &AccountStore, ix: &Instruction) -> (r: Vec<AccountRef>)
    requires
        working.wf(),
    ensures
        refs_view(r@) == handed(working@, ix@.metas),
{
    let ghost full = handed(working@, ix@.metas);
    let mut refs: Vec<AccountRef> = Vec::new();
    let mut j: usize = 0;
    while j < ix.accounts.len()
        invariant
            working.wf(),
            0 <= j <= ix.accounts@.len(),
            full == handed(working@, ix@.metas),
            full.len() == ix.accounts@.len(),
            refs_view(refs@) == full.subrange(0, j as int),
        decreases ix.accounts@.len() - j,
    {
        let meta = ix.accounts[j];
        let account = working.get_or_empty(&meta.address);
        let ghost prev = refs@;
        let item = AccountRef { address: meta.address, is_signer: meta.is_signer, is_writable: meta.is_writable, account };
        refs.push(item);
        proof {
            lemma_refs_view_push(prev, item);
            assert(ix@.metas[j as int] == meta@);
            assert(full[j as int] == item@);
            assert(refs_view(refs@) =~= full.subrange(0, j + 1));
        }
        j = j + 1;
    }
    assert(full.subrange(0, full.len() as int) =~= full);
    refs
}

/// Writes back what a program changed, after checking that it kept the list of
/// references and every read-only account.
fn apply_returned(working: &mut AccountStore, before: &Vec<AccountRef>, after: &Vec<AccountRef>) -> (r:
    Result<(), InstructionError>)
    requires
        old(working).wf(),
    ensures
        final(working).wf(),
        match apply_spec(old(working)@, refs_view(before@), refs_view(after@)) {
            Ok(m) => r is Ok && final(working)@ == m,
            Err(e) => r is Err && r->Err_0 == e,
        },
{
    let ghost bv = refs_view(before@);
    let ghost av = refs_view(after@);
    if before.len() != after.len() {
        return Err(InstructionError::ReferencesChanged);
    }
    let n = before.len();
    let mut j: usize = 0;
    while j < n
        invariant
            n == before@.len() && n == after@.len(),
            bv == refs_view(before@) && av == refs_view(after@),
            working.wf(),
            0 <= j <= n,
            forall|i: int|
                0 <= i < j ==> (#[trigger] av[i]).address == bv[i].address && av[i].is_signer
                    == bv[i].is_signer && av[i].is_writable == bv[i].is_writable,
        decreases n - j,
    {
        let b = &before[j];
        let a = &after[j];
        if a.address != b.address || a.is_signer != b.is_signer || a.is_writable != b.is_writable {
            assert(!((av[j as int]).address == bv[j as int].address && av[j as int].is_signer == bv[j as int].is_signer
                && av[j as int].is_writable == bv[j as int].is_writable));
            return Err(InstructionError::ReferencesChanged);
        }
        j = j + 1;
    }
    assert(same_refs(bv, av));
    j = 0;
    while j < n
        invariant
            n == before@.len() && n == after@.len(),
            bv == refs_view(before@) && av == refs_view(after@),
            same_refs(bv, av),
            working.wf(),
            0 <= j <= n,
            forall|i: int| 0 <= i < j && !bv[i].is_writable ==> (#[trigger] av[i]).account == bv[i].account,
        decreases n - j,
    {
        if !before[j].is_writable && !before[j].account.same_state(&after[j].account) {
            assert(!bv[j as int].is_writable && av[j as int].account != bv[j as int].account);
            return Err(InstructionError::ReadonlyModified);
        }
        j = j + 1;
    }
    assert(readonly_kept(bv, av));
    let ghost m0 = working@;
    j = 0;
    while j < n
        invariant
            n == before@.len() && n == after@.len(),
            bv == refs_view(before@) && av == refs_view(after@),
            0 <= j <= n,
            working.wf(),
            working@ == write_back(m0, bv, av, j as int),
        decreases n - j,
    {
        if !before[j].account.same_state(&after[j].account) {
            working.put(&after[j].address, after[j].account.duplicate());
        }
        j = j + 1;
    }
    Ok(())
}

/// Runs one instruction on the working store; the ghost part of the result is what
/// the handler left, when it was called.
fn run_instruction<H: Handler>(working: &mut AccountStore, ix: &Instruction, handler: &H) -> (r: (
    Result<(), InstructionError>,
    Ghost<HandlerOutcome>,
))
    requires
        old(working).wf(),
    ensures
        final(working).wf(),
        match step(old(working)@, ix@, r.1@) {
            Ok(m) => r.0 is Ok && final(working)@ == m,
            Err(e) => r.0 is Err && r.0->Err_0 == e,
        },
{
    let before = build_refs(working, ix);
    let mut refs = build_refs(working, ix);
    if ix.program_id == Address::system() {
        match process(&mut refs, &ix.data) {
            Ok(()) => {},
            Err(e) => {
                return (Err(e), Ghost(Err(0u32)));
            },
        }
        let r = apply_returned(working, &before, &refs);
        (r, Ghost(Err(0u32)))
    } else {
        match handler.handle(&ix.program_id, &mut refs, &ix.data) {
            Ok(()) => {
                let ghost out: HandlerOutcome = Ok(refs_view(refs@));
                let r = apply_returned(working, &before, &refs);
                (r, Ghost(out))
            },
            Err(code) => (Err(InstructionError::Custom(code)), Ghost(Err(code))),
        }
    }
}

/// Applies the instructions of `tx` in order as one atomic step. When every
/// instruction succeeds the store takes their combined effect, without the
/// accounts that end with a zero balance; otherwise it is left exactly as it was.
pub fn execute<H: Handler>(store: &mut AccountStore, tx: &Transaction, handler: &H) -> (r: Result<(), TxError>)
    requires
        old(store).wf(),
    ensures
        final(store).wf(),
        r is Err ==> *final(store) == *old(store),
        !signatures_present(tx.instructions_view(), tx.signers_view()) ==> r is Err && r->Err_0
            == TxError::MissingSignature,
        signatures_present(tx.instructions_view(), tx.signers_view()) ==> exists|outs: Seq<HandlerOutcome>|
            outs.len() == tx.instructions@.len() && #[trigger] outcome_matches(
                old(store)@,
                tx.instructions_view(),
                outs,
                r,
                final(store)@,
            ),
        signatures_present(tx.instructions_view(), tx.signers_view()) && all_system(tx.instructions_view())
            ==> outcome_matches(
            old(store)@,
            tx.instructions_view(),
            no_outs(tx.instructions@.len() as int),
            r,
            final(store)@,
        ),
{
    if !check_signatures(tx) {
        return Err(TxError::MissingSignature);
    }
    let ghost ixs = tx.instructions_view();
    let ghost m0 = store@;
    let ghost n = tx.instructions@.len() as int;
    let mut working = store.duplicate();
    let ghost mut outs: Seq<HandlerOutcome> = Seq::empty();
    let mut k: usize = 0;
    while k < tx.instructions.len()
        invariant
            *store == *old(store),
            store.wf(),
            signatures_present(ixs, tx.signers_view()),
            m0 == old(store)@,
            ixs == tx.instructions_view(),
            n == tx.instructions@.len(),
            working.wf(),
            0 <= k <= n,
            outs.len() == k,
            run(m0, ixs, outs, k as int) == Ok::<Map<Seq<u8>, AccountModel>, (int, InstructionError)>(working@),
        decreases n - k,
    {
        let (res, Ghost(out)) = run_instruction(&mut working, &tx.instructions[k], handler);
        proof {
            let prev = outs;
            outs = outs.push(out);
            lemma_run_agree(m0, ixs, prev, outs, k as int);
            assert(ixs[k as int] == tx.instructions@[k as int]@);
        }
        match res {
            Ok(()) => {},
            Err(e) => {
                let r: Result<(), TxError> = Err(TxError::InstructionFailed { index: k, cause: e });
                proof {
                    let full = outs + no_outs(n - k - 1);
                    lemma_run_agree(m0, ixs, outs, full, k + 1);
                    lemma_run_failure_stays(m0, ixs, full, k as int, n);
                    assert(outcome_matches(m0, ixs, full, r, store@));
                    if all_system(ixs) {
                        lemma_run_agree(m0, ixs, full, no_outs(n), n);
                    }
                }
                return r;
            },
        }
        k = k + 1;
    }
    working.drop_unfunded();
    *store = working;
    proof {
        assert(outcome_matches(m0, ixs, outs, Ok(()), store@));
        if all_system(ixs) {
            lemma_run_agree(m0, ixs, outs, no_outs(n), n);
        }
    }
    Ok(())
}

} // verus!
