use vstd::prelude::*;

verus! {

/// Most seeds that one derivation accepts, the bump seed included.
pub const MAX_SEEDS: usize = 16;

/// Longest seed, in bytes.
pub const MAX_SEED_LEN: usize = 32;

/// A 32-byte account or program identifier.
#[derive(Clone, Copy, Debug)]
pub struct Address {
    pub bytes: [u8; 32],
}

impl View for Address {
    type V = Seq<u8>;

    open spec fn view(&self) -> Seq<u8> {
        self.bytes@
    }
}

impl PartialEq for Address {
    fn eq(&self, other: &Address) -> (r: bool) {
        let mut i: usize = 0;
        while i < 32
            invariant
                0 <= i <= 32,
                self@.len() == 32,
                other@.len() == 32,
                forall|j: int| 0 <= j < i ==> self@[j] == other@[j],
            decreases 32 - i,
        {
            if self.bytes[i] != other.bytes[i] {
                return false;
            }
            i = i + 1;
        }
        assert(self@ =~= other@);
        true
    }
}

impl vstd::std_specs::cmp::PartialEqSpecImpl for Address {
    open spec fn obeys_eq_spec() -> bool {
        true
    }

    open spec fn eq_spec(&self, other: &Address) -> bool {
        self@ == other@
    }
}

impl Eq for Address {
}

/// The bytes of the system namespace: thirty-two zeros.
pub open spec fn system_id() -> Seq<u8> {
    Seq::new(32, |i: int| 0u8)
}

impl Address {
    /// The address whose bytes are `bytes`.
    pub fn new(bytes: [u8; 32]) -> (r: Address)
        ensures
            r@ == bytes@,
    {
        Address { bytes }
    }

    /// The reserved owner of accounts that no program has claimed.
    pub fn system() -> (r: Address)
        ensures
            r@ == system_id(),
    {
        let r = Address { bytes: [0u8; 32] };
        assert(r@ =~= system_id());
        r
    }

    /// The address as a byte vector, for use as a seed.
    pub fn to_vec(&self) -> (r: Vec<u8>)
        ensures
            r@ == self@,
    {
        let mut r: Vec<u8> = Vec::new();
        let mut i: usize = 0;
        while i < 32
            invariant
                0 <= i <= 32,
                self@.len() == 32,
                r@ == self@.subrange(0, i as int),
            decreases 32 - i,
        {
            r.push(self.bytes[i]);
            i = i + 1;
        }
        assert(r@ =~= self@);
        r
    }

    /// Whether the address is a point of the curve that ordinary signing keys live on.
    pub fn is_on_curve(&self) -> (r: bool)
        ensures
            r == on_curve(self@),
    {
        bytes_are_curve_point(self)
    }
}

/// Why an address could not be derived.
#[derive(Clone, Copy, Debug, PartialEq, Eq, Structural)]
pub enum DeriveError {
    /// No bump seed in 0..=255 gave an address off the curve.
    NoValidBump,
    /// The candidate address lies on the curve, so a signing key may exist for it.
    InvalidSeeds,
    /// Too many seeds, or one longer than `MAX_SEED_LEN`.
    MaxSeedLengthExceeded,
}

/// Whether `bytes` decompress to a point of the ed25519 curve.
pub uninterp spec fn on_curve(bytes: Seq<u8>) -> bool;

/// The SHA-256 digest of the seeds, the program id and the derivation marker.
pub uninterp spec fn program_address_hash(seeds: Seq<Seq<u8>>, program: Seq<u8>) -> Seq<u8>;

/// The byte sequences that a vector of seeds holds.
pub open spec fn seeds_view(seeds: Seq<Vec<u8>>) -> Seq<Seq<u8>> {
    seeds.map_values(|s: Vec<u8>| s@)
}

/// Whether the seeds are few enough and short enough to be hashed.
pub open spec fn seeds_within_limits(seeds: Seq<Seq<u8>>) -> bool {
    &&& seeds.len() <= MAX_SEEDS
    &&& forall|i: int| 0 <= i < seeds.len() ==> #[trigger] seeds[i].len() <= MAX_SEED_LEN
}

/// What a derivation with exactly these seeds gives.
pub open spec fn derive_exact_spec(seeds: Seq<Seq<u8>>, program: Seq<u8>) -> Result<Seq<u8>, DeriveError> {
    if !seeds_within_limits(seeds) {
        Err(DeriveError::MaxSeedLengthExceeded)
    } else if on_curve(program_address_hash(seeds, program)) {
        Err(DeriveError::InvalidSeeds)
    } else {
        Ok(program_address_hash(seeds, program))
    }
}

/// Whether `bump`, appended as a last one-byte seed, gives an address off the curve.
pub open spec fn bump_works(seeds: Seq<Seq<u8>>, program: Seq<u8>, bump: u8) -> bool {
    !on_curve(program_address_hash(seeds.push(seq![bump]), program))
}

/// The largest bump in `0..=from` that works, if any.
pub open spec fn largest_bump(seeds: Seq<Seq<u8>>, program: Seq<u8>, from: int) -> Option<u8>
    decreases from + 1,
{
    if from < 0 || from > 255 {
        None
    } else if bump_works(seeds, program, from as u8) {
        Some(from as u8)
    } else {
        largest_bump(seeds, program, from - 1)
    }
}

/// What a derivation that searches for the bump gives.
pub open spec fn derive_spec(seeds: Seq<Seq<u8>>, program: Seq<u8>) -> Result<(Seq<u8>, u8), DeriveError> {
    if !(seeds.len() < MAX_SEEDS && seeds_within_limits(seeds)) {
        Err(DeriveError::MaxSeedLengthExceeded)
    } else {
        match largest_bump(seeds, program, 255) {
            Some(b) => Ok((program_address_hash(seeds.push(seq![b]), program), b)),
            None => Err(DeriveError::NoValidBump),
        }
    }
}

/// The view of an exact derivation's result.
pub open spec fn exact_view(r: Result<Address, DeriveError>) -> Result<Seq<u8>, DeriveError> {
    match r {
        Ok(a) => Ok(a@),
        Err(e) => Err(e),
    }
}

/// The view of a derivation's result.
pub open spec fn derived_view(r: Result<(Address, u8), DeriveError>) -> Result<(Seq<u8>, u8), DeriveError> {
    match r {
        Ok((a, b)) => Ok((a@, b)),
        Err(e) => Err(e),
    }
}

/// Relies on solana_program's `Pubkey::create_program_address`: it refuses more than
/// `MAX_SEEDS` seeds or a seed over `MAX_SEED_LEN` bytes, else hashes the seeds, the
/// program id and the marker, and refuses the digest when it lies on the curve.
#[verifier::external_body]
fn create_program_address(seeds: &Vec<Vec<u8>>, program: &Address) -> (r: Result<Address, DeriveError>)
    ensures
        !seeds_within_limits(seeds_view(seeds@)) ==> r is Err && r->Err_0 == DeriveError::MaxSeedLengthExceeded,
        seeds_within_limits(seeds_view(seeds@)) ==> (r is Ok <==> !on_curve(program_address_hash(seeds_view(seeds@), program@))),
        seeds_within_limits(seeds_view(seeds@)) && r is Err ==> r->Err_0 == DeriveError::InvalidSeeds,
        r is Ok ==> r->Ok_0@ == program_address_hash(seeds_view(seeds@), program@),
{
    let refs: Vec<&[u8]> = seeds.iter().map(|s| s.as_slice()).collect();
    let id = solana_program::pubkey::Pubkey::new_from_array(program.bytes);
    match solana_program::pubkey::Pubkey::create_program_address(&refs, &id) {
        Ok(p) => Ok(Address { bytes: p.to_bytes() }),
        Err(solana_program::pubkey::PubkeyError::InvalidSeeds) => Err(DeriveError::InvalidSeeds),
        Err(_) => Err(DeriveError::MaxSeedLengthExceeded),
    }
}

/// Relies on solana_program's `Pubkey::is_on_curve`: whether the bytes decompress
/// to an ed25519 point, the test that `create_program_address` applies to its digest.
#[verifier::external_body]
fn bytes_are_curve_point(a: &Address) -> (r: bool)
    ensures
        r == on_curve(a@),
{
    solana_program::pubkey::Pubkey::new_from_array(a.bytes).is_on_curve()
}

/// Derives the address of `seeds` under `program` with no bump search: the seeds
/// are hashed as they are.
pub fn derive_exact(program: &Address, seeds: &Vec<Vec<u8>>) -> (r: Result<Address, DeriveError>)
    ensures
        exact_view(r) == derive_exact_spec(seeds_view(seeds@), program@),
{
    create_program_address(seeds, program)
}

proof fn lemma_seeds_view_push(s: Seq<Vec<u8>>, v: Vec<u8>)
    ensures
        seeds_view(s.push(v)) == seeds_view(s).push(v@),
{
    assert(seeds_view(s.push(v)) =~= seeds_view(s).push(v@));
}

/// Copies a byte vector.
pub fn copy_bytes(v: &Vec<u8>) -> (r: Vec<u8>)
    ensures
        r@ == v@,
{
    let mut r: Vec<u8> = Vec::new();
    let mut i: usize = 0;
    while i < v.len()
        invariant
            0 <= i <= v@.len(),
            r@ == v@.subrange(0, i as int),
        decreases v@.len() - i,
    {
        r.push(v[i]);
        i = i + 1;
    }
    assert(r@ =~= v@);
    r
}

/// Derives the address of `seeds` under `program`: tries the bump seeds from 255
/// down to 0, each appended as a last one-byte seed, and returns the first whose
/// address lies off the curve, with that bump.
pub fn derive(program: &Address, seeds: &Vec<Vec<u8>>) -> (r: Result<(Address, u8), DeriveError>)
    ensures
        derived_view(r) == derive_spec(seeds_view(seeds@), program@),
{
    let ghost sv = seeds_view(seeds@);
    if seeds.len() >= MAX_SEEDS {
        return Err(DeriveError::MaxSeedLengthExceeded);
    }
    let mut with_bump: Vec<Vec<u8>> = Vec::new();
    let mut i: usize = 0;
    while i < seeds.len()
        invariant
            0 <= i <= seeds@.len(),
            sv == seeds_view(seeds@),
            seeds_view(with_bump@) == sv.subrange(0, i as int),
            forall|j: int| 0 <= j < i ==> #[trigger] sv[j].len() <= MAX_SEED_LEN,
        decreases seeds@.len() - i,
    {
        proof {
            assert(sv[i as int] == seeds@[i as int]@);
        }
        if seeds[i].len() > MAX_SEED_LEN {
            return Err(DeriveError::MaxSeedLengthExceeded);
        }
        let ghost before = with_bump@;
        let c = copy_bytes(&seeds[i]);
        with_bump.push(c);
        proof {
            lemma_seeds_view_push(before, c);
            assert(seeds_view(with_bump@) =~= sv.subrange(0, i + 1));
        }
        i = i + 1;
    }
    assert(sv.subrange(0, sv.len() as int) =~= sv);
    assert(seeds_within_limits(sv));
    let mut bump: u8 = 255;
    loop
        invariant
            seeds_view(with_bump@) == sv,
            sv == seeds_view(seeds@),
            sv.len() < MAX_SEEDS,
            seeds_within_limits(sv),
            largest_bump(sv, program@, 255) == largest_bump(sv, program@, bump as int),
        decreases bump,
    {
        let ghost before = with_bump@;
        let b = vec![bump];
        with_bump.push(b);
        let ghost pushed = sv.push(seq![bump]);
        proof {
            lemma_seeds_view_push(before, b);
            assert(b@ =~= seq![bump]);
            assert(seeds_view(with_bump@) =~= pushed);
            assert(pushed[pushed.len() - 1].len() == 1);
            assert forall|j: int| 0 <= j < pushed.len() implies #[trigger] pushed[j].len() <= MAX_SEED_LEN by {
                if j < sv.len() {
                    assert(pushed[j] == sv[j]);
                }
            }
        }
        let attempt = create_program_address(&with_bump, program);
        with_bump.pop();
        proof {
            assert(with_bump@ =~= before);
            assert(seeds_view(with_bump@) =~= sv);
        }
        match attempt {
            Ok(a) => {
                return Ok((a, bump));
            },
            Err(_) => {
                assert(!bump_works(sv, program@, bump));
                assert(largest_bump(sv, program@, -1) is None);
                if bump == 0 {
                    return Err(DeriveError::NoValidBump);
                }
                bump = bump - 1;
            },
        }
    }
}

/// Two derivations of the same seeds under the same program agree: the address and
/// the bump are functions of the seeds and the program alone.
pub proof fn lemma_derive_deterministic(
    program: Address,
    seeds: Seq<Vec<u8>>,
    r1: Result<(Address, u8), DeriveError>,
    r2: Result<(Address, u8), DeriveError>,
)
    requires
        derived_view(r1) == derive_spec(seeds_view(seeds), program@),
        derived_view(r2) == derive_spec(seeds_view(seeds), program@),
    ensures
        r1 == r2,
{
    match (r1, r2) {
        (Ok((a1, _)), Ok((a2, _))) => {
            assert(a1.bytes =~= a2.bytes);
        },
        _ => {},
    }
}

proof fn lemma_largest_bump_works(seeds: Seq<Seq<u8>>, program: Seq<u8>, from: int)
    ensures
        largest_bump(seeds, program, from) matches Some(b) ==> bump_works(seeds, program, b),
    decreases from + 1,
{
    if 0 <= from <= 255 && !bump_works(seeds, program, from as u8) {
        lemma_largest_bump_works(seeds, program, from - 1);
    }
}

/// A derived address never lies on the curve, so no signing key can exist for it.
pub proof fn lemma_derived_off_curve(program: Seq<u8>, seeds: Seq<Seq<u8>>)
    ensures
        derive_spec(seeds, program) matches Ok((a, _)) ==> !on_curve(a),
{
    lemma_largest_bump_works(seeds, program, 255);
}

} // verus!
