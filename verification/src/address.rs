use vstd::prelude::*;

verus! {

/// The address, if any, that the host platform's program-derived-address
/// search resolves for the seed pair `(tag, name)` under `program_id`.
/// `None` when a seed exceeds the platform's maximum seed length or no
/// bump byte yields an off-curve address.
pub uninterp spec fn pda_of(tag: Seq<char>, name: Seq<char>, program_id: Seq<u8>) -> Option<Seq<u8>>;

/// Relies on anchor_lang's `Pubkey::try_find_program_address`: the search
/// over bump bytes hashes only the seeds' UTF-8 bytes and the program id,
/// so its outcome is a function of those arguments alone; it returns
/// `None` when a seed is longer than the platform's maximum seed length
/// or when no bump byte yields an off-curve address.
#[verifier::external_body]
fn try_find_address(tag: &str, name: &str, program_id: &[u8; 32]) -> (r: Option<[u8; 32]>)
    ensures
        r matches Some(a) ==> pda_of(tag@, name@, program_id@) == Some(a@),
        r is None ==> pda_of(tag@, name@, program_id@) is None,
{
    let pid = anchor_lang::prelude::Pubkey::new_from_array(*program_id);
    anchor_lang::prelude::Pubkey::try_find_program_address(
        &[tag.as_bytes(), name.as_bytes()],
        &pid,
    ).map(|pair: (anchor_lang::prelude::Pubkey, u8)| pair.0.to_bytes())
}

/// The fixed seed tag under which every record's address is derived.
pub open spec fn waffle_tag() -> Seq<char> {
    "waffle"@
}

/// The address the platform derives for a record named `name` under the
/// program `program_id`; `None` when the platform cannot derive one.
pub open spec fn waffle_address(name: Seq<char>, program_id: Seq<u8>) -> Option<Seq<u8>> {
    pda_of(waffle_tag(), name, program_id)
}

/// Resolves the storage address of the record named `name`: the platform's
/// derivation over the seeds `["waffle", name]`.
pub fn derive_waffle_address(name: &str, program_id: &[u8; 32]) -> (r: Option<[u8; 32]>)
    ensures
        r matches Some(a) ==> waffle_address(name@, program_id@) == Some(a@),
        r is None ==> waffle_address(name@, program_id@) is None,
{
    try_find_address("waffle", name, program_id)
}

/// Law: address derivation is deterministic — two resolutions of the same
/// name under the same program agree.
pub proof fn lemma_derivation_deterministic(
    name: Seq<char>,
    program_id: Seq<u8>,
    r1: Option<Seq<u8>>,
    r2: Option<Seq<u8>>,
)
    requires
        r1 == waffle_address(name, program_id),
        r2 == waffle_address(name, program_id),
    ensures
        r1 == r2,
{
}

} // verus!
