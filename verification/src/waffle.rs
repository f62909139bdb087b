use vstd::prelude::*;
use vstd::string::{StrSliceExecFns, StringExecFns};
use vstd::utf8::{encode_scalar, encode_utf8};
use crate::error::WaffleError;

verus! {

/// A 32-byte public-key identifier of a signer.
#[derive(Clone, Copy, Debug, PartialEq, Eq, Hash)]
pub struct Pubkey {
    pub bytes: [u8; 32],
}

/// The record this library manages: a name, owned by the signer that
/// paid for its creation.
#[derive(Clone, Debug)]
pub struct Waffle {
    pub author: Pubkey,
    pub name: String,
}

/// Size of the opaque type discriminator that prefixes a stored record.
pub const DISCRIMINATOR_LENGTH: usize = 8;

/// Size of the stored author identifier.
pub const PUBLIC_KEY_LENGTH: usize = 32;

/// Size of the length prefix that precedes the stored name's bytes.
pub const STRING_LENGTH_PREFIX: usize = 4;

impl Waffle {
    /// Storage taken by a record before the name's own bytes.
    pub const LEN: usize = DISCRIMINATOR_LENGTH + PUBLIC_KEY_LENGTH + STRING_LENGTH_PREFIX;

    pub fn new(author: Pubkey, name: String) -> (w: Waffle)
        ensures
            w.author == author,
            w.name@ == name@,
    {
        Waffle { author, name }
    }
}

/// A name is acceptable when its character count lies in 2..=29.
pub open spec fn valid_name(name: Seq<char>) -> bool {
    2 <= name.len() <= 29
}

/// The exact outcome of validating a name: the length checks in the
/// order the handler applies them.
pub open spec fn name_check(name: Seq<char>) -> Result<(), WaffleError> {
    if name.len() >= 30 {
        Err(WaffleError::NameTooLong)
    } else if name.len() <= 1 {
        Err(WaffleError::NameEmpty)
    } else {
        Ok(())
    }
}

/// Validates a candidate name by its character count (not its byte length).
pub fn validate_name(name: &str) -> (r: Result<(), WaffleError>)
    ensures
        r == name_check(name@),
        r is Ok <==> valid_name(name@),
{
    let n: usize = name.unicode_len();
    if n >= 30 {
        Err(WaffleError::NameTooLong)
    } else if n <= 1 {
        Err(WaffleError::NameEmpty)
    } else {
        Ok(())
    }
}

/// The UTF-8 byte length of a name; what a record's storage is sized by.
pub open spec fn utf8_len(name: Seq<char>) -> nat {
    encode_utf8(name).len()
}

/// Storage to allocate for a record first created with `name`: the fixed
/// prefix plus exactly the name's UTF-8 bytes. Only names that passed
/// validation are ever allocated for, so the length bound is available.
pub fn required_space(name: &str) -> (r: usize)
    requires
        name@.len() <= 29,
    ensures
        r as nat == Waffle::LEN + utf8_len(name@),
{
    proof {
        lemma_utf8_len_bounds(name@);
    }
    Waffle::LEN + name.len()
}

/// The log line a successful creation emits, containing the stored name.
pub fn creation_log_line(name: &str) -> (r: String)
    ensures
        r@ == "Waffle "@ + name@ + " created"@,
{
    let mut line = String::from_str("Waffle ");
    line.append(name);
    line.append(" created");
    line
}

/// Each character encodes to between one and four bytes, so a name's byte
/// length lies between its character count and four times that count.
pub proof fn lemma_utf8_len_bounds(name: Seq<char>)
    ensures
        name.len() <= utf8_len(name) <= 4 * name.len(),
    decreases name.len(),
{
    if name.len() == 0 {
    } else {
        assert(1 <= encode_scalar(name[0] as u32).len() <= 4);
        lemma_utf8_len_bounds(name.drop_first());
    }
}

} // verus!
