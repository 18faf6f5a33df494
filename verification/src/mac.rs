//! The MAC wrapper: a naive secret-prefix message authentication code,
//! MAC(key, message) = SHA-1(key ++ message).
//!
//! The key bytes are immediately followed by the message bytes, with no
//! separator and no length prefix. This construction is intentionally
//! vulnerable to length extension; it is the textbook insecure scheme, and
//! the contract documents it bit for bit rather than fixing it.

use crate::digest::ComputationError;
use crate::digest::sha1;
use crate::digest::spec_sha1;
use vstd::prelude::*;

verus! {

/// The MAC of a key and a message: the SHA-1 digest of their concatenation.
pub open spec fn spec_mac(key: Seq<u8>, message: Seq<u8>) -> Seq<u8> {
    spec_sha1(key + message)
}

/// MAC consistency: for non-empty keys and messages the MAC equals the
/// digest of the concatenation key ++ message exactly.
pub proof fn lemma_mac_consistency(key: Seq<u8>, message: Seq<u8>)
    requires
        key.len() > 0,
        message.len() > 0,
    ensures
        spec_mac(key, message) == spec_sha1(key + message),
{
}

/// Computes MAC = SHA-1(key || message).
///
/// Like the digest engine itself, the computation is total: the `Err` case
/// never occurs, and the `Ok` digest is exactly the model's MAC of the two
/// inputs. The preconditions only keep the concatenation within the machine's
/// integer ranges.
#[verifier::loop_isolation(false)]
pub fn calculate_mac(key: &[u8], message: &[u8]) -> (r: Result<[u8; 20], ComputationError>)
    requires
        8 * (key@.len() + message@.len()) <= u64::MAX,
        key@.len() + message@.len() + 72 <= usize::MAX,
    ensures
        r matches Ok(d) && d@ == spec_mac(key@, message@),
{
    let mut mac_input: Vec<u8> = Vec::with_capacity(key.len() + message.len());
    let mut i: usize = 0;
    while i < key.len()
        invariant
            i <= key@.len(),
            mac_input@ == key@.subrange(0, i as int),
        decreases key@.len() - i,
    {
        mac_input.push(key[i]);
        i += 1;
    }
    assert(mac_input@ =~= key@);
    let mut j: usize = 0;
    while j < message.len()
        invariant
            j <= message@.len(),
            mac_input@ == key@ + message@.subrange(0, j as int),
        decreases message@.len() - j,
    {
        mac_input.push(message[j]);
        proof {
            assert(key@ + message@.subrange(0, j + 1) =~= (key@ + message@.subrange(
                0,
                j as int,
            )).push(message@[j as int]));
        }
        j += 1;
    }
    assert(mac_input@ =~= key@ + message@);
    sha1(mac_input.as_slice())
}

} // verus!
