//! The server's identity as the proxy uses it: the destination hash that
//! clients connect to, and the signing key pair of its link destination.

use vstd::prelude::*;
use crate::server::{APP_ASPECT, APP_NAME};

verus! {

/// The hash of the inbound SINGLE destination with application name
/// `app_name` and one aspect `aspect`, owned by the identity with hash
/// `identity_hash`, as RNS computes it.
pub uninterp spec fn rns_destination_hash(app_name: Seq<char>, aspect: Seq<char>, identity_hash: Seq<u8>) -> Seq<u8>;

/// `rns_net::Destination::single_in`, of which only the hash is kept: a
/// function of the name, the aspect and the identity hash alone. It panics
/// when the name or the aspect contains a `.`, which the `requires` rules out.
#[verifier::external_body]
fn destination_hash_of(app_name: &str, aspect: &str, identity_hash: &[u8; 16]) -> (r: [u8; 16])
    requires
        !app_name@.contains('.'),
        !aspect@.contains('.'),
    ensures
        r@ == rns_destination_hash(app_name@, aspect@, identity_hash@),
{
    rns_net::Destination::single_in(app_name, &[aspect], rns_net::IdentityHash(*identity_hash)).hash.0
}

/// What the server registers and announces.
pub struct ServerKeys {
    /// The destination hash, which is the server's address.
    pub dest_hash: [u8; 16],
    /// The Ed25519 private signing key.
    pub sig_prv: [u8; 32],
    /// The Ed25519 public signing key.
    pub sig_pub: [u8; 32],
}

/// The second half of a 64-byte identity key: its Ed25519 part (the first
/// half is the X25519 part).
pub fn signing_half(key: &[u8; 64]) -> (r: [u8; 32])
    ensures
        r@ == key@.subrange(32, 64),
{
    let mut out = [0u8; 32];
    let mut i: usize = 0;
    while i < 32
        invariant
            i <= 32,
            out@.len() == 32,
            key@.len() == 64,
            forall|j: int| 0 <= j < i ==> out@[j] == key@[j + 32],
        decreases 32 - i,
    {
        out[i] = key[i + 32];
        i = i + 1;
    }
    assert(out@ =~= key@.subrange(32, 64));
    out
}

/// The server's keys, from its identity hash and its private and public
/// 64-byte keys: the address is the proxy destination (`rns_socks` /
/// `proxy`) of the identity.
pub fn server_keys(identity_hash: &[u8; 16], prv_key: &[u8; 64], pub_key: &[u8; 64]) -> (k: ServerKeys)
    ensures
        k.dest_hash@ == rns_destination_hash(APP_NAME@, APP_ASPECT@, identity_hash@),
        k.sig_prv@ == prv_key@.subrange(32, 64),
        k.sig_pub@ == pub_key@.subrange(32, 64),
{
    proof {
        reveal_strlit("rns_socks");
        reveal_strlit("proxy");
    }
    ServerKeys {
        dest_hash: destination_hash_of(APP_NAME, APP_ASPECT, identity_hash),
        sig_prv: signing_half(prv_key),
        sig_pub: signing_half(pub_key),
    }
}

} // verus!
