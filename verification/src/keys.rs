//! Nostr keys whose secret is a folder's content hash, parsed by `nostr_sdk`.

use vstd::prelude::*;

use crate::branches::Node;
use crate::hex::{hex_lower, is_lower_hex_text};

verus! {

/// The value of one of `0-9a-f`.
pub open spec fn hex_digit_value(c: char) -> int {
    if '0' <= c && c <= '9' {
        c as int - 48
    } else {
        c as int - 87
    }
}

/// The number that hexadecimal text spells, most significant digit first.
pub open spec fn hex_value(s: Seq<char>) -> int
    decreases s.len(),
{
    if s.len() == 0 {
        0
    } else {
        hex_value(s.drop_last()) * 16 + hex_digit_value(s.last())
    }
}

/// The order of the secp256k1 group: a secret key is a number from one up to
/// one less than this.
pub open spec fn secp256k1_order() -> int {
    0xFFFF_FFFF_FFFF_FFFF_FFFF_FFFF_FFFF_FFFE_BAAE_DCE6_AF48_A03B_BFD2_5E8C_D036_4141int
}

/// The secret key that `SecretKey::parse` reads from the text, as its 32
/// bytes, most significant first; none where the text is refused.
pub uninterp spec fn parsed_secret_key(secret: Seq<char>) -> Option<Seq<u8>>;

/// The 32-byte x-only secp256k1 public key of a secret key.
pub uninterp spec fn xonly_public_key(secret: Seq<u8>) -> Seq<u8>;

/// `nostr_sdk::Keys::parse`: reads a secret key, in hex or bech32, and
/// derives its public key; gives back the secret key's bytes and the x-only
/// public key's bytes.
///
/// Trusted: the claim is that the secret key read depends on the text alone
/// (named `parsed_secret_key`, for `SecretKey::parse`); that the public key is the one of the secret key
/// returned (named `xonly_public_key`, as `Keys::new_with_ctx` derives it);
/// and that 64 lower-case hex digits are accepted exactly when the number
/// they spell is a valid secp256k1 secret, from one to one less than the
/// group order, and then yield the secret key they spell, most significant
/// byte first (`secp256k1::SecretKey::from_str`, which `Keys::parse` tries
/// first; such text is never bech32). Which bech32 texts are accepted, and
/// what the public key is, are not stated.
#[verifier::external_body]
fn parse_keys(secret: &str) -> (r: Option<([u8; 32], [u8; 32])>)
    ensures
        r is Some <==> parsed_secret_key(secret@) is Some,
        r is Some ==> r.unwrap().0@ == parsed_secret_key(secret@).unwrap(),
        r matches Some((s, p)) ==> p@ == xonly_public_key(s@),
        secret@.len() == 64 && is_lower_hex_text(secret@) ==> (r is Some <==> 0 < hex_value(
            secret@,
        ) < secp256k1_order()),
        secret@.len() == 64 && is_lower_hex_text(secret@) && r is Some ==> hex_lower(r.unwrap().0@)
            == secret@,
{
    nostr_sdk::Keys::parse(secret).ok().map(|k| (k.secret_key().to_secret_bytes(), k.public_key().to_bytes()))
}

/// The nostr keys whose secret key is the folder's hash, where that hash is
/// accepted as a secret key: the secret key's bytes and the x-only public
/// key's bytes.
pub fn keys_for_node(node: &Node) -> (r: Option<([u8; 32], [u8; 32])>)
    ensures
        r is Some <==> parsed_secret_key(node.hash@) is Some,
        r is Some ==> r.unwrap().0@ == parsed_secret_key(node.hash@).unwrap(),
        r matches Some((s, p)) ==> p@ == xonly_public_key(s@),
        node.hash@.len() == 64 && is_lower_hex_text(node.hash@) ==> (r is Some <==> 0 < hex_value(
            node.hash@,
        ) < secp256k1_order()),
        node.hash@.len() == 64 && is_lower_hex_text(node.hash@) && r is Some ==> hex_lower(r.unwrap().0@)
            == node.hash@,
{
    parse_keys(node.hash.as_str())
}

} // verus!
