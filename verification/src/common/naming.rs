//! Names of chains and address sets, derived from what they stand for: a fixed prefix, then the
//! first characters of the base32 text of a SHA-256 digest.

use vstd::prelude::*;

use crate::common::ipfamily::IpFamily;
use crate::text::{cat2, cat3, cat4, chars_of, string_of};

verus! {

/// How many leading base32 characters a derived name uses.
pub const HASH_LEN: usize = 16;

/// Prefix of the chain of a pod.
pub const POD_FW_PREFIX: &'static str = "KUBE-POD-FW-";

/// Prefix of the chain of a policy.
pub const NWPLCY_PREFIX: &'static str = "KUBE-NWPLCY-";

/// Prefix of a set of source addresses.
pub const SRC_PREFIX: &'static str = "KUBE-SRC-";

/// Prefix of a set of destination addresses.
pub const DST_PREFIX: &'static str = "KUBE-DST-";

/// The SHA-256 digest of the bytes.
pub uninterp spec fn sha256_of(data: Seq<u8>) -> Seq<u8>;

/// The padded base32 text of the bytes.
pub uninterp spec fn base32_of(data: Seq<u8>) -> Seq<char>;

/// `sha2::Sha256::digest`: the digest, named by `sha256_of`; it is 32 bytes long.
#[verifier::external_body]
fn sha256(data: &[u8]) -> (r: Vec<u8>)
    ensures
        r@ == sha256_of(data@),
        r@.len() == 32,
{
    <sha2::Sha256 as sha2::Digest>::digest(data).to_vec()
}

/// Whether `c` is of the base32 alphabet: an upper-case letter or a digit from 2 to 7.
pub open spec fn is_base32(c: char) -> bool {
    'A' <= c <= 'Z' || '2' <= c <= '7'
}

/// `data_encoding::BASE32.encode`: the padded base32 text, named by `base32_of`. Of it is
/// claimed that five bytes give eight characters, the last group filled up, and that the
/// characters which carry bits, eight for every five begun, are of the alphabet.
#[verifier::external_body]
fn base32(data: &[u8]) -> (r: String)
    requires
        data@.len() <= 0xffff,
    ensures
        r@ == base32_of(data@),
        r@.len() == (data@.len() + 4) / 5 * 8,
        forall|i: int| 0 <= i < (8 * data@.len() + 4) / 5 ==> is_base32(#[trigger] r@[i]),
{
    data_encoding::BASE32.encode(data)
}

/// The hash of a text: the first characters of the base32 text of the digest of its UTF-8 bytes.
pub open spec fn hash_of(input: Seq<char>) -> Seq<char> {
    base32_of(sha256_of(vstd::utf8::encode_utf8(input))).take(HASH_LEN as int)
}

/// The hash of a text.
pub fn hash16(input: &str) -> (r: String)
    ensures
        r@ == hash_of(input@),
        r@.len() == HASH_LEN,
        forall|i: int| 0 <= i < r@.len() ==> is_base32(#[trigger] r@[i]),
{
    let digest = sha256(input.as_bytes());
    let encoded = base32(digest.as_slice());
    let cs = chars_of(encoded.as_str());
    let r = string_of(&cs, 0, HASH_LEN);
    assert(r@ =~= hash_of(input@));
    r
}

/// How a family is written in a hashed key.
pub open spec fn tag_of(family: IpFamily) -> Seq<char> {
    match family {
        IpFamily::V4 => "IPv4"@,
        IpFamily::V6 => "IPv6"@,
    }
}

/// How a family is written in a hashed key.
pub fn family_tag(family: IpFamily) -> (r: &'static str)
    ensures
        r@ == tag_of(family),
{
    match family {
        IpFamily::V4 => "IPv4",
        IpFamily::V6 => "IPv6",
    }
}

/// The name of the chain of a pod.
pub open spec fn pod_chain(namespace: Seq<char>, pod: Seq<char>, sync_version: Seq<char>) -> Seq<
    char,
> {
    POD_FW_PREFIX@ + hash_of(namespace + pod + sync_version)
}

/// The name of the chain of a policy in one family.
pub open spec fn policy_chain(
    namespace: Seq<char>,
    policy: Seq<char>,
    sync_version: Seq<char>,
    family: IpFamily,
) -> Seq<char> {
    NWPLCY_PREFIX@ + hash_of(namespace + policy + sync_version + tag_of(family))
}

/// The name of the chain of a pod.
pub fn pod_firewall_chain(namespace: &str, pod: &str, sync_version: &str) -> (r: String)
    ensures
        r@ == pod_chain(namespace@, pod@, sync_version@),
        r@.len() == POD_FW_PREFIX@.len() + HASH_LEN,
        forall|i: int| POD_FW_PREFIX@.len() <= i < r@.len() ==> is_base32(#[trigger] r@[i]),
{
    let hash = hash16(cat3(namespace, pod, sync_version).as_str());
    let r = cat2(POD_FW_PREFIX, hash.as_str());
    assert forall|i: int| POD_FW_PREFIX@.len() <= i < r@.len() implies is_base32(
        #[trigger] r@[i],
    ) by {
        assert(r@[i] == hash@[i - POD_FW_PREFIX@.len()]);
    }
    r
}

/// The name of the chain of a policy in one family.
pub fn network_policy_chain(
    namespace: &str,
    policy: &str,
    sync_version: &str,
    family: IpFamily,
) -> (r: String)
    ensures
        r@ == policy_chain(namespace@, policy@, sync_version@, family),
        r@.len() == NWPLCY_PREFIX@.len() + HASH_LEN,
        forall|i: int| NWPLCY_PREFIX@.len() <= i < r@.len() ==> is_base32(#[trigger] r@[i]),
{
    let hash = hash16(cat4(namespace, policy, sync_version, family_tag(family)).as_str());
    let r = cat2(NWPLCY_PREFIX, hash.as_str());
    assert forall|i: int| NWPLCY_PREFIX@.len() <= i < r@.len() implies is_base32(
        #[trigger] r@[i],
    ) by {
        assert(r@[i] == hash@[i - NWPLCY_PREFIX@.len()]);
    }
    r
}

} // verus!
