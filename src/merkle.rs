use sha2::Digest;
use vstd::prelude::*;
use vstd::utf8::encode_utf8;

verus! {

/// The SHA-256 digest of a byte string.
pub uninterp spec fn sha256_of(b: Seq<u8>) -> Seq<u8>;

/// Relies on sha2::Sha256::digest: a 32-byte digest that depends on the input bytes alone.
#[verifier::external_body]
fn sha256(b: &[u8]) -> (r: Vec<u8>)
    ensures
        r@ == sha256_of(b@),
        r@.len() == 32,
{
    sha2::Sha256::digest(b).to_vec()
}

/// Lexicographic order on byte strings, a prefix coming first.
pub open spec fn bytes_le(a: Seq<u8>, b: Seq<u8>) -> bool
    decreases a.len(),
{
    if a.len() == 0 {
        true
    } else if b.len() == 0 {
        false
    } else if a[0] != b[0] {
        a[0] < b[0]
    } else {
        bytes_le(a.drop_first(), b.drop_first())
    }
}

/// One step up the tree: the two children are hashed smaller one first.
pub open spec fn hash_pair(a: Seq<u8>, b: Seq<u8>) -> Seq<u8> {
    if bytes_le(a, b) {
        sha256_of(a + b)
    } else {
        sha256_of(b + a)
    }
}

/// The root reached from `leaf` by folding in the siblings of `proof` in order.
pub open spec fn merkle_fold(leaf: Seq<u8>, proof: Seq<Seq<u8>>) -> Seq<u8>
    decreases proof.len(),
{
    if proof.len() == 0 {
        leaf
    } else {
        hash_pair(merkle_fold(leaf, proof.drop_last()), proof.last())
    }
}

/// The siblings of a proof as byte strings.
pub open spec fn proof_view(proof: Seq<Vec<u8>>) -> Seq<Seq<u8>> {
    proof.map_values(|p: Vec<u8>| p@)
}

/// The allowlist leaf of an address: the digest of its UTF-8 bytes.
pub open spec fn address_leaf(addr: Seq<char>) -> Seq<u8> {
    sha256_of(encode_utf8(addr))
}

/// Lexicographic comparison of two byte strings.
pub fn le_bytes(a: &[u8], b: &[u8]) -> (r: bool)
    ensures
        r == bytes_le(a@, b@),
{
    let mut i: usize = 0;
    assert(a@.subrange(0, a@.len() as int) =~= a@);
    assert(b@.subrange(0, b@.len() as int) =~= b@);
    while i < a.len() && i < b.len() && a[i] == b[i]
        invariant
            i <= a@.len(),
            i <= b@.len(),
            bytes_le(a@, b@) == bytes_le(a@.subrange(i as int, a@.len() as int), b@.subrange(i as int, b@.len() as int)),
        decreases a@.len() - i,
    {
        let ghost sa = a@.subrange(i as int, a@.len() as int);
        let ghost sb = b@.subrange(i as int, b@.len() as int);
        assert(sa.drop_first() =~= a@.subrange(i + 1, a@.len() as int));
        assert(sb.drop_first() =~= b@.subrange(i + 1, b@.len() as int));
        i = i + 1;
    }
    proof {
        let sa = a@.subrange(i as int, a@.len() as int);
        let sb = b@.subrange(i as int, b@.len() as int);
        if i < a@.len() && i < b@.len() {
            assert(sa[0] == a@[i as int]);
            assert(sb[0] == b@[i as int]);
        }
    }
    if i == a.len() {
        true
    } else if i == b.len() {
        false
    } else {
        a[i] < b[i]
    }
}

/// The digest of a node's two children, the smaller one first.
pub fn hash_children(a: &Vec<u8>, b: &Vec<u8>) -> (r: Vec<u8>)
    ensures
        r@ == hash_pair(a@, b@),
{
    let mut first;
    let mut second;
    if le_bytes(a.as_slice(), b.as_slice()) {
        first = a.clone();
        second = b.clone();
    } else {
        first = b.clone();
        second = a.clone();
    }
    let ghost f = first@;
    let ghost s = second@;
    first.append(&mut second);
    assert(first@ =~= f + s);
    sha256(first.as_slice())
}

/// Folds `proof` into `leaf` and tells whether the result is `root`.
pub fn validate_merkle_proof(proof: &Vec<Vec<u8>>, root: &Vec<u8>, leaf: &Vec<u8>) -> (r: bool)
    ensures
        r == (merkle_fold(leaf@, proof_view(proof@)) == root@),
{
    let mut cur = leaf.clone();
    let mut i: usize = 0;
    while i < proof.len()
        invariant
            i <= proof@.len(),
            cur@ == merkle_fold(leaf@, proof_view(proof@).take(i as int)),
        decreases proof@.len() - i,
    {
        let ghost before = proof_view(proof@).take(i as int);
        cur = hash_children(&cur, &proof[i]);
        assert(proof_view(proof@).take(i + 1).drop_last() =~= before);
        i = i + 1;
    }
    assert(proof_view(proof@).take(i as int) =~= proof_view(proof@));
    slices_equal(cur.as_slice(), root.as_slice())
}

/// Byte-wise equality of two byte strings.
pub fn slices_equal(a: &[u8], b: &[u8]) -> (r: bool)
    ensures
        r == (a@ == b@),
{
    if a.len() != b.len() {
        return false;
    }
    let mut i: usize = 0;
    while i < a.len()
        invariant
            a@.len() == b@.len(),
            i <= a@.len(),
            forall|k: int| 0 <= k < i ==> a@[k] == b@[k],
        decreases a@.len() - i,
    {
        if a[i] != b[i] {
            return false;
        }
        i = i + 1;
    }
    assert(a@ =~= b@);
    true
}

/// The allowlist leaf of an address.
pub fn hash_address(addr: &str) -> (r: Vec<u8>)
    ensures
        r@ == address_leaf(addr@),
{
    let bytes = addr.as_bytes();
    sha256(bytes)
}

} // verus!
