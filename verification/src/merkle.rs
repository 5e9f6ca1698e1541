use vstd::prelude::*;

use sha2::Digest;

verus! {

/// The SHA-256 digest of `data`.
pub uninterp spec fn sha256_digest(data: Seq<u8>) -> Seq<u8>;

/// Calls `sha2::Sha256::digest`: the result is the SHA-256 digest of the
/// bytes, 32 of them; what the digest is, is named by `sha256_digest`.
#[verifier::external_body]
fn calculate_sha256(data: &[u8]) -> (r: [u8; 32])
    ensures
        r@ == sha256_digest(data@),
{
    sha2::Sha256::digest(data).into()
}

/// The digest of two digests put one after the other.
pub open spec fn hash_concat(a: Seq<u8>, b: Seq<u8>) -> Seq<u8> {
    sha256_digest(a + b)
}

/// One level up the tree: each pair of nodes, from the left, is replaced by
/// the digest of the two; an odd last node goes up as it is.
pub open spec fn merkle_level(nodes: Seq<Seq<u8>>) -> Seq<Seq<u8>> {
    Seq::new(
        ((nodes.len() + 1) / 2) as nat,
        |i: int|
            if 2 * i + 1 < nodes.len() {
                hash_concat(nodes[2 * i], nodes[2 * i + 1])
            } else {
                nodes[2 * i]
            },
    )
}

/// The root of the Merkle tree over `leaves`: the digest of no bytes when
/// there is no leaf, the leaf when there is one, else the root over the
/// level above.
pub open spec fn merkle_root(leaves: Seq<Seq<u8>>) -> Seq<u8>
    decreases leaves.len(),
{
    if leaves.len() == 0 {
        sha256_digest(Seq::empty())
    } else if leaves.len() == 1 {
        leaves[0]
    } else {
        merkle_root(merkle_level(leaves))
    }
}

/// The byte sequences held by a vector of digests.
pub open spec fn digests_view(v: Seq<[u8; 32]>) -> Seq<Seq<u8>> {
    v.map_values(|d: [u8; 32]| d@)
}

/// The bytes of `a` followed by those of `b`.
fn concat_digests(a: &[u8; 32], b: &[u8; 32]) -> (r: Vec<u8>)
    ensures
        r@ == a@ + b@,
{
    let mut r: Vec<u8> = Vec::new();
    let mut i: usize = 0;
    while i < 32
        invariant
            i <= 32,
            r@ == a@.take(i as int),
        decreases 32 - i,
    {
        r.push(a[i]);
        proof {
            assert(a@.take(i + 1) =~= a@.take(i as int).push(a@[i as int]));
        }
        i = i + 1;
    }
    let mut j: usize = 0;
    while j < 32
        invariant
            j <= 32,
            r@ == a@ + b@.take(j as int),
        decreases 32 - j,
    {
        r.push(b[j]);
        proof {
            assert(b@.take(j + 1) =~= b@.take(j as int).push(b@[j as int]));
        }
        j = j + 1;
    }
    proof {
        assert(a@.take(32) =~= a@);
        assert(b@.take(32) =~= b@);
    }
    r
}

/// The level above `nodes` in the Merkle tree.
pub fn merkle_tree_level(nodes: &Vec<[u8; 32]>) -> (r: Vec<[u8; 32]>)
    ensures
        r.len() == (nodes.len() + 1) / 2,
        digests_view(r@) == merkle_level(digests_view(nodes@)),
{
    let ghost level = merkle_level(digests_view(nodes@));
    let mut r: Vec<[u8; 32]> = Vec::new();
    let mut m: usize = 0;
    while m < nodes.len() - m
        invariant
            m <= nodes.len(),
            2 * m <= nodes.len() + 1,
            r.len() == m,
            level == merkle_level(digests_view(nodes@)),
            forall|i: int| 0 <= i < m ==> #[trigger] r@[i]@ == level[i],
        decreases nodes.len() - m,
    {
        let first = 2 * m;
        if first + 1 < nodes.len() {
            let joined = concat_digests(&nodes[first], &nodes[first + 1]);
            let d = calculate_sha256(joined.as_slice());
            r.push(d);
        } else {
            r.push(nodes[first]);
        }
        m = m + 1;
    }
    proof {
        assert(digests_view(r@) =~= level);
    }
    r
}

/// The root of the Merkle tree over the digests `leaves`.
pub fn merkle_tree_root(leaves: &Vec<[u8; 32]>) -> (r: [u8; 32])
    ensures
        r@ == merkle_root(digests_view(leaves@)),
{
    if leaves.len() == 0 {
        let empty: Vec<u8> = Vec::new();
        let r = calculate_sha256(empty.as_slice());
        proof {
            assert(empty@ =~= Seq::<u8>::empty());
        }
        return r;
    }
    let mut level = crate::chain::copy_vec(leaves);
    while level.len() > 1
        invariant
            level.len() >= 1,
            merkle_root(digests_view(level@)) == merkle_root(digests_view(leaves@)),
        decreases level.len(),
    {
        let next = merkle_tree_level(&level);
        proof {
            assert(digests_view(level@).len() == level.len());
        }
        level = next;
    }
    level[0]
}

} // verus!
