//! Commitments: tagged SHA-256 over canonical bytes, and the Merkle root of a list of leaves.

use vstd::prelude::*;
use commit_verify::DigestExt;
use commit_verify::MerkleHash;
use commit_verify::Sha256;

verus! {

/// The 32 bytes that SHA-256 gives for `data` when it was first fed the digest of `tag` twice.
pub uninterp spec fn tagged_sha256(tag: Seq<char>, data: Seq<u8>) -> Seq<u8>;

/// The tag under which `commit_verify` hashes Merkle nodes and leaves.
pub const MERKLE_TAG: &'static str = "urn:ubideco:merkle:node#2024-01-31";

/// The tag under which `commit_verify` hashes strict-encoded values.
pub const STRICT_TAG: &'static str = "urn:ubideco:strict-types:value-hash#2024-02-10";

/// The tagged hash of `data` under the tag of Merkle nodes and leaves.
pub open spec fn merkle_leaf_sha256(data: Seq<u8>) -> Seq<u8> {
    tagged_sha256(MERKLE_TAG@, data)
}

/// The tagged hash of `data` under the tag of strict-encoded values.
pub open spec fn strict_sha256(data: Seq<u8>) -> Seq<u8> {
    tagged_sha256(STRICT_TAG@, data)
}

/// The hash of the Merkle node without leaves, at `depth` in a tree over `width` leaves.
pub uninterp spec fn merkle_void_hash(depth: u8, width: u32) -> Seq<u8>;

/// The hash of the Merkle node with one leaf, at `depth` in a tree over `width` leaves.
pub uninterp spec fn merkle_single_hash(depth: u8, width: u32, node: Seq<u8>) -> Seq<u8>;

/// The hash of the Merkle node with two branches, at `depth` in a tree over `width` leaves.
pub uninterp spec fn merkle_branch_hash(depth: u8, width: u32, node1: Seq<u8>, node2: Seq<u8>) -> Seq<u8>;

/// Calls `commit_verify`'s `Sha256::from_tag`, `with_raw` and `finish`: the tagged SHA-256 of
/// `data`. Nothing is proved of the digest but that it is a function of `tag` and `data`.
#[verifier::external_body]
pub(crate) fn tagged_hash(tag: &str, data: &[u8]) -> (r: [u8; 32])
    ensures
        r@ == tagged_sha256(tag@, data@),
{
    Sha256::from_tag(tag).with_raw(data).finish()
}

/// The identifier of a value whose canonical bytes are `data` and whose commitment is a Merkle
/// hash.
pub(crate) fn merkle_leaf_hash(data: &[u8]) -> (r: [u8; 32])
    ensures
        r@ == merkle_leaf_sha256(data@),
{
    tagged_hash(MERKLE_TAG, data)
}

/// The identifier of a value whose canonical bytes are `data` and whose commitment is a strict
/// hash.
pub(crate) fn strict_hash(data: &[u8]) -> (r: [u8; 32])
    ensures
        r@ == strict_sha256(data@),
{
    tagged_hash(STRICT_TAG, data)
}

/// Calls `MerkleHash::void`. Only that the result is a function of the arguments is claimed.
#[verifier::external_body]
fn merkle_void(depth: u8, width: u32) -> (r: [u8; 32])
    ensures
        r@ == merkle_void_hash(depth, width),
{
    MerkleHash::void(depth, width).to_byte_array()
}

/// Calls `MerkleHash::single`. Only that the result is a function of the arguments is claimed.
#[verifier::external_body]
fn merkle_single(depth: u8, width: u32, node: &[u8; 32]) -> (r: [u8; 32])
    ensures
        r@ == merkle_single_hash(depth, width, node@),
{
    MerkleHash::single(depth, width, MerkleHash::from(*node)).to_byte_array()
}

/// Calls `MerkleHash::branches`. Only that the result is a function of the arguments is claimed.
#[verifier::external_body]
fn merkle_branches(depth: u8, width: u32, node1: &[u8; 32], node2: &[u8; 32]) -> (r: [u8; 32])
    ensures
        r@ == merkle_branch_hash(depth, width, node1@, node2@),
{
    MerkleHash::branches(depth, width, MerkleHash::from(*node1), MerkleHash::from(*node2))
        .to_byte_array()
}

/// `2^n`.
pub open spec fn pow2(n: nat) -> nat
    decreases n,
{
    if n == 0 {
        1
    } else {
        2 * pow2((n - 1) as nat)
    }
}

/// How many of `n` leaves go to the first branch of a node: the larger half.
pub open spec fn first_half(n: nat) -> nat {
    n / 2 + n % 2
}

/// The hash of the subtree over `nodes` that hangs at `depth` in a tree over `width` leaves.
///
/// `commit_verify` walks this tree itself only for lists whose items carry its trait for
/// committed types; for leaves that are plain hashes it offers the three node hashes, and the
/// walk over them is made here.
///
/// Up to two nodes make one tree node: a void, a single or a branch. More are split, the larger
/// half first, into two subtrees one level down, and their hashes make a branch.
pub open spec fn merkle_subtree(nodes: Seq<Seq<u8>>, depth: u8, width: u32) -> Seq<u8>
    decreases nodes.len(),
{
    if nodes.len() == 0 {
        merkle_void_hash(depth, width)
    } else if nodes.len() == 1 {
        merkle_single_hash(depth, width, nodes[0])
    } else if nodes.len() == 2 {
        merkle_branch_hash(depth, width, nodes[0], nodes[1])
    } else {
        let div = first_half(nodes.len()) as int;
        merkle_branch_hash(
            depth,
            width,
            merkle_subtree(nodes.take(div), (depth + 1) as u8, width),
            merkle_subtree(nodes.skip(div), (depth + 1) as u8, width),
        )
    }
}

/// The Merkle root of a list of leaf hashes: the leaf itself where there is one, else the hash
/// of the tree over all of them (for no leaf, the void node at depth 0 and width 0).
pub open spec fn merkle_root(leaves: Seq<Seq<u8>>) -> Seq<u8> {
    if leaves.len() == 1 {
        leaves[0]
    } else {
        merkle_subtree(leaves, 0, leaves.len() as u32)
    }
}

/// The 32-byte strings of `leaves`, each as a sequence.
pub open spec fn leaf_views(leaves: Seq<[u8; 32]>) -> Seq<Seq<u8>> {
    leaves.map_values(|l: [u8; 32]| l@)
}

proof fn lemma_half_bound(n: nat, k: nat)
    requires
        n <= pow2(k),
        n >= 3,
    ensures
        k >= 2,
        first_half(n) <= pow2((k - 1) as nat),
        n - first_half(n) <= pow2((k - 1) as nat),
        0 < first_half(n) < n,
{
    reveal_with_fuel(pow2, 3);
}

fn merklize_range(leaves: &Vec<[u8; 32]>, lo: usize, hi: usize, depth: u8, width: u32) -> (r: [u8; 32])
    requires
        lo <= hi <= leaves.len(),
        depth <= 24,
        hi - lo <= pow2((24 - depth) as nat),
    ensures
        r@ == merkle_subtree(leaf_views(leaves@).subrange(lo as int, hi as int), depth, width),
    decreases hi - lo,
{
    let ghost nodes = leaf_views(leaves@).subrange(lo as int, hi as int);
    let n = hi - lo;
    if n == 0 {
        merkle_void(depth, width)
    } else if n == 1 {
        assert(nodes[0] == leaves@[lo as int]@);
        merkle_single(depth, width, &leaves[lo])
    } else if n == 2 {
        assert(nodes[0] == leaves@[lo as int]@);
        assert(nodes[1] == leaves@[lo + 1]@);
        merkle_branches(depth, width, &leaves[lo], &leaves[lo + 1])
    } else {
        let div = n / 2 + n % 2;
        proof {
            lemma_half_bound(n as nat, (24 - depth) as nat);
            assert(nodes.take(div as int) =~= leaf_views(leaves@).subrange(lo as int, lo + div));
            assert(nodes.skip(div as int) =~= leaf_views(leaves@).subrange(lo + div, hi as int));
        }
        let branch1 = merklize_range(leaves, lo, lo + div, depth + 1, width);
        let branch2 = merklize_range(leaves, lo + div, hi, depth + 1, width);
        merkle_branches(depth, width, &branch1, &branch2)
    }
}

/// The Merkle root of `leaves`.
pub fn merklize(leaves: &Vec<[u8; 32]>) -> (r: [u8; 32])
    requires
        leaves.len() <= 0xFFFF,
    ensures
        r@ == merkle_root(leaf_views(leaves@)),
{
    let n = leaves.len();
    if n == 1 {
        leaves[0]
    } else {
        proof {
            assert(pow2(24) >= 0xFFFF) by {
                reveal_with_fuel(pow2, 25);
            }
            assert(leaf_views(leaves@).subrange(0, n as int) =~= leaf_views(leaves@));
        }
        merklize_range(leaves, 0, n, 0, n as u32)
    }
}

} // verus!
