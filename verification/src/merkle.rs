//! Snapshot leaves and Merkle proofs with sorted pairs.
use vstd::prelude::*;
use crate::account::{same_bytes, AccountId};

verus! {

/// A 32-byte Blake2b-256 digest: a Merkle root, leaf or proof node.
pub type MerkleHash = [u8; 32];

/// The Blake2b-256 digest of a byte string.
pub uninterp spec fn blake2_256(input: Seq<u8>) -> Seq<u8>;

/// Calls `ink::env::hash_bytes` with the `Blake2x256` hash, which writes the Blake2b-256 digest
/// of the input. The digest depends on the input's bytes alone.
#[verifier::external_body]
fn hash_bytes(input: &[u8]) -> (out: [u8; 32])
    ensures
        out@ == blake2_256(input@),
{
    let mut out: [u8; 32] = [0u8; 32];
    ink::env::hash_bytes::<ink::env::hash::Blake2x256>(input, &mut out);
    out
}

/// The `n` low bytes of `x`, the lowest first.
pub open spec fn le_bytes(x: int, n: nat) -> Seq<u8>
    decreases n,
{
    if n == 0 {
        seq![]
    } else {
        seq![(x % 256) as u8] + le_bytes(x / 256, (n - 1) as nat)
    }
}

/// Appends the `n` low bytes of `x`, the lowest first.
fn push_le_bytes(out: &mut Vec<u8>, x: u128, n: usize)
    ensures
        final(out)@ == old(out)@ + le_bytes(x as int, n as nat),
{
    let mut rest: u128 = x;
    let mut left: usize = n;
    let ghost start = out@;
    assert(start + le_bytes(x as int, n as nat) == out@ + le_bytes(rest as int, left as nat));
    while left > 0
        invariant
            start + le_bytes(x as int, n as nat) == out@ + le_bytes(rest as int, left as nat),
        decreases left,
    {
        let ghost before = out@;
        out.push((rest % 256) as u8);
        assert(before + le_bytes(rest as int, left as nat) =~= out@ + le_bytes(
            rest as int / 256,
            (left - 1) as nat,
        ));
        rest = rest / 256;
        left = left - 1;
    }
    assert(out@ + le_bytes(rest as int, 0) =~= out@);
}

/// Appends 32 bytes.
fn push_hash(out: &mut Vec<u8>, bytes: &[u8; 32])
    ensures
        final(out)@ == old(out)@ + bytes@,
{
    let ghost start = out@;
    let mut i: usize = 0;
    while i < 32
        invariant
            i <= 32,
            out@ == start + bytes@.subrange(0, i as int),
        decreases 32 - i,
    {
        out.push(bytes[i]);
        assert(bytes@.subrange(0, i + 1) =~= bytes@.subrange(0, i as int).push(bytes@[i as int]));
        assert(out@ =~= start + bytes@.subrange(0, i + 1));
        i = i + 1;
    }
    assert(bytes@.subrange(0, 32) =~= bytes@);
}

/// The bytes of a leaf: the two accounts, the balance in 16 bytes and the multiplier in 4, the
/// numbers with their lowest byte first.
pub open spec fn leaf_bytes(
    coldkey: AccountId,
    hotkey: AccountId,
    balance: u128,
    multiplier_bps: u32,
) -> Seq<u8> {
    coldkey.0@ + hotkey.0@ + le_bytes(balance as int, 16) + le_bytes(multiplier_bps as int, 4)
}

/// A snapshot leaf: the digest of `(coldkey, hotkey, balance, multiplier_bps)` in the chain's
/// encoding. Off-chain proof generation must encode and hash the tuple identically.
pub fn leaf_hash(coldkey: AccountId, hotkey: AccountId, balance: u128, multiplier_bps: u32) -> (out:
    MerkleHash)
    ensures
        out@ == blake2_256(leaf_bytes(coldkey, hotkey, balance, multiplier_bps)),
{
    let mut input: Vec<u8> = Vec::new();
    push_hash(&mut input, &coldkey.0);
    push_hash(&mut input, &hotkey.0);
    push_le_bytes(&mut input, balance, 16);
    push_le_bytes(&mut input, multiplier_bps as u128, 4);
    assert(input@ =~= leaf_bytes(coldkey, hotkey, balance, multiplier_bps));
    hash_bytes(input.as_slice())
}

/// The lexicographic order of byte strings.
pub open spec fn bytes_le(a: Seq<u8>, b: Seq<u8>) -> bool
    decreases a.len(),
{
    if a.len() == 0 {
        true
    } else if b.len() == 0 {
        false
    } else if a[0] != b[0] {
        a[0] < b[0]
    } else {
        bytes_le(a.skip(1), b.skip(1))
    }
}

/// Whether `a` stands at or before `b`; see [`bytes_le`].
fn at_or_before(a: &MerkleHash, b: &MerkleHash) -> (r: bool)
    ensures
        r == bytes_le(a@, b@),
{
    let mut i: usize = 0;
    assert(a@.skip(0) =~= a@);
    assert(b@.skip(0) =~= b@);
    while i < 32
        invariant
            i <= 32,
            bytes_le(a@, b@) == bytes_le(a@.skip(i as int), b@.skip(i as int)),
        decreases 32 - i,
    {
        if a[i] != b[i] {
            return a[i] < b[i];
        }
        assert(a@.skip(i as int).skip(1) =~= a@.skip(i + 1));
        assert(b@.skip(i as int).skip(1) =~= b@.skip(i + 1));
        i = i + 1;
    }
    true
}

/// The digest of two sibling nodes, the smaller first.
pub open spec fn pair_hash(a: Seq<u8>, b: Seq<u8>) -> Seq<u8> {
    if bytes_le(a, b) {
        blake2_256(a + b)
    } else {
        blake2_256(b + a)
    }
}

/// Hashes a pair of sibling nodes in sorted order, so that proofs need no position flags.
pub fn hash_pair(a: MerkleHash, b: MerkleHash) -> (out: MerkleHash)
    ensures
        out@ == pair_hash(a@, b@),
{
    let mut input: Vec<u8> = Vec::new();
    if at_or_before(&a, &b) {
        push_hash(&mut input, &a);
        push_hash(&mut input, &b);
        assert(input@ =~= a@ + b@);
    } else {
        push_hash(&mut input, &b);
        push_hash(&mut input, &a);
        assert(input@ =~= b@ + a@);
    }
    hash_bytes(input.as_slice())
}

/// The bytes of proof nodes.
pub open spec fn nodes(proof: Seq<MerkleHash>) -> Seq<Seq<u8>> {
    Seq::new(proof.len(), |i: int| proof[i]@)
}

/// Folds a proof bottom-up: the leaf with the first sibling, the result with the next, and so on.
pub open spec fn fold_proof(leaf: Seq<u8>, siblings: Seq<Seq<u8>>) -> Seq<u8>
    decreases siblings.len(),
{
    if siblings.len() == 0 {
        leaf
    } else {
        pair_hash(fold_proof(leaf, siblings.drop_last()), siblings.last())
    }
}

/// Verifies that `leaf` is part of the tree with the given `root`, folding `proof` bottom-up.
pub fn verify_merkle_proof(proof: &[MerkleHash], root: MerkleHash, leaf: MerkleHash) -> (ok: bool)
    ensures
        ok == (fold_proof(leaf@, nodes(proof@)) == root@),
{
    let mut computed: MerkleHash = leaf;
    let mut i: usize = 0;
    while i < proof.len()
        invariant
            i <= proof@.len(),
            computed@ == fold_proof(leaf@, nodes(proof@).take(i as int)),
        decreases proof@.len() - i,
    {
        computed = hash_pair(computed, proof[i]);
        assert(nodes(proof@).take(i + 1).drop_last() =~= nodes(proof@).take(i as int));
        i = i + 1;
    }
    assert(nodes(proof@).take(i as int) =~= nodes(proof@));
    proof {
        if computed@ == root@ {
            assert(computed =~= root);
        }
    }
    same_bytes(&computed, &root)
}

proof fn lemma_order_total(a: Seq<u8>, b: Seq<u8>)
    ensures
        bytes_le(a, b) || bytes_le(b, a),
        bytes_le(a, b) && bytes_le(b, a) ==> a == b,
    decreases a.len(),
{
    if a.len() > 0 && b.len() > 0 && a[0] == b[0] {
        lemma_order_total(a.skip(1), b.skip(1));
        if a.skip(1) == b.skip(1) {
            assert(a =~= seq![a[0]] + a.skip(1));
            assert(b =~= seq![b[0]] + b.skip(1));
        }
    } else if a.len() == 0 && b.len() == 0 {
        assert(a =~= b);
    }
}

/// The digest of a pair does not depend on the order in which its nodes are given.
pub proof fn law_pair_hash_commutes(a: Seq<u8>, b: Seq<u8>)
    ensures
        pair_hash(a, b) == pair_hash(b, a),
{
    lemma_order_total(a, b);
}

/// A proof without nodes shows exactly the leaf that is the root.
pub proof fn law_empty_proof(leaf: Seq<u8>, root: Seq<u8>)
    ensures
        fold_proof(leaf, seq![]) == root <==> leaf == root,
{
}

/// A Merkle tree over leaf digests.
pub enum Tree {
    Leaf(Seq<u8>),
    Node(Box<Tree>, Box<Tree>),
}

/// The root of a tree.
pub open spec fn tree_root(t: Tree) -> Seq<u8>
    decreases t,
{
    match t {
        Tree::Leaf(digest) => digest,
        Tree::Node(left, right) => pair_hash(tree_root(*left), tree_root(*right)),
    }
}

/// Whether a digest is a leaf of a tree.
pub open spec fn has_leaf(t: Tree, leaf: Seq<u8>) -> bool
    decreases t,
{
    match t {
        Tree::Leaf(digest) => digest == leaf,
        Tree::Node(left, right) => has_leaf(*left, leaf) || has_leaf(*right, leaf),
    }
}

/// The siblings on the way from a leaf up to the root.
pub open spec fn siblings_of(t: Tree, leaf: Seq<u8>) -> Seq<Seq<u8>>
    decreases t,
{
    match t {
        Tree::Leaf(_) => seq![],
        Tree::Node(left, right) => if has_leaf(*left, leaf) {
            siblings_of(*left, leaf).push(tree_root(*right))
        } else {
            siblings_of(*right, leaf).push(tree_root(*left))
        },
    }
}

/// Every leaf of a tree is proven against the tree's root by the siblings on its way up.
pub proof fn law_leaf_is_provable(t: Tree, leaf: Seq<u8>)
    requires
        has_leaf(t, leaf),
    ensures
        fold_proof(leaf, siblings_of(t, leaf)) == tree_root(t),
    decreases t,
{
    match t {
        Tree::Leaf(_) => {},
        Tree::Node(left, right) => {
            let path = siblings_of(t, leaf);
            if has_leaf(*left, leaf) {
                law_leaf_is_provable(*left, leaf);
                assert(path.drop_last() =~= siblings_of(*left, leaf));
            } else {
                law_leaf_is_provable(*right, leaf);
                assert(path.drop_last() =~= siblings_of(*right, leaf));
                law_pair_hash_commutes(tree_root(*left), tree_root(*right));
            }
        },
    }
}

proof fn lemma_le_bytes_len(x: int, n: nat)
    ensures
        le_bytes(x, n).len() == n,
    decreases n,
{
    if n > 0 {
        lemma_le_bytes_len(x / 256, (n - 1) as nat);
    }
}

spec fn pow256(n: nat) -> int
    decreases n,
{
    if n == 0 {
        1
    } else {
        256 * pow256((n - 1) as nat)
    }
}

proof fn lemma_le_bytes_injective(x: int, y: int, n: nat)
    requires
        0 <= x < pow256(n),
        0 <= y < pow256(n),
        le_bytes(x, n) == le_bytes(y, n),
    ensures
        x == y,
    decreases n,
{
    if n > 0 {
        let bx = le_bytes(x, n);
        let by = le_bytes(y, n);
        assert(bx[0] == (x % 256) as u8);
        assert(by[0] == (y % 256) as u8);
        assert(bx.skip(1) =~= le_bytes(x / 256, (n - 1) as nat));
        assert(by.skip(1) =~= le_bytes(y / 256, (n - 1) as nat));
        lemma_le_bytes_injective(x / 256, y / 256, (n - 1) as nat);
    }
}

/// Two leaves with the same bytes agree on both accounts, the balance and the multiplier.
pub proof fn law_leaf_bytes_injective(
    c1: AccountId,
    h1: AccountId,
    b1: u128,
    m1: u32,
    c2: AccountId,
    h2: AccountId,
    b2: u128,
    m2: u32,
)
    requires
        leaf_bytes(c1, h1, b1, m1) == leaf_bytes(c2, h2, b2, m2),
    ensures
        c1 == c2 && h1 == h2 && b1 == b2 && m1 == m2,
{
    let l1 = leaf_bytes(c1, h1, b1, m1);
    let l2 = leaf_bytes(c2, h2, b2, m2);
    lemma_le_bytes_len(b1 as int, 16);
    lemma_le_bytes_len(b2 as int, 16);
    lemma_le_bytes_len(m1 as int, 4);
    lemma_le_bytes_len(m2 as int, 4);
    assert(l1.subrange(0, 32) =~= c1.0@);
    assert(l2.subrange(0, 32) =~= c2.0@);
    assert(l1.subrange(32, 64) =~= h1.0@);
    assert(l2.subrange(32, 64) =~= h2.0@);
    assert(l1.subrange(64, 80) =~= le_bytes(b1 as int, 16));
    assert(l2.subrange(64, 80) =~= le_bytes(b2 as int, 16));
    assert(l1.subrange(80, 84) =~= le_bytes(m1 as int, 4));
    assert(l2.subrange(80, 84) =~= le_bytes(m2 as int, 4));
    assert(c1.0 =~= c2.0);
    assert(h1.0 =~= h2.0);
    reveal_with_fuel(pow256, 17);
    lemma_le_bytes_injective(b1 as int, b2 as int, 16);
    lemma_le_bytes_injective(m1 as int, m2 as int, 4);
}

/// Numbers are encoded with their lowest byte first: byte `i` is the digit of `256^i`.
pub proof fn law_le_bytes_are_digits(x: int, n: nat, i: int)
    requires
        x >= 0,
        0 <= i < n,
    ensures
        le_bytes(x, n).len() == n,
        le_bytes(x, n)[i] == (x / vstd::arithmetic::power::pow(256, i as nat)) % 256,
    decreases n,
{
    lemma_le_bytes_len(x, n);
    vstd::arithmetic::power::lemma_pow0(256);
    if i > 0 {
        law_le_bytes_are_digits(x / 256, (n - 1) as nat, i - 1);
        let p = vstd::arithmetic::power::pow(256, (i - 1) as nat);
        vstd::arithmetic::power::lemma_pow_positive(256, (i - 1) as nat);
        assert(vstd::arithmetic::power::pow(256, i as nat) == 256 * p) by {
            reveal(vstd::arithmetic::power::pow);
        }
        vstd::arithmetic::div_mod::lemma_div_denominator(x, 256, p);
        lemma_le_bytes_len(x / 256, (n - 1) as nat);
        assert(le_bytes(x, n)[i] == le_bytes(x / 256, (n - 1) as nat)[i - 1]);
    } else {
        assert(le_bytes(x, n)[0] == (x % 256) as u8);
        assert(x / 1 == x);
    }
}

/// A leaf holds the coldkey, the hotkey, the balance in 16 bytes and the multiplier in 4.
pub proof fn law_leaf_layout(
    coldkey: AccountId,
    hotkey: AccountId,
    balance: u128,
    multiplier_bps: u32,
    i: int,
)
    ensures
        ({
            let leaf = leaf_bytes(coldkey, hotkey, balance, multiplier_bps);
            &&& leaf.len() == 84
            &&& 0 <= i < 32 ==> leaf[i] == coldkey.0@[i]
            &&& 32 <= i < 64 ==> leaf[i] == hotkey.0@[i - 32]
            &&& 64 <= i < 80 ==> leaf[i] == (balance as int / vstd::arithmetic::power::pow(
                256,
                (i - 64) as nat,
            )) % 256
            &&& 80 <= i < 84 ==> leaf[i] == (multiplier_bps as int / vstd::arithmetic::power::pow(
                256,
                (i - 80) as nat,
            )) % 256
        }),
{
    lemma_le_bytes_len(balance as int, 16);
    lemma_le_bytes_len(multiplier_bps as int, 4);
    if 64 <= i < 80 {
        law_le_bytes_are_digits(balance as int, 16, i - 64);
    }
    if 80 <= i < 84 {
        law_le_bytes_are_digits(multiplier_bps as int, 4, i - 80);
    }
}

/// Of two nodes, the one with the smaller byte where they first differ is hashed first.
pub proof fn law_smaller_node_is_hashed_first(a: Seq<u8>, b: Seq<u8>, i: int)
    requires
        0 <= i < a.len(),
        i < b.len(),
        forall|j: int| 0 <= j < i ==> a[j] == b[j],
        a[i] < b[i],
    ensures
        pair_hash(a, b) == blake2_256(a + b),
        pair_hash(b, a) == blake2_256(a + b),
{
    lemma_first_difference_decides(a, b, i);
    lemma_order_total(a, b);
}

proof fn lemma_first_difference_decides(a: Seq<u8>, b: Seq<u8>, i: int)
    requires
        0 <= i < a.len(),
        i < b.len(),
        forall|j: int| 0 <= j < i ==> a[j] == b[j],
        a[i] < b[i],
    ensures
        bytes_le(a, b),
    decreases i,
{
    if i > 0 {
        assert(a[0] == b[0]);
        assert forall|j: int| 0 <= j < i - 1 implies a.skip(1)[j] == b.skip(1)[j] by {
            assert(a[j + 1] == b[j + 1]);
        }
        lemma_first_difference_decides(a.skip(1), b.skip(1), i - 1);
    }
}

} // verus!
