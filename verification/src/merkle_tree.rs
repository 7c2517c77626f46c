//! The versioned Merkle tree as seen through its database: the manifest counting the
//! versions, the root of each version, and the tags that fix the tree's architecture,
//! depth and hash function.
use vstd::prelude::*;
use crate::types::H256;
use crate::text::str_eq;

verus! {

/// Hash of a value or a node.
pub type ValueHash = H256;

/// Depth of the tree.
pub const TREE_DEPTH: usize = 256;

/// The architecture the tree is stored in.
pub open spec fn architecture_name() -> Seq<char> {
    "AR16MT"@
}

/// Parameters a tree was created with.
#[derive(Clone, Debug, PartialEq, Eq)]
pub struct TreeTags {
    pub architecture: String,
    pub depth: usize,
    pub hasher: String,
}

/// Version-independent information of a tree.
#[derive(Clone, Debug, PartialEq, Eq)]
pub struct Manifest {
    /// Number of versions stored.
    pub version_count: u64,
    pub tags: Option<TreeTags>,
}

/// The manifest of a tree without versions.
pub open spec fn default_manifest() -> Manifest {
    Manifest { version_count: 0, tags: None }
}

/// The latest version a manifest counts, if any.
pub open spec fn latest_version_of(m: Option<Manifest>) -> Option<u64> {
    match m {
        Some(m) => if m.version_count > 0 { Some((m.version_count - 1) as u64) } else { None },
        None => None,
    }
}

/// The root of one version of the tree.
#[derive(Clone, Copy, Debug, PartialEq, Eq)]
pub enum Root {
    /// The tree has no leaves.
    Empty,
    /// The tree has `leaf_count` leaves under the root node `node`.
    Filled { leaf_count: u64, node: RootNode },
}

/// The root node of a filled tree.
#[derive(Clone, Copy, Debug, PartialEq, Eq)]
pub enum RootNode {
    /// The tree holds one leaf: its full key, its value hash and its 1-based index in
    /// the order of insertion.
    Leaf { full_key: H256, value_hash: ValueHash, leaf_index: u64 },
    /// An internal node over the 16 subtrees four levels below the root, chosen by the
    /// first four bits of the key; a present child is given by its subtree's hash.
    Internal { children: [Option<ValueHash>; 16] },
}

/// A key-value store holding the tree.
pub trait Database {
    spec fn spec_manifest(&self) -> Option<Manifest>;

    spec fn spec_root(&self, version: u64) -> Option<Root>;

    /// The manifest, if the tree was ever saved.
    fn manifest(&self) -> (r: Option<Manifest>)
        ensures
            r == self.spec_manifest(),
    ;

    /// The root of `version`, if that version was written.
    fn root(&self, version: u64) -> (r: Option<Root>)
        ensures
            r == self.spec_root(version),
    ;

    /// Applies `patch`: its manifest replaces the stored one, and its roots replace the
    /// roots of the same versions; the other roots stay.
    fn apply_patch(&mut self, patch: PatchSet)
        ensures
            final(self).spec_manifest() == Some(patch.manifest),
            forall|version: u64| #[trigger] final(self).spec_root(version) == (
                if root_in(patch.roots@, version) is Some {
                    root_in(patch.roots@, version)
                } else {
                    old(self).spec_root(version)
                }),
    ;
}

/// The hash function of the tree.
pub trait HashTree {
    spec fn spec_name(&self) -> Seq<char>;

    /// The hash of a byte string.
    spec fn spec_hash_bytes(&self, bytes: Seq<u8>) -> ValueHash;

    /// The name the tags record the hash function under.
    fn name(&self) -> (r: &'static str)
        ensures
            r@ == self.spec_name(),
    ;

    /// Hashes a byte string.
    fn hash_bytes(&self, bytes: &Vec<u8>) -> (r: ValueHash)
        ensures
            r == self.spec_hash_bytes(bytes@),
    ;
}

/// The hash whose bytes are all zero.
pub const ZERO_HASH: ValueHash = [0u8, 0u8, 0u8, 0u8, 0u8, 0u8, 0u8, 0u8, 0u8, 0u8, 0u8, 0u8, 0u8, 0u8, 0u8, 0u8, 0u8, 0u8, 0u8, 0u8, 0u8, 0u8, 0u8, 0u8, 0u8, 0u8, 0u8, 0u8, 0u8, 0u8, 0u8, 0u8];

/// The no-op hash function: every hash is zero. Useful where hashes do not matter.
impl HashTree for () {
    open spec fn spec_name(&self) -> Seq<char> {
        "no_op256"@
    }

    open spec fn spec_hash_bytes(&self, bytes: Seq<u8>) -> ValueHash {
        ZERO_HASH
    }

    fn name(&self) -> (r: &'static str) {
        "no_op256"
    }

    fn hash_bytes(&self, bytes: &Vec<u8>) -> (r: ValueHash) {
        ZERO_HASH
    }
}

// ---------------------------------------------------------------------------
// Tree hashing
//
// The tree is hashed as a full binary Merkle tree with 2^256 leaves: a vacant leaf hashes
// to `hash([0; 40])`, an occupied leaf to `hash(be_bytes(leaf_index) ++ value_hash)`, and
// an internal node to `hash(left ++ right)`.

/// The big-endian bytes of `x`.
pub open spec fn be_bytes(x: u64) -> Seq<u8> {
    seq![(x >> 56u64) as u8, (x >> 48u64) as u8, (x >> 40u64) as u8, (x >> 32u64) as u8,
        (x >> 24u64) as u8, (x >> 16u64) as u8, (x >> 8u64) as u8, x as u8]
}

/// The hash of a vacant leaf.
pub open spec fn vacant_leaf_hash<H: HashTree>(h: &H) -> ValueHash {
    h.spec_hash_bytes(Seq::new(40, |i: int| 0u8))
}

/// The hash of an occupied leaf.
pub open spec fn leaf_hash<H: HashTree>(h: &H, value_hash: ValueHash, leaf_index: u64) -> ValueHash {
    h.spec_hash_bytes(be_bytes(leaf_index) + value_hash@)
}

/// The hash of an internal node over two subtrees.
pub open spec fn branch_hash<H: HashTree>(h: &H, left: ValueHash, right: ValueHash) -> ValueHash {
    h.spec_hash_bytes(left@ + right@)
}

/// The hash of an empty subtree `height` levels above the leaves.
pub open spec fn empty_subtree_hash<H: HashTree>(h: &H, height: nat) -> ValueHash
    decreases height,
{
    if height == 0 {
        vacant_leaf_hash(h)
    } else {
        let e = empty_subtree_hash(h, (height - 1) as nat);
        branch_hash(h, e, e)
    }
}

/// The hash of a tree without leaves.
pub open spec fn empty_tree_hash<H: HashTree>(h: &H) -> ValueHash {
    empty_subtree_hash(h, 256)
}

/// Bit `j` of a key, counting from the most significant bit of its first byte.
pub open spec fn key_bit(key: H256, j: int) -> bool {
    (key@[j / 8] >> ((7 - j % 8) as u8)) & 1u8 == 1u8
}

/// The hash of the subtree `height` levels above the leaves that holds the leaf with key
/// `key` and hash `leaf` and nothing else.
pub open spec fn leaf_path_hash<H: HashTree>(h: &H, key: H256, leaf: ValueHash, height: nat) -> ValueHash
    decreases height,
{
    if height == 0 {
        leaf
    } else {
        let below = leaf_path_hash(h, key, leaf, (height - 1) as nat);
        let e = empty_subtree_hash(h, (height - 1) as nat);
        if key_bit(key, 256 - height) {
            branch_hash(h, e, below)
        } else {
            branch_hash(h, below, e)
        }
    }
}

/// The hash of the children `start .. start + width` of an internal root node, as a
/// subtree over them; an absent child is an empty subtree four levels below the root.
pub open spec fn children_hash<H: HashTree>(h: &H, children: [Option<ValueHash>; 16], start: int, width: nat) -> ValueHash
    decreases width,
{
    if width <= 1 {
        match children@[start] {
            Some(c) => c,
            None => empty_subtree_hash(h, 252),
        }
    } else {
        let half = width / 2;
        branch_hash(h, children_hash(h, children, start, half), children_hash(h, children, start + half, half))
    }
}

/// The hash a child of an internal root node contributes: its subtree's hash, or the
/// hash of an empty subtree four levels below the root.
pub open spec fn child_value<H: HashTree>(h: &H, children: [Option<ValueHash>; 16], i: int) -> ValueHash {
    match children@[i] {
        Some(c) => c,
        None => empty_subtree_hash(h, 252),
    }
}

/// The empty subtrees: a vacant leaf hashes forty zero bytes, and an empty subtree one
/// level higher hashes two copies of the one below.
pub proof fn law_empty_subtree_hash<H: HashTree>(h: &H, height: nat)
    ensures
        empty_subtree_hash(h, 0) == h.spec_hash_bytes(seq![0u8, 0u8, 0u8, 0u8, 0u8, 0u8, 0u8, 0u8, 0u8, 0u8,
            0u8, 0u8, 0u8, 0u8, 0u8, 0u8, 0u8, 0u8, 0u8, 0u8, 0u8, 0u8, 0u8, 0u8, 0u8, 0u8, 0u8, 0u8, 0u8, 0u8,
            0u8, 0u8, 0u8, 0u8, 0u8, 0u8, 0u8, 0u8, 0u8, 0u8]),
        empty_subtree_hash(h, height + 1) == h.spec_hash_bytes(
            empty_subtree_hash(h, height)@ + empty_subtree_hash(h, height)@),
{
    assert(Seq::new(40, |i: int| 0u8) =~= seq![0u8, 0u8, 0u8, 0u8, 0u8, 0u8, 0u8, 0u8, 0u8, 0u8,
        0u8, 0u8, 0u8, 0u8, 0u8, 0u8, 0u8, 0u8, 0u8, 0u8, 0u8, 0u8, 0u8, 0u8, 0u8, 0u8, 0u8, 0u8, 0u8, 0u8,
        0u8, 0u8, 0u8, 0u8, 0u8, 0u8, 0u8, 0u8, 0u8, 0u8]);
}

/// An occupied leaf hashes its 1-based index as eight big-endian bytes followed by its
/// value hash.
pub proof fn law_leaf_hash<H: HashTree>(h: &H, value_hash: ValueHash, leaf_index: u64)
    ensures
        leaf_hash(h, value_hash, leaf_index) == h.spec_hash_bytes(be_bytes(leaf_index) + value_hash@),
        be_bytes(leaf_index).len() == 8,
        be_bytes(leaf_index)[0] == leaf_index / 0x100000000000000,
        be_bytes(leaf_index)[1] == (leaf_index / 0x1000000000000) % 256,
        be_bytes(leaf_index)[2] == (leaf_index / 0x10000000000) % 256,
        be_bytes(leaf_index)[3] == (leaf_index / 0x100000000) % 256,
        be_bytes(leaf_index)[4] == (leaf_index / 0x1000000) % 256,
        be_bytes(leaf_index)[5] == (leaf_index / 0x10000) % 256,
        be_bytes(leaf_index)[6] == (leaf_index / 0x100) % 256,
        be_bytes(leaf_index)[7] == leaf_index % 256,
{
    let x = leaf_index;
    assert((x >> 56u64) as u8 == x / 0x100000000000000) by (bit_vector);
    assert((x >> 48u64) as u8 == (x / 0x1000000000000) % 256) by (bit_vector);
    assert((x >> 40u64) as u8 == (x / 0x10000000000) % 256) by (bit_vector);
    assert((x >> 32u64) as u8 == (x / 0x100000000) % 256) by (bit_vector);
    assert((x >> 24u64) as u8 == (x / 0x1000000) % 256) by (bit_vector);
    assert((x >> 16u64) as u8 == (x / 0x10000) % 256) by (bit_vector);
    assert((x >> 8u64) as u8 == (x / 0x100) % 256) by (bit_vector);
    assert(x as u8 == x % 256) by (bit_vector);
}

/// Going up one level from a subtree that holds a single leaf: the bit of the key at
/// that level puts the leaf's side right (bit 1) or left (bit 0) of an empty subtree of
/// the same height.
pub proof fn law_leaf_path_step<H: HashTree>(h: &H, key: H256, leaf: ValueHash, height: nat)
    ensures
        leaf_path_hash(h, key, leaf, 0) == leaf,
        leaf_path_hash(h, key, leaf, height + 1) == (if key_bit(key, 255 - height) {
            h.spec_hash_bytes(empty_subtree_hash(h, height)@ + leaf_path_hash(h, key, leaf, height)@)
        } else {
            h.spec_hash_bytes(leaf_path_hash(h, key, leaf, height)@ + empty_subtree_hash(h, height)@)
        }),
{
}

/// An internal node over the children `start .. start + width` (a power of two) hashes
/// as the branch over its left half `start .. start + width / 2` and its right half
/// `start + width / 2 .. start + width`; a single child contributes its own value.
pub proof fn law_children_hash_halves<H: HashTree>(h: &H, children: [Option<ValueHash>; 16], start: int, width: nat)
    ensures
        width == 1 ==> children_hash(h, children, start, width) == child_value(h, children, start),
        width >= 2 && width % 2 == 0 ==> children_hash(h, children, start, width) == h.spec_hash_bytes(
            children_hash(h, children, start, width / 2)@
                + children_hash(h, children, start + width / 2, width / 2)@),
{
}

/// The hash of an internal root node is the full binary Merkle tree over its sixteen
/// child values, in order: each pair of neighbours hashed together, then each pair of
/// those, four times.
pub proof fn law_internal_root_hash<H: HashTree>(h: &H, c: [Option<ValueHash>; 16])
    ensures
        ({
            let v = |i: int| child_value(h, c, i);
            let b = |x: ValueHash, y: ValueHash| h.spec_hash_bytes(x@ + y@);
            root_node_hash(h, RootNode::Internal { children: c }) == b(
                b(b(b(v(0), v(1)), b(v(2), v(3))), b(b(v(4), v(5)), b(v(6), v(7)))),
                b(b(b(v(8), v(9)), b(v(10), v(11))), b(b(v(12), v(13)), b(v(14), v(15)))),
            )
        }),
{
    reveal_with_fuel(children_hash, 5);
}

/// The hash of a root node.
pub open spec fn root_node_hash<H: HashTree>(h: &H, node: RootNode) -> ValueHash {
    match node {
        RootNode::Leaf { full_key, value_hash, leaf_index } =>
            leaf_path_hash(h, full_key, leaf_hash(h, value_hash, leaf_index), 256),
        RootNode::Internal { children } => children_hash(h, children, 0, 16),
    }
}

/// The hash of a version's root, if the version was written.
pub open spec fn root_hash_of<H: HashTree>(h: &H, root: Option<Root>) -> Option<ValueHash> {
    match root {
        None => None,
        Some(Root::Empty) => Some(empty_tree_hash(h)),
        Some(Root::Filled { node, .. }) => Some(root_node_hash(h, node)),
    }
}

fn concat_hashes(a: &ValueHash, b: &ValueHash) -> (r: Vec<u8>)
    ensures
        r@ == a@ + b@,
{
    let mut out: Vec<u8> = Vec::new();
    let mut i: usize = 0;
    while i < 32
        invariant
            i <= 32,
            a@.len() == 32,
            out@ == a@.take(i as int),
        decreases 32 - i,
    {
        out.push(a[i]);
        assert(a@.take(i as int + 1) =~= a@.take(i as int).push(a@[i as int]));
        i = i + 1;
    }
    let mut j: usize = 0;
    while j < 32
        invariant
            j <= 32,
            a@.len() == 32,
            b@.len() == 32,
            out@ == a@ + b@.take(j as int),
        decreases 32 - j,
    {
        out.push(b[j]);
        assert(b@.take(j as int + 1) =~= b@.take(j as int).push(b@[j as int]));
        j = j + 1;
    }
    assert(a@.take(32) =~= a@);
    assert(b@.take(32) =~= b@);
    out
}

fn hash_branch<H: HashTree>(h: &H, left: &ValueHash, right: &ValueHash) -> (r: ValueHash)
    ensures
        r == branch_hash(h, *left, *right),
{
    let bytes = concat_hashes(left, right);
    h.hash_bytes(&bytes)
}

fn hash_vacant_leaf<H: HashTree>(h: &H) -> (r: ValueHash)
    ensures
        r == vacant_leaf_hash(h),
{
    let mut zeros: Vec<u8> = Vec::new();
    let mut i: usize = 0;
    while i < 40
        invariant
            i <= 40,
            zeros@ == Seq::new(i as nat, |k: int| 0u8),
        decreases 40 - i,
    {
        zeros.push(0u8);
        i = i + 1;
        assert(zeros@ =~= Seq::new(i as nat, |k: int| 0u8));
    }
    h.hash_bytes(&zeros)
}

fn hash_leaf<H: HashTree>(h: &H, value_hash: &ValueHash, leaf_index: u64) -> (r: ValueHash)
    ensures
        r == leaf_hash(h, *value_hash, leaf_index),
{
    let mut bytes: Vec<u8> = Vec::new();
    bytes.push((leaf_index >> 56u64) as u8);
    bytes.push((leaf_index >> 48u64) as u8);
    bytes.push((leaf_index >> 40u64) as u8);
    bytes.push((leaf_index >> 32u64) as u8);
    bytes.push((leaf_index >> 24u64) as u8);
    bytes.push((leaf_index >> 16u64) as u8);
    bytes.push((leaf_index >> 8u64) as u8);
    bytes.push(leaf_index as u8);
    let ghost head = bytes@;
    assert(head =~= be_bytes(leaf_index));
    let mut j: usize = 0;
    while j < 32
        invariant
            j <= 32,
            value_hash@.len() == 32,
            head == be_bytes(leaf_index),
            bytes@ == head + value_hash@.take(j as int),
        decreases 32 - j,
    {
        bytes.push(value_hash[j]);
        assert(value_hash@.take(j as int + 1) =~= value_hash@.take(j as int).push(value_hash@[j as int]));
        j = j + 1;
    }
    assert(value_hash@.take(32) =~= value_hash@);
    h.hash_bytes(&bytes)
}

/// The hash of an empty subtree `height` levels above the leaves.
pub fn compute_empty_subtree_hash<H: HashTree>(h: &H, height: u64) -> (r: ValueHash)
    ensures
        r == empty_subtree_hash(h, height as nat),
{
    let mut e = hash_vacant_leaf(h);
    let mut k: u64 = 0;
    while k < height
        invariant
            k <= height,
            e == empty_subtree_hash(h, k as nat),
        decreases height - k,
    {
        e = hash_branch(h, &e, &e);
        k = k + 1;
    }
    e
}

fn key_bit_at(key: &H256, j: usize) -> (r: bool)
    requires
        j < 256,
    ensures
        r == key_bit(*key, j as int),
{
    let byte = key[j / 8];
    (byte >> ((7 - j % 8) as u8)) & 1u8 == 1u8
}

fn hash_leaf_path<H: HashTree>(h: &H, key: &H256, leaf: &ValueHash) -> (r: ValueHash)
    ensures
        r == leaf_path_hash(h, *key, *leaf, 256),
{
    let mut cur = *leaf;
    let mut e = hash_vacant_leaf(h);
    let mut k: usize = 0;
    while k < 256
        invariant
            k <= 256,
            cur == leaf_path_hash(h, *key, *leaf, k as nat),
            e == empty_subtree_hash(h, k as nat),
        decreases 256 - k,
    {
        if key_bit_at(key, 255 - k) {
            cur = hash_branch(h, &e, &cur);
        } else {
            cur = hash_branch(h, &cur, &e);
        }
        e = hash_branch(h, &e, &e);
        k = k + 1;
    }
    cur
}

fn hash_children<H: HashTree>(h: &H, children: &[Option<ValueHash>; 16], empty: &ValueHash, start: usize, width: usize) -> (r: ValueHash)
    requires
        *empty == empty_subtree_hash(h, 252),
        start + width <= 16,
        width >= 1,
    ensures
        r == children_hash(h, *children, start as int, width as nat),
    decreases width,
{
    if width <= 1 {
        match children[start] {
            Some(c) => c,
            None => *empty,
        }
    } else {
        let half = width / 2;
        let left = hash_children(h, children, empty, start, half);
        let right = hash_children(h, children, empty, start + half, half);
        hash_branch(h, &left, &right)
    }
}

/// The hash of a root node.
pub fn compute_root_node_hash<H: HashTree>(h: &H, node: &RootNode) -> (r: ValueHash)
    ensures
        r == root_node_hash(h, *node),
{
    match node {
        RootNode::Leaf { full_key, value_hash, leaf_index } => {
            let leaf = hash_leaf(h, value_hash, *leaf_index);
            hash_leaf_path(h, full_key, &leaf)
        },
        RootNode::Internal { children } => {
            let empty = compute_empty_subtree_hash(h, 252);
            hash_children(h, children, &empty, 0, 16)
        },
    }
}

/// Changes to apply to a database: here, a new manifest.
#[derive(Clone, Debug, PartialEq, Eq)]
pub struct PatchSet {
    pub manifest: Manifest,
    pub roots: Vec<(u64, Root)>,
}

/// The root of `version` among `roots` (the first entry for it).
pub open spec fn root_in(roots: Seq<(u64, Root)>, version: u64) -> Option<Root>
    decreases roots.len(),
{
    if roots.len() == 0 {
        None
    } else if roots[0].0 == version {
        Some(roots[0].1)
    } else {
        root_in(roots.drop_first(), version)
    }
}

proof fn lemma_root_in_concat(a: Seq<(u64, Root)>, b: Seq<(u64, Root)>, version: u64)
    ensures
        root_in(a + b, version) == (if root_in(a, version) is Some { root_in(a, version) } else { root_in(b, version) }),
    decreases a.len(),
{
    if a.len() > 0 {
        assert((a + b)[0] == a[0]);
        assert((a + b).drop_first() =~= a.drop_first() + b);
        lemma_root_in_concat(a.drop_first(), b, version);
    } else {
        assert(a + b =~= b);
    }
}

impl PatchSet {
    /// A patch that only sets the manifest.
    pub fn from_manifest(manifest: Manifest) -> (r: Self)
        ensures
            r.manifest == manifest,
            r.roots@.len() == 0,
    {
        PatchSet { manifest, roots: Vec::new() }
    }
}

impl Database for PatchSet {
    open spec fn spec_manifest(&self) -> Option<Manifest> {
        Some(self.manifest)
    }

    open spec fn spec_root(&self, version: u64) -> Option<Root> {
        root_in(self.roots@, version)
    }

    fn manifest(&self) -> (r: Option<Manifest>) {
        Some(self.manifest.clone_manifest())
    }

    fn root(&self, version: u64) -> (r: Option<Root>) {
        let n = self.roots.len();
        let mut k: usize = 0;
        assert(self.roots@.subrange(0, n as int) =~= self.roots@);
        while k < n
            invariant
                n == self.roots@.len(),
                k <= n,
                root_in(self.roots@, version) == root_in(self.roots@.subrange(k as int, n as int), version),
            decreases n - k,
        {
            let ghost rest = self.roots@.subrange(k as int, n as int);
            assert(rest[0] == self.roots@[k as int]);
            if self.roots[k].0 == version {
                return Some(self.roots[k].1);
            }
            assert(rest.drop_first() =~= self.roots@.subrange(k as int + 1, n as int));
            k = k + 1;
        }
        None
    }

    fn apply_patch(&mut self, patch: PatchSet) {
        let ghost before = self.roots@;
        let mut roots = patch.roots;
        let ghost first = roots@;
        let mut rest: Vec<(u64, Root)> = Vec::new();
        std::mem::swap(&mut rest, &mut self.roots);
        roots.append(&mut rest);
        proof {
            assert(roots@ == first + before);
            assert forall|version: u64| #[trigger] root_in(roots@, version) == (
                if root_in(first, version) is Some { root_in(first, version) } else { root_in(before, version) }) by {
                lemma_root_in_concat(first, before, version);
            }
        }
        self.roots = roots;
        self.manifest = patch.manifest;
    }
}

impl TreeTags {
    /// A copy of the tags.
    pub fn clone_tags(&self) -> (r: Self)
        ensures
            r == *self,
    {
        TreeTags {
            architecture: self.architecture.clone(),
            depth: self.depth,
            hasher: self.hasher.clone(),
        }
    }
}

impl Manifest {
    /// A copy of the manifest.
    pub fn clone_manifest(&self) -> (r: Self)
        ensures
            r == *self,
    {
        let tags = match &self.tags {
            None => None,
            Some(t) => Some(t.clone_tags()),
        };
        Manifest { version_count: self.version_count, tags }
    }
}

/// How tags can disagree with the tree and its hash function.
#[derive(Clone, Copy, Debug, PartialEq, Eq, Structural)]
pub enum TagsMismatch {
    /// The tree is stored in another architecture.
    Architecture,
    /// The tree has another depth.
    Depth,
    /// The tree was built with another hash function.
    Hasher,
}

/// The first way in which `tags` disagree with a tree of this crate hashed by `hasher_name`.
pub open spec fn tags_mismatch(tags: TreeTags, hasher_name: Seq<char>) -> Option<TagsMismatch> {
    if tags.architecture@ != architecture_name() {
        Some(TagsMismatch::Architecture)
    } else if tags.depth != TREE_DEPTH {
        Some(TagsMismatch::Depth)
    } else if hasher_name != tags.hasher@ {
        Some(TagsMismatch::Hasher)
    } else {
        None
    }
}

/// The tags of `manifest`, if any, agree with a tree hashed by `hasher_name`.
pub open spec fn manifest_fits(manifest: Option<Manifest>, hasher_name: Seq<char>) -> bool {
    match manifest {
        Some(m) => match m.tags {
            Some(t) => tags_mismatch(t, hasher_name) is None,
            None => true,
        },
        None => true,
    }
}

impl TreeTags {
    /// Checks that the tags fit a tree of this crate hashed by `hasher`.
    pub fn check_consistency<H: HashTree>(&self, hasher: &H) -> (r: Result<(), TagsMismatch>)
        ensures
            match r {
                Ok(_) => tags_mismatch(*self, hasher.spec_name()) is None,
                Err(m) => tags_mismatch(*self, hasher.spec_name()) == Some(m),
            },
    {
        if !str_eq(self.architecture.as_str(), "AR16MT") {
            return Err(TagsMismatch::Architecture);
        }
        if self.depth != TREE_DEPTH {
            return Err(TagsMismatch::Depth);
        }
        if !str_eq(hasher.name(), self.hasher.as_str()) {
            return Err(TagsMismatch::Hasher);
        }
        Ok(())
    }
}

/// A Merkle tree over a database, hashed by `hasher`.
pub struct MerkleTree<'a, DB, H> {
    pub db: &'a DB,
    pub hasher: &'a H,
}

/// Checks whether a database fits a hash function: its tags, if any, must agree.
pub fn check_database<DB: Database, H: HashTree>(db: &DB, hasher: &H) -> (r: Result<(), TagsMismatch>)
    ensures
        r is Ok <==> manifest_fits(db.spec_manifest(), hasher.spec_name()),
        r matches Err(m) ==> db.spec_manifest()->0.tags matches Some(t) && tags_mismatch(t, hasher.spec_name()) == Some(m),
{
    match db.manifest() {
        Some(m) => match m.tags {
            Some(t) => t.check_consistency(hasher),
            None => Ok(()),
        },
        None => Ok(()),
    }
}

impl<'a, DB: Database, H: HashTree> MerkleTree<'a, DB, H> {
    /// Loads a tree with the given hash function. A database without tags fits any
    /// hash function (the tags are added when the tree is next saved).
    pub fn with_hasher(db: &'a DB, hasher: &'a H) -> (r: Self)
        requires
            manifest_fits(db.spec_manifest(), hasher.spec_name()),
        ensures
            r.db == db,
            r.hasher == hasher,
    {
        MerkleTree { db, hasher }
    }

    /// The root of `version`, or `None` if that version was not written.
    pub fn root(&self, version: u64) -> (r: Option<Root>)
        ensures
            r == self.db.spec_root(version),
    {
        self.db.root(version)
    }

    /// The root hash of `version`, or `None` if that version was not written: the hash
    /// of its root node under the tree's hash function, or the empty-tree hash.
    pub fn root_hash(&self, version: u64) -> (r: Option<ValueHash>)
        ensures
            r == root_hash_of(self.hasher, self.db.spec_root(version)),
    {
        match self.root(version) {
            None => None,
            Some(Root::Empty) => Some(compute_empty_subtree_hash(self.hasher, 256)),
            Some(Root::Filled { node, .. }) => Some(compute_root_node_hash(self.hasher, &node)),
        }
    }

    /// The latest version present in the database, or `None` if there is none yet.
    pub fn latest_version(&self) -> (r: Option<u64>)
        ensures
            r == latest_version_of(self.db.spec_manifest()),
    {
        match self.db.manifest() {
            Some(m) => m.version_count.checked_sub(1),
            None => None,
        }
    }

    /// The root hash of the latest version (the empty-tree hash if there is none).
    pub fn latest_root_hash(&self) -> (r: ValueHash)
        ensures
            r == match self.db.spec_manifest() {
                Some(m) if m.version_count > 0 => match root_hash_of(self.hasher, self.db.spec_root((m.version_count - 1) as u64)) {
                    Some(x) => x,
                    None => empty_tree_hash(self.hasher),
                },
                _ => empty_tree_hash(self.hasher),
            },
    {
        let root_hash = match self.latest_version() {
            Some(version) => self.root_hash(version),
            None => None,
        };
        match root_hash {
            Some(h) => h,
            None => compute_empty_subtree_hash(self.hasher, 256),
        }
    }

    /// The root of the latest version (empty if there is none).
    pub fn latest_root(&self) -> (r: Root)
        ensures
            r == match self.db.spec_manifest() {
                Some(m) if m.version_count > 0 => match self.db.spec_root((m.version_count - 1) as u64) {
                    Some(root) => root,
                    None => Root::Empty,
                },
                _ => Root::Empty,
            },
    {
        let root = match self.latest_version() {
            Some(version) => self.root(version),
            None => None,
        };
        match root {
            Some(r) => r,
            None => Root::Empty,
        }
    }

    /// Removes the most recent versions, keeping `retained_version_count`: the patch to
    /// apply, or `None` if there is nothing to remove. Node data is kept.
    pub fn truncate_versions(self, retained_version_count: u64) -> (r: Option<PatchSet>)
        ensures
            ({
                let m = match self.db.spec_manifest() {
                    Some(m) => m,
                    None => default_manifest(),
                };
                if m.version_count <= retained_version_count {
                    r is None
                } else {
                    r matches Some(p) && p.manifest == (Manifest { version_count: retained_version_count, tags: m.tags })
                        && p.roots@.len() == 0
                }
            }),
    {
        let mut manifest = match self.db.manifest() {
            Some(m) => m,
            None => Manifest { version_count: 0, tags: None },
        };
        if manifest.version_count <= retained_version_count {
            None
        } else {
            manifest.version_count = retained_version_count;
            Some(PatchSet::from_manifest(manifest))
        }
    }

    /// The version the next extension of the tree creates.
    pub fn next_version(&self) -> (r: u64)
        ensures
            r == match self.db.spec_manifest() {
                Some(m) => m.version_count,
                None => 0,
            },
    {
        match self.db.manifest() {
            Some(m) => m.version_count,
            None => 0,
        }
    }
}

/// The manifest a store holds, or the manifest of a tree without versions.
pub open spec fn stored_manifest(m: Option<Manifest>) -> Manifest {
    match m {
        Some(m) => m,
        None => default_manifest(),
    }
}

/// Truncating a tree to `retained` of its versions and applying the patch to its store
/// keeps the root, and so the root hash under any hash function, of every retained
/// version; the latest version becomes `retained - 1` (none when nothing is retained).
pub proof fn law_truncate_keeps_retained_roots<DB: Database, H: HashTree>(
    before: DB,
    patch: PatchSet,
    after: DB,
    retained: u64,
    h: &H,
)
    requires
        stored_manifest(before.spec_manifest()).version_count > retained,
        patch.manifest == (Manifest { version_count: retained, tags: stored_manifest(before.spec_manifest()).tags }),
        patch.roots@.len() == 0,
        after.spec_manifest() == Some(patch.manifest),
        forall|version: u64| #[trigger] after.spec_root(version) == (
            if root_in(patch.roots@, version) is Some {
                root_in(patch.roots@, version)
            } else {
                before.spec_root(version)
            }),
    ensures
        forall|version: u64| version < retained ==>
            #[trigger] root_hash_of(h, after.spec_root(version)) == root_hash_of(h, before.spec_root(version)),
        latest_version_of(after.spec_manifest()) == (if retained > 0 { Some((retained - 1) as u64) } else { None }),
{
    assert forall|version: u64| version < retained implies
        #[trigger] root_hash_of(h, after.spec_root(version)) == root_hash_of(h, before.spec_root(version)) by {
        assert(root_in(patch.roots@, version) is None);
        assert(after.spec_root(version) == before.spec_root(version));
    }
}

} // verus!
