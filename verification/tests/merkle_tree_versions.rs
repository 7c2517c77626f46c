use micro_core::merkle_tree::{
    check_database, compute_empty_subtree_hash, Database, compute_root_node_hash, Manifest, MerkleTree,
    PatchSet, Root, RootNode, TagsMismatch, TreeTags,
};

fn node() -> RootNode {
    let mut children = [None; 16];
    children[3] = Some([7; 32]);
    RootNode::Internal { children }
}

fn tags(architecture: &str, depth: usize, hasher: &str) -> Option<TreeTags> {
    Some(TreeTags {
        architecture: architecture.to_owned(),
        depth,
        hasher: hasher.to_string(),
    })
}

fn db(version_count: u64, roots: Vec<(u64, Root)>) -> PatchSet {
    PatchSet {
        manifest: Manifest { version_count, tags: tags("AR16MT", 256, "no_op256") },
        roots,
    }
}

#[test]
fn tags_checked_against_the_hasher() {
    let hasher = ();
    let arch = PatchSet::from_manifest(Manifest { version_count: 0, tags: tags("AR64MT", 256, "no_op256") });
    assert_eq!(check_database(&arch, &hasher), Err(TagsMismatch::Architecture));
    let depth = PatchSet::from_manifest(Manifest { version_count: 0, tags: tags("AR16MT", 128, "no_op256") });
    assert_eq!(check_database(&depth, &hasher), Err(TagsMismatch::Depth));
    let other = PatchSet::from_manifest(Manifest { version_count: 0, tags: tags("AR16MT", 256, "sha256") });
    assert_eq!(check_database(&other, &hasher), Err(TagsMismatch::Hasher));
    let untagged = PatchSet::from_manifest(Manifest { version_count: 0, tags: None });
    assert_eq!(check_database(&untagged, &hasher), Ok(()));
    assert_eq!(check_database(&db(0, vec![]), &hasher), Ok(()));
}

#[test]
fn roots_and_latest_version() {
    let hasher = ();
    let patch = db(2, vec![(0, Root::Empty), (1, Root::Filled { leaf_count: 3, node: node() })]);
    let tree = MerkleTree::with_hasher(&patch, &hasher);
    assert_eq!(tree.latest_version(), Some(1));
    assert_eq!(tree.root(1), Some(Root::Filled { leaf_count: 3, node: node() }));
    assert_eq!(tree.root(5), None);
    assert_eq!(tree.root_hash(0), Some([0; 32]));
    assert_eq!(tree.root_hash(1), Some([0; 32]));
    assert_eq!(tree.root_hash(2), None);
    assert_eq!(tree.latest_root_hash(), [0; 32]);
    assert_eq!(tree.latest_root(), Root::Filled { leaf_count: 3, node: node() });
    assert_eq!(tree.next_version(), 2);
}

#[test]
fn empty_tree() {
    let hasher = ();
    let patch = db(0, vec![]);
    let tree = MerkleTree::with_hasher(&patch, &hasher);
    assert_eq!(tree.latest_version(), None);
    assert_eq!(tree.latest_root_hash(), [0; 32]);
    assert_eq!(tree.latest_root(), Root::Empty);
    assert_eq!(tree.next_version(), 0);
}

#[test]
fn truncating_versions() {
    let hasher = ();
    let patch = db(5, vec![(4, Root::Empty)]);
    let tree = MerkleTree::with_hasher(&patch, &hasher);
    let p = tree.truncate_versions(2).unwrap();
    assert_eq!(p.manifest.version_count, 2);
    assert_eq!(p.manifest.tags, tags("AR16MT", 256, "no_op256"));
    assert!(p.roots.is_empty());
    let truncated = MerkleTree::with_hasher(&p, &hasher);
    assert_eq!(truncated.latest_version(), Some(1));

    let tree = MerkleTree::with_hasher(&patch, &hasher);
    assert!(tree.truncate_versions(5).is_none());
    let tree = MerkleTree::with_hasher(&patch, &hasher);
    assert!(tree.truncate_versions(9).is_none());
}

#[test]
fn applying_a_truncation_keeps_retained_roots() {
    let hasher = ();
    let mut store = db(3, vec![(0, Root::Empty), (2, Root::Filled { leaf_count: 1, node: node() })]);
    let patch = MerkleTree::with_hasher(&store, &hasher).truncate_versions(1).unwrap();
    store.apply_patch(patch);
    let tree = MerkleTree::with_hasher(&store, &hasher);
    assert_eq!(tree.latest_version(), Some(0));
    assert_eq!(tree.root(0), Some(Root::Empty));
    assert_eq!(tree.root(2), Some(Root::Filled { leaf_count: 1, node: node() }));
    let mut other = db(1, vec![(0, Root::Empty)]);
    other.apply_patch(PatchSet {
        manifest: Manifest { version_count: 2, tags: None },
        roots: vec![(0, Root::Filled { leaf_count: 1, node: node() }), (1, Root::Empty)],
    });
    assert_eq!(other.manifest.version_count, 2);
    let t = MerkleTree::with_hasher(&other, &hasher);
    assert_eq!(t.root(0), Some(Root::Filled { leaf_count: 1, node: node() }));
    assert_eq!(t.root(1), Some(Root::Empty));
}

#[test]
fn hashing_with_the_no_op_hasher() {
    assert_eq!(compute_empty_subtree_hash(&(), 0), [0; 32]);
    assert_eq!(compute_empty_subtree_hash(&(), 256), [0; 32]);
    let leaf = RootNode::Leaf { full_key: [0xa5; 32], value_hash: [1; 32], leaf_index: 1 };
    assert_eq!(compute_root_node_hash(&(), &leaf), [0; 32]);
    assert_eq!(compute_root_node_hash(&(), &node()), [0; 32]);
}
