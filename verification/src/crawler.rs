//! The crawler: walk a tree of filesystem metadata, classify every entry,
//! take each heavy-dependency directory as one atomic candidate without
//! descending into it, never enter version-control metadata, and return the
//! candidates sorted by size descending.

use vstd::prelude::*;

use crate::bytes::{append_bytes, clone_bytes, slice_eq};
use crate::fsmodel::sat_u64;

verus! {

/// Why an entry was reported as reclaimable (or, on a managed item, why it
/// was later marked failed).
#[derive(Clone, Copy, Debug, PartialEq, Eq, Structural)]
pub enum Reason {
    HeavyDependencyFolder,
    StaleLogFile,
    NoSavings,
}

/// What one filesystem entry looks like to the classifier.
pub enum NodeKind {
    File { size: u64, accessed_secs_ago: u64 },
    Dir { children: Vec<TreeNode> },
}

/// One entry of the scanned tree: its leaf name and its metadata.
pub struct TreeNode {
    pub name: Vec<u8>,
    pub kind: NodeKind,
}

/// One candidate the crawler reports: a full path, the reclaimable size,
/// and the rule that matched.
pub struct ScannedItem {
    pub path: Vec<u8>,
    pub size: u64,
    pub reason: Reason,
}

/// The mathematical shape of a `ScannedItem`.
pub struct ScannedItemV {
    pub path: Seq<u8>,
    pub size: u64,
    pub reason: Reason,
}

impl View for ScannedItem {
    type V = ScannedItemV;

    open spec fn view(&self) -> ScannedItemV {
        ScannedItemV { path: self.path@, size: self.size, reason: self.reason }
    }
}

/// The views of a sequence of scanned items.
pub open spec fn items_view(s: Seq<ScannedItem>) -> Seq<ScannedItemV> {
    s.map_values(|i: ScannedItem| i@)
}

/// The sum of the sizes of all regular files in a subtree.
pub open spec fn tree_size(node: TreeNode) -> int
    decreases node,
{
    match node.kind {
        NodeKind::File { size, .. } => size as int,
        NodeKind::Dir { children } => tree_size_seq(children@),
    }
}

/// The sum of the sizes of all regular files under a sequence of nodes.
pub open spec fn tree_size_seq(nodes: Seq<TreeNode>) -> int
    decreases nodes,
{
    if nodes.len() == 0 {
        0
    } else {
        tree_size_seq(nodes.drop_last()) + tree_size(nodes.last())
    }
}

proof fn lemma_tree_size_nonneg(node: TreeNode)
    ensures
        tree_size(node) >= 0,
    decreases node,
{
    match node.kind {
        NodeKind::File { .. } => {},
        NodeKind::Dir { children } => {
            lemma_tree_size_seq_nonneg(children@);
        },
    }
}

proof fn lemma_tree_size_seq_nonneg(nodes: Seq<TreeNode>)
    ensures
        tree_size_seq(nodes) >= 0,
    decreases nodes,
{
    if nodes.len() > 0 {
        lemma_tree_size_seq_nonneg(nodes.drop_last());
        lemma_tree_size_nonneg(nodes.last());
    }
}

proof fn lemma_sat_add(a: int, b: int)
    requires
        a >= 0,
        b >= 0,
    ensures
        sat_u64(sat_u64(a) + sat_u64(b)) == sat_u64(a + b),
{
}

/// The name of version-control metadata directories, which are never
/// reported and never entered: ".git".
pub open spec fn vcs_name() -> Seq<u8> {
    seq![46u8, 103u8, 105u8, 116u8]
}

/// The directory names treated as heavy-dependency markers: "node_modules",
/// "target", "venv" and ".venv".
pub open spec fn is_heavy_name(name: Seq<u8>) -> bool {
    ||| name == seq![
        110u8, 111u8, 100u8, 101u8, 95u8, 109u8, 111u8, 100u8, 117u8, 108u8, 101u8, 115u8,
    ]
    ||| name == seq![116u8, 97u8, 114u8, 103u8, 101u8, 116u8]
    ||| name == seq![118u8, 101u8, 110u8, 118u8]
    ||| name == seq![46u8, 118u8, 101u8, 110u8, 118u8]
}

/// The file extensions of stale artifacts: "log", "txt" and "old", each
/// preceded by a dot and a non-empty stem.
pub open spec fn has_stale_ext(name: Seq<u8>) -> bool {
    ||| has_ext(name, seq![108u8, 111u8, 103u8])
    ||| has_ext(name, seq![116u8, 120u8, 116u8])
    ||| has_ext(name, seq![111u8, 108u8, 100u8])
}

/// `name` has the extension `ext`: it ends in a dot followed by `ext`, with
/// at least one byte of stem before the dot.
pub open spec fn has_ext(name: Seq<u8>, ext: Seq<u8>) -> bool {
    name.len() >= ext.len() + 2 && crate::bytes::spec_ends_with(name, seq![46u8] + ext)
}

/// One mebibyte: the size a stale artifact must exceed.
pub open spec fn stale_size_threshold() -> int {
    1048576
}

/// Thirty days in seconds: the staleness window.
pub open spec fn stale_age_threshold() -> int {
    2592000
}

/// The stale-artifact rule: a file with a stale extension, strictly larger
/// than one mebibyte, last accessed strictly more than thirty days ago.
pub open spec fn is_stale_file(name: Seq<u8>, size: u64, accessed_secs_ago: u64) -> bool {
    has_stale_ext(name) && size > stale_size_threshold() && accessed_secs_ago
        > stale_age_threshold()
}

/// How the classifier rules, in priority order, judge one entry at `path`.
pub open spec fn classify_entry(node: TreeNode, path: Seq<u8>) -> Option<ScannedItemV> {
    if node.name@ == vcs_name() {
        None
    } else {
        match node.kind {
            NodeKind::Dir { children } => {
                if is_heavy_name(node.name@) {
                    Some(
                        ScannedItemV {
                            path,
                            size: sat_u64(tree_size_seq(children@)) as u64,
                            reason: Reason::HeavyDependencyFolder,
                        },
                    )
                } else {
                    None
                }
            },
            NodeKind::File { size, accessed_secs_ago } => {
                if is_stale_file(node.name@, size, accessed_secs_ago) {
                    Some(ScannedItemV { path, size, reason: Reason::StaleLogFile })
                } else {
                    None
                }
            },
        }
    }
}

/// Every candidate in the subtree at `node` (whose full path is `path`), in
/// visit order: a matched heavy directory is one candidate and its subtree
/// is not entered; version-control metadata is neither reported nor
/// entered.
pub open spec fn crawl_spec(node: TreeNode, path: Seq<u8>) -> Seq<ScannedItemV>
    decreases node,
{
    if node.name@ == vcs_name() {
        Seq::empty()
    } else {
        match node.kind {
            NodeKind::Dir { children } => {
                if is_heavy_name(node.name@) {
                    seq![classify_entry(node, path)->Some_0]
                } else {
                    crawl_children_spec(children@, path)
                }
            },
            NodeKind::File { .. } => {
                match classify_entry(node, path) {
                    Some(item) => seq![item],
                    None => Seq::empty(),
                }
            },
        }
    }
}

/// The candidates under a sequence of children of the directory at `path`.
pub open spec fn crawl_children_spec(nodes: Seq<TreeNode>, path: Seq<u8>) -> Seq<ScannedItemV>
    decreases nodes,
{
    if nodes.len() == 0 {
        Seq::empty()
    } else {
        crawl_children_spec(nodes.drop_last(), path) + crawl_spec(
            nodes.last(),
            path + seq![47u8] + nodes.last().name@,
        )
    }
}

/// Is `name` a heavy-dependency marker?
pub fn heavy_name(name: &Vec<u8>) -> (r: bool)
    ensures
        r == is_heavy_name(name@),
{
    // "node_modules", "target", "venv" and ".venv" as bytes.
    let m1: Vec<u8> = vec![110u8, 111u8, 100u8, 101u8, 95u8, 109u8, 111u8, 100u8, 117u8, 108u8, 101u8, 115u8];
    let m2: Vec<u8> = vec![116u8, 97u8, 114u8, 103u8, 101u8, 116u8];
    let m3: Vec<u8> = vec![118u8, 101u8, 110u8, 118u8];
    let m4: Vec<u8> = vec![46u8, 118u8, 101u8, 110u8, 118u8];
    proof {
        assert(m1@ =~= seq![
            110u8, 111u8, 100u8, 101u8, 95u8, 109u8, 111u8, 100u8, 117u8, 108u8, 101u8, 115u8,
        ]);
        assert(m2@ =~= seq![116u8, 97u8, 114u8, 103u8, 101u8, 116u8]);
        assert(m3@ =~= seq![118u8, 101u8, 110u8, 118u8]);
        assert(m4@ =~= seq![46u8, 118u8, 101u8, 110u8, 118u8]);
    }
    slice_eq(name.as_slice(), m1.as_slice()) || slice_eq(name.as_slice(), m2.as_slice())
        || slice_eq(name.as_slice(), m3.as_slice()) || slice_eq(name.as_slice(), m4.as_slice())
}

/// Is `name` the version-control metadata directory name?
pub fn vcs_dir_name(name: &Vec<u8>) -> (r: bool)
    ensures
        r == (name@ == vcs_name()),
{
    // ".git" as bytes.
    let m: Vec<u8> = vec![46u8, 103u8, 105u8, 116u8];
    proof {
        assert(m@ =~= vcs_name());
    }
    slice_eq(name.as_slice(), m.as_slice())
}

pub(crate) fn ext_matches(name: &Vec<u8>, dotted: &Vec<u8>) -> (r: bool)
    requires
        dotted@.len() >= 1,
    ensures
        r == (name@.len() >= dotted@.len() + 1 && crate::bytes::spec_ends_with(name@, dotted@)),
{
    if name.len() <= dotted.len() {
        return false;
    }
    crate::bytes::ends_with(name, dotted)
}

/// Does `name` carry one of the stale-artifact extensions?
pub fn stale_ext(name: &Vec<u8>) -> (r: bool)
    ensures
        r == has_stale_ext(name@),
{
    // ".log", ".txt" and ".old" as bytes.
    let e1: Vec<u8> = vec![46u8, 108u8, 111u8, 103u8];
    let e2: Vec<u8> = vec![46u8, 116u8, 120u8, 116u8];
    let e3: Vec<u8> = vec![46u8, 111u8, 108u8, 100u8];
    proof {
        assert(e1@ =~= seq![46u8] + seq![108u8, 111u8, 103u8]);
        assert(e2@ =~= seq![46u8] + seq![116u8, 120u8, 116u8]);
        assert(e3@ =~= seq![46u8] + seq![111u8, 108u8, 100u8]);
    }
    ext_matches(name, &e1) || ext_matches(name, &e2) || ext_matches(name, &e3)
}

/// The heuristic, pruning crawler over a scanned root.
pub struct Spyder {
    pub root: Vec<u8>,
}

/// Sizes in the result never increase: sorted by size descending.
pub open spec fn sorted_desc(s: Seq<ScannedItem>) -> bool {
    forall|i: int, j: int| 0 <= i < j < s.len() ==> s[i].size >= s[j].size
}

impl Spyder {
    /// A crawler for the tree rooted at `root`.
    pub fn new(root: Vec<u8>) -> (s: Spyder)
        ensures
            s.root@ == root@,
    {
        Spyder { root }
    }

    /// The subtree size of one entry, clamped to `u64`: the sum of the
    /// sizes of all regular files under it.
    pub fn get_dir_size(&self, node: &TreeNode) -> (r: u64)
        ensures
            r == sat_u64(tree_size(*node)),
    {
        subtree_size(node)
    }
}

/// The subtree size of one entry, clamped to `u64`: the sum of the sizes of
/// all regular files under it.
pub fn subtree_size(node: &TreeNode) -> (r: u64)
    ensures
        r == sat_u64(tree_size(*node)),
    decreases *node,
{
    match &node.kind {
        NodeKind::File { size, .. } => *size,
        NodeKind::Dir { children } => {
            let mut acc: u64 = 0;
            let mut i: usize = 0;
            while i < children.len()
                invariant
                    0 <= i <= children@.len(),
                    node.kind == (NodeKind::Dir { children: *children }),
                    acc == sat_u64(tree_size_seq(children@.subrange(0, i as int))),
                decreases children@.len() - i,
            {
                proof {
                    assert(decreases_to!(*node => node.kind->Dir_children));
                    assert(node.kind->Dir_children == *children);
                    assert(decreases_to!(*children => children@[i as int]));
                }
                let c = subtree_size(&children[i]);
                proof {
                    let pre = children@.subrange(0, i as int);
                    let post = children@.subrange(0, i + 1);
                    assert(post.drop_last() =~= pre);
                    assert(post.last() == children@[i as int]);
                    lemma_tree_size_seq_nonneg(pre);
                    lemma_tree_size_nonneg(children@[i as int]);
                    lemma_sat_add(tree_size_seq(pre), tree_size(children@[i as int]));
                }
                acc = acc.saturating_add(c);
                i = i + 1;
            }
            assert(children@.subrange(0, children@.len() as int) =~= children@);
            acc
        },
    }
}

impl Spyder {
    /// Judge one entry by the classifier rules, in priority order: never
    /// report version-control metadata; a heavy-dependency directory is one
    /// candidate carrying its aggregate size; a stale artifact file is a
    /// candidate carrying its own size.
    pub fn analyze_entry(&self, node: &TreeNode, path: &Vec<u8>) -> (r: Option<ScannedItem>)
        ensures
            match r {
                Some(item) => classify_entry(*node, path@) == Some(item@),
                None => classify_entry(*node, path@) is None,
            },
    {
        if vcs_dir_name(&node.name) {
            return None;
        }
        match &node.kind {
            NodeKind::Dir { .. } => {
                if heavy_name(&node.name) {
                    let size = self.get_dir_size(node);
                    Some(
                        ScannedItem {
                            path: clone_bytes(path),
                            size,
                            reason: Reason::HeavyDependencyFolder,
                        },
                    )
                } else {
                    None
                }
            },
            NodeKind::File { size, accessed_secs_ago } => {
                if stale_ext(&node.name) && *size > 1048576 && *accessed_secs_ago > 2592000 {
                    Some(
                        ScannedItem {
                            path: clone_bytes(path),
                            size: *size,
                            reason: Reason::StaleLogFile,
                        },
                    )
                } else {
                    None
                }
            },
        }
    }

    fn crawl_node(&self, node: &TreeNode, path: &Vec<u8>) -> (r: Vec<ScannedItem>)
        ensures
            items_view(r@) == crawl_spec(*node, path@),
        decreases *node,
    {
        if vcs_dir_name(&node.name) {
            let r: Vec<ScannedItem> = Vec::new();
            assert(items_view(r@) =~= crawl_spec(*node, path@));
            return r;
        }
        match &node.kind {
            NodeKind::File { .. } => {
                let mut r: Vec<ScannedItem> = Vec::new();
                match self.analyze_entry(node, path) {
                    Some(item) => {
                        r.push(item);
                        assert(items_view(r@) =~= crawl_spec(*node, path@));
                    },
                    None => {
                        assert(items_view(r@) =~= crawl_spec(*node, path@));
                    },
                }
                r
            },
            NodeKind::Dir { children } => {
                if heavy_name(&node.name) {
                    let mut r: Vec<ScannedItem> = Vec::new();
                    let size = self.get_dir_size(node);
                    r.push(
                        ScannedItem {
                            path: clone_bytes(path),
                            size,
                            reason: Reason::HeavyDependencyFolder,
                        },
                    );
                    assert(items_view(r@) =~= crawl_spec(*node, path@));
                    r
                } else {
                    let mut r: Vec<ScannedItem> = Vec::new();
                    let slash: Vec<u8> = vec![47u8];
                    assert(slash@ =~= seq![47u8]);
                    let mut i: usize = 0;
                    while i < children.len()
                        invariant
                            0 <= i <= children@.len(),
                            node.kind == (NodeKind::Dir { children: *children }),
                            slash@ == seq![47u8],
                            items_view(r@) == crawl_children_spec(
                                children@.subrange(0, i as int),
                                path@,
                            ),
                        decreases children@.len() - i,
                    {
                        proof {
                            assert(decreases_to!(*node => node.kind->Dir_children));
                            assert(node.kind->Dir_children == *children);
                            assert(decreases_to!(*children => children@[i as int]));
                        }
                        let with_slash = append_bytes(path, &slash);
                        let child_path = append_bytes(&with_slash, &children[i].name);
                        assert(child_path@ == path@ + seq![47u8] + children@[i as int].name@);
                        let mut sub = self.crawl_node(&children[i], &child_path);
                        proof {
                            let pre = children@.subrange(0, i as int);
                            let post = children@.subrange(0, i + 1);
                            assert(post.drop_last() =~= pre);
                            assert(post.last() == children@[i as int]);
                        }
                        let ghost r_pre = r@;
                        let ghost sub_pre = sub@;
                        r.append(&mut sub);
                        proof {
                            assert(r@ == r_pre + sub_pre);
                            assert(items_view(r_pre + sub_pre) =~= items_view(r_pre)
                                + items_view(sub_pre));
                            assert(items_view(r@) =~= crawl_children_spec(
                                children@.subrange(0, i + 1),
                                path@,
                            ));
                        }
                        i = i + 1;
                    }
                    assert(children@.subrange(0, children@.len() as int) =~= children@);
                    r
                }
            },
        }
    }

    /// Crawl the tree rooted at this crawler's root path: every candidate
    /// the classifier rules yield, each exactly once, sorted by size
    /// descending (ties in either order).
    pub fn crawl(&self, root: &TreeNode) -> (r: Vec<ScannedItem>)
        ensures
            items_view(r@).to_multiset() == crawl_spec(*root, self.root@).to_multiset(),
            sorted_desc(r@),
    {
        let path = clone_bytes(&self.root);
        let mut items = self.crawl_node(root, &path);
        sort_by_size_desc(&mut items);
        items
    }
}

/// Sort candidates by size descending; the result holds exactly the given
/// items.
pub fn sort_by_size_desc(items: &mut Vec<ScannedItem>)
    ensures
        items_view(final(items)@).to_multiset() == items_view(old(items)@).to_multiset(),
        sorted_desc(final(items)@),
{
    broadcast use vstd::seq_lib::group_to_multiset_ensures;

    let ghost orig = items@;
    let mut rest: Vec<ScannedItem> = Vec::new();
    std::mem::swap(&mut rest, items);
    let mut out: Vec<ScannedItem> = Vec::new();
    proof {
        assert(items_view(out@) =~= Seq::<ScannedItemV>::empty());
        assert(items_view(out@).to_multiset().add(items_view(rest@).to_multiset())
            =~= items_view(orig).to_multiset());
    }
    while rest.len() > 0
        invariant
            items_view(out@).to_multiset().add(items_view(rest@).to_multiset())
                == items_view(orig).to_multiset(),
            sorted_desc(out@),
            forall|a: int, b: int|
                0 <= a < out@.len() && 0 <= b < rest@.len() ==> out@[a].size >= rest@[b].size,
        decreases rest@.len(),
    {
        let mut max_i: usize = 0;
        let mut k: usize = 1;
        while k < rest.len()
            invariant
                0 <= max_i < k <= rest@.len(),
                forall|t: int| 0 <= t < k ==> rest@[max_i as int].size >= rest@[t].size,
            decreases rest@.len() - k,
        {
            if rest[k].size > rest[max_i].size {
                max_i = k;
            }
            k = k + 1;
        }
        let ghost rest_pre = rest@;
        let ghost out_pre = out@;
        let picked = rest.remove(max_i);
        out.push(picked);
        proof {
            assert(items_view(rest@) =~= items_view(rest_pre).remove(max_i as int));
            assert(items_view(rest_pre)[max_i as int] == picked@);
            vstd::seq_lib::to_multiset_remove::<ScannedItemV>(items_view(rest_pre), max_i as int);
            assert(items_view(rest@).to_multiset() =~= items_view(rest_pre).to_multiset().remove(
                picked@,
            ));
            assert(items_view(out@) =~= items_view(out_pre).push(picked@));
            vstd::seq_lib::to_multiset_build::<ScannedItemV>(items_view(out_pre), picked@);
            assert(items_view(out@).to_multiset() =~= items_view(out_pre).to_multiset().insert(
                picked@,
            ));
            assert(items_view(rest_pre).contains(picked@)) by {
                assert(items_view(rest_pre)[max_i as int] == picked@);
            }
            vstd::seq_lib::to_multiset_contains::<ScannedItemV>(items_view(rest_pre), picked@);
            assert(items_view(rest_pre).to_multiset().count(picked@) > 0);
            assert(items_view(out@).to_multiset().add(items_view(rest@).to_multiset())
                =~= items_view(out_pre).to_multiset().add(items_view(rest_pre).to_multiset()));
        }
    }
    proof {
        assert(items_view(rest@) =~= Seq::<ScannedItemV>::empty());
        assert(items_view(out@).to_multiset().add(items_view(rest@).to_multiset())
            =~= items_view(out@).to_multiset());
    }
    *items = out;
}

/// Law: a heavy-dependency directory is one atomic candidate.  Whatever its
/// subtree holds — in particular another heavy-dependency directory nested
/// inside it — the crawl of that subtree yields exactly the one candidate
/// for the directory itself, carrying its aggregate size.
pub proof fn lemma_heavy_dir_is_one_candidate(node: TreeNode, path: Seq<u8>)
    requires
        (node.kind is Dir),
        is_heavy_name(node.name@),
    ensures
        crawl_spec(node, path).len() == 1,
        crawl_spec(node, path)[0] == (ScannedItemV {
            path,
            size: sat_u64(tree_size(node)) as u64,
            reason: Reason::HeavyDependencyFolder,
        }),
{
    assert(node.name@ != vcs_name()) by {
        assert(vcs_name()[1] == 103u8);
        if node.name@ == seq![118u8, 101u8, 110u8, 118u8] {
            assert(node.name@[1] == 101u8);
        }
    }
}

} // verus!
