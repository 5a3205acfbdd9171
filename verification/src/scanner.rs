//! A simpler, non-pruning scanner: it skips hidden entries (except ".venv"),
//! reports heavy-dependency directories with their aggregate size while
//! still descending into them, and reports log and text files above one
//! kibibyte regardless of age.

use vstd::prelude::*;

use crate::bytes::clone_bytes;
use crate::crawler::{ext_matches, has_ext, heavy_name, is_heavy_name, tree_size, tree_size_seq,
    NodeKind, TreeNode};
use crate::fsmodel::sat_u64;

verus! {

/// One entry this scanner reports: a full path and a size.
pub struct ScanResult {
    pub path: Vec<u8>,
    pub size: u64,
}

/// The mathematical shape of a `ScanResult`.
pub struct ScanResultV {
    pub path: Seq<u8>,
    pub size: u64,
}

impl View for ScanResult {
    type V = ScanResultV;

    open spec fn view(&self) -> ScanResultV {
        ScanResultV { path: self.path@, size: self.size }
    }
}

/// The views of a sequence of scan results.
pub open spec fn results_view(s: Seq<ScanResult>) -> Seq<ScanResultV> {
    s.map_values(|r: ScanResult| r@)
}

/// A hidden name: it starts with a dot and is not ".venv" (kept so that
/// virtual environments are still found).
pub open spec fn is_hidden_name(name: Seq<u8>) -> bool {
    name.len() > 0 && name[0] == 46u8 && name != seq![46u8, 118u8, 101u8, 110u8, 118u8]
}

/// A log or text file name.
pub open spec fn has_scan_ext(name: Seq<u8>) -> bool {
    ||| has_ext(name, seq![108u8, 111u8, 103u8])
    ||| has_ext(name, seq![116u8, 120u8, 116u8])
}

/// What this scanner reports for the subtree at `node` (full path `path`),
/// in visit order: hidden subtrees are skipped whole; a heavy-dependency
/// directory is reported and then still descended into; a log or text file
/// above one kibibyte is reported.
pub open spec fn scan_spec(node: TreeNode, path: Seq<u8>) -> Seq<ScanResultV>
    decreases node,
{
    if is_hidden_name(node.name@) {
        Seq::empty()
    } else {
        match node.kind {
            NodeKind::Dir { children } => {
                let own: Seq<ScanResultV> = if is_heavy_name(node.name@) {
                    seq![
                        ScanResultV { path, size: sat_u64(tree_size_seq(children@)) as u64 },
                    ]
                } else {
                    Seq::empty()
                };
                own + scan_children_spec(children@, path)
            },
            NodeKind::File { size, .. } => {
                if has_scan_ext(node.name@) && size > 1024 {
                    seq![ScanResultV { path, size }]
                } else {
                    Seq::empty()
                }
            },
        }
    }
}

/// The reports under a sequence of children of the directory at `path`.
pub open spec fn scan_children_spec(nodes: Seq<TreeNode>, path: Seq<u8>) -> Seq<ScanResultV>
    decreases nodes,
{
    if nodes.len() == 0 {
        Seq::empty()
    } else {
        scan_children_spec(nodes.drop_last(), path) + scan_spec(
            nodes.last(),
            path + seq![47u8] + nodes.last().name@,
        )
    }
}

/// Is `name` hidden to this scanner?
pub fn is_hidden(name: &Vec<u8>) -> (r: bool)
    ensures
        r == is_hidden_name(name@),
{
    if name.len() == 0 {
        return false;
    }
    if name[0] != 46u8 {
        return false;
    }
    // ".venv" as bytes.
    let dot_venv: Vec<u8> = vec![46u8, 118u8, 101u8, 110u8, 118u8];
    proof {
        assert(dot_venv@ =~= seq![46u8, 118u8, 101u8, 110u8, 118u8]);
    }
    !crate::bytes::bytes_eq(name, &dot_venv)
}

fn scan_ext(name: &Vec<u8>) -> (r: bool)
    ensures
        r == has_scan_ext(name@),
{
    // ".log" and ".txt" as bytes.
    let e1: Vec<u8> = vec![46u8, 108u8, 111u8, 103u8];
    let e2: Vec<u8> = vec![46u8, 116u8, 120u8, 116u8];
    proof {
        assert(e1@ =~= seq![46u8] + seq![108u8, 111u8, 103u8]);
        assert(e2@ =~= seq![46u8] + seq![116u8, 120u8, 116u8]);
    }
    ext_matches(name, &e1) || ext_matches(name, &e2)
}

fn scan_node(node: &TreeNode, path: &Vec<u8>) -> (r: Vec<ScanResult>)
    ensures
        results_view(r@) == scan_spec(*node, path@),
    decreases *node,
{
    let mut r: Vec<ScanResult> = Vec::new();
    if is_hidden(&node.name) {
        assert(results_view(r@) =~= scan_spec(*node, path@));
        return r;
    }
    match &node.kind {
        NodeKind::File { size, .. } => {
            if scan_ext(&node.name) && *size > 1024 {
                r.push(ScanResult { path: clone_bytes(path), size: *size });
            }
            assert(results_view(r@) =~= scan_spec(*node, path@));
            r
        },
        NodeKind::Dir { children } => {
            if heavy_name(&node.name) {
                let size = crate::crawler::subtree_size(node);
                r.push(ScanResult { path: clone_bytes(path), size });
            }
            let ghost own = results_view(r@);
            assert(own =~= (if is_heavy_name(node.name@) {
                seq![
                    ScanResultV {
                        path: path@,
                        size: sat_u64(tree_size(*node)) as u64,
                    },
                ]
            } else {
                Seq::<ScanResultV>::empty()
            }));
            let slash: Vec<u8> = vec![47u8];
            assert(slash@ =~= seq![47u8]);
            let mut i: usize = 0;
            while i < children.len()
                invariant
                    0 <= i <= children@.len(),
                    node.kind == (NodeKind::Dir { children: *children }),
                    slash@ == seq![47u8],
                    results_view(r@) == own + scan_children_spec(
                        children@.subrange(0, i as int),
                        path@,
                    ),
                decreases children@.len() - i,
            {
                proof {
                    assert(decreases_to!(*node => node.kind->Dir_children));
                    assert(node.kind->Dir_children == *children);
                    assert(decreases_to!(*children => children@[i as int]));
                }
                let with_slash = crate::bytes::append_bytes(path, &slash);
                let child_path = crate::bytes::append_bytes(&with_slash, &children[i].name);
                assert(child_path@ == path@ + seq![47u8] + children@[i as int].name@);
                let mut sub = scan_node(&children[i], &child_path);
                proof {
                    let pre = children@.subrange(0, i as int);
                    let post = children@.subrange(0, i + 1);
                    assert(post.drop_last() =~= pre);
                    assert(post.last() == children@[i as int]);
                }
                let ghost r_pre = r@;
                let ghost sub_pre = sub@;
                r.append(&mut sub);
                proof {
                    assert(r@ == r_pre + sub_pre);
                    assert(results_view(r_pre + sub_pre) =~= results_view(r_pre) + results_view(
                        sub_pre,
                    ));
                    assert(results_view(r@) =~= own + scan_children_spec(
                        children@.subrange(0, i + 1),
                        path@,
                    ));
                }
                i = i + 1;
            }
            assert(children@.subrange(0, children@.len() as int) =~= children@);
            r
        },
    }
}

/// Scan the tree at `root` (whose full path is `root_path`) with the
/// simple rules: the reports of `scan_spec`, in visit order.
pub fn scan_logs(root: &TreeNode, root_path: &Vec<u8>) -> (r: Vec<ScanResult>)
    ensures
        results_view(r@) == scan_spec(*root, root_path@),
{
    scan_node(root, root_path)
}

} // verus!
