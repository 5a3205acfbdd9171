//! An in-memory model of the slice of the filesystem that the archiver
//! works on: a flat map from paths to objects, where an object is either a
//! regular file with its bytes or a directory with its contained files.
//!
//! The archiver's commit-or-discard protocol is stated and verified against
//! this model; the thin unverified shell mirrors each committed step onto the
//! real disk.

use vstd::prelude::*;

verus! {

/// One regular file inside a directory: its path relative to the directory,
/// and its contents.
pub struct DirFile {
    pub name: Vec<u8>,
    pub data: Vec<u8>,
}

impl View for DirFile {
    type V = (Seq<u8>, Seq<u8>);

    open spec fn view(&self) -> (Seq<u8>, Seq<u8>) {
        (self.name@, self.data@)
    }
}

/// A filesystem object: a regular file with its bytes, or a directory with
/// the regular files it contains (paths relative to the directory).
pub enum FsObject {
    File(Vec<u8>),
    Dir(Vec<DirFile>),
}

/// The mathematical shape of an `FsObject`.
pub enum FsObjView {
    File(Seq<u8>),
    Dir(Seq<(Seq<u8>, Seq<u8>)>),
}

/// The views of a sequence of directory files.
pub open spec fn files_view(s: Seq<DirFile>) -> Seq<(Seq<u8>, Seq<u8>)> {
    s.map_values(|f: DirFile| f@)
}

impl View for FsObject {
    type V = FsObjView;

    open spec fn view(&self) -> FsObjView {
        match self {
            FsObject::File(data) => FsObjView::File(data@),
            FsObject::Dir(files) => FsObjView::Dir(files_view(files@)),
        }
    }
}

/// The sum of the sizes of a directory's files, as an unbounded integer.
pub open spec fn files_size(s: Seq<(Seq<u8>, Seq<u8>)>) -> int
    decreases s.len(),
{
    if s.len() == 0 {
        0
    } else {
        files_size(s.drop_last()) + s.last().1.len()
    }
}

/// An integer clamped to the range of `u64`.
pub open spec fn sat_u64(x: int) -> int {
    if x > u64::MAX {
        u64::MAX as int
    } else {
        x
    }
}

proof fn lemma_files_size_nonneg(s: Seq<(Seq<u8>, Seq<u8>)>)
    ensures
        files_size(s) >= 0,
    decreases s.len(),
{
    if s.len() > 0 {
        lemma_files_size_nonneg(s.drop_last());
    }
}

/// The total size of a directory's files, clamped to `u64`.
pub fn total_files_size(files: &Vec<DirFile>) -> (r: u64)
    ensures
        r == sat_u64(files_size(files_view(files@))),
{
    let mut acc: u64 = 0;
    let mut i: usize = 0;
    while i < files.len()
        invariant
            0 <= i <= files@.len(),
            acc == sat_u64(files_size(files_view(files@.subrange(0, i as int)))),
        decreases files@.len() - i,
    {
        proof {
            let pre = files_view(files@.subrange(0, i as int));
            let post = files_view(files@.subrange(0, i + 1));
            assert(post.drop_last() =~= pre);
            assert(post.last() == files@[i as int]@);
            lemma_files_size_nonneg(pre);
        }
        acc = acc.saturating_add(files[i].data.len() as u64);
        i = i + 1;
    }
    assert(files@.subrange(0, files@.len() as int) =~= files@);
    acc
}

/// No two entries of the association list share a path.
pub open spec fn unique_keys(s: Seq<(Vec<u8>, FsObject)>) -> bool {
    forall|i: int, j: int| 0 <= i < j < s.len() ==> s[i].0@ != s[j].0@
}

/// The map that an association list denotes; later entries win, which is
/// irrelevant once keys are unique.
pub open spec fn assoc_view(s: Seq<(Vec<u8>, FsObject)>) -> Map<Seq<u8>, FsObjView>
    decreases s.len(),
{
    if s.len() == 0 {
        Map::empty()
    } else {
        assoc_view(s.drop_last()).insert(s.last().0@, s.last().1@)
    }
}

proof fn lemma_view_contains(s: Seq<(Vec<u8>, FsObject)>, k: Seq<u8>)
    ensures
        assoc_view(s).contains_key(k) <==> exists|i: int| 0 <= i < s.len() && s[i].0@ == k,
    decreases s.len(),
{
    if s.len() > 0 {
        lemma_view_contains(s.drop_last(), k);
        if s.last().0@ == k {
            assert(s[s.len() - 1].0@ == k);
        } else if assoc_view(s).contains_key(k) {
            let i = choose|i: int| 0 <= i < s.drop_last().len() && s.drop_last()[i].0@ == k;
            assert(s[i].0@ == k);
        } else if exists|i: int| 0 <= i < s.len() && s[i].0@ == k {
            let i = choose|i: int| 0 <= i < s.len() && s[i].0@ == k;
            assert(s.drop_last()[i].0@ == k);
        }
    }
}

proof fn lemma_view_get(s: Seq<(Vec<u8>, FsObject)>, i: int)
    requires
        unique_keys(s),
        0 <= i < s.len(),
    ensures
        assoc_view(s).contains_key(s[i].0@),
        assoc_view(s)[s[i].0@] == s[i].1@,
    decreases s.len(),
{
    if i == s.len() - 1 {
    } else {
        assert(s[i].0@ != s.last().0@);
        assert(s.drop_last()[i] == s[i]);
        lemma_view_get(s.drop_last(), i);
    }
}

proof fn lemma_view_remove(s: Seq<(Vec<u8>, FsObject)>, i: int)
    requires
        unique_keys(s),
        0 <= i < s.len(),
    ensures
        assoc_view(s.remove(i)) == assoc_view(s).remove(s[i].0@),
    decreases s.len(),
{
    if i == s.len() - 1 {
        assert(s.remove(i) =~= s.drop_last());
        lemma_view_contains(s.drop_last(), s[i].0@);
        assert(forall|j: int| 0 <= j < s.drop_last().len() ==> s.drop_last()[j] == s[j]);
        assert(!assoc_view(s.drop_last()).contains_key(s[i].0@));
        assert(assoc_view(s.drop_last()).insert(s[i].0@, s[i].1@).remove(s[i].0@)
            =~= assoc_view(s.drop_last()));
    } else {
        let t = s.remove(i);
        assert(t.drop_last() =~= s.drop_last().remove(i));
        assert(t.last() == s.last());
        lemma_view_remove(s.drop_last(), i);
        assert(s.drop_last()[i] == s[i]);
        assert(assoc_view(t) == assoc_view(s.drop_last()).remove(s[i].0@).insert(
            s.last().0@,
            s.last().1@,
        ));
        assert(s[i].0@ != s.last().0@);
        assert(assoc_view(s.drop_last()).remove(s[i].0@).insert(s.last().0@, s.last().1@)
            =~= assoc_view(s.drop_last()).insert(s.last().0@, s.last().1@).remove(s[i].0@));
    }
}

/// The model filesystem: a set of paths, each bound to an object.
pub struct ModelFs {
    entries: Vec<(Vec<u8>, FsObject)>,
}

impl View for ModelFs {
    type V = Map<Seq<u8>, FsObjView>;

    closed spec fn view(&self) -> Map<Seq<u8>, FsObjView> {
        assoc_view(self.entries@)
    }
}

impl ModelFs {
    /// Paths are not repeated; established by `new` and preserved by every
    /// method.
    pub closed spec fn wf(&self) -> bool {
        unique_keys(self.entries@)
    }

    /// An empty filesystem.
    pub fn new() -> (fs: ModelFs)
        ensures
            fs.wf(),
            fs@ == Map::<Seq<u8>, FsObjView>::empty(),
    {
        ModelFs { entries: Vec::new() }
    }

    fn find_index(&self, path: &Vec<u8>) -> (r: Option<usize>)
        ensures
            match r {
                Some(i) => i < self.entries@.len() && self.entries@[i as int].0@ == path@,
                None => forall|i: int|
                    0 <= i < self.entries@.len() ==> self.entries@[i].0@ != path@,
            },
    {
        let mut i: usize = 0;
        while i < self.entries.len()
            invariant
                0 <= i <= self.entries@.len(),
                forall|k: int| 0 <= k < i ==> self.entries@[k].0@ != path@,
            decreases self.entries@.len() - i,
        {
            if crate::bytes::bytes_eq(&self.entries[i].0, path) {
                return Some(i);
            }
            i = i + 1;
        }
        None
    }

    /// Look a path up.
    pub fn get(&self, path: &Vec<u8>) -> (r: Option<&FsObject>)
        requires
            self.wf(),
        ensures
            match r {
                Some(o) => self@.contains_key(path@) && o@ == self@[path@],
                None => !self@.contains_key(path@),
            },
    {
        proof {
            lemma_view_contains(self.entries@, path@);
        }
        match self.find_index(path) {
            Some(i) => {
                proof {
                    lemma_view_get(self.entries@, i as int);
                }
                Some(&self.entries[i].1)
            },
            None => None,
        }
    }

    /// Remove a path; removing an absent path changes nothing.
    pub fn remove(&mut self, path: &Vec<u8>)
        requires
            old(self).wf(),
        ensures
            final(self).wf(),
            final(self)@ == old(self)@.remove(path@),
    {
        proof {
            lemma_view_contains(self.entries@, path@);
        }
        match self.find_index(path) {
            Some(i) => {
                proof {
                    lemma_view_remove(self.entries@, i as int);
                    assert(forall|a: int, b: int|
                        0 <= a < b < self.entries@.remove(i as int).len()
                            ==> self.entries@.remove(i as int)[a].0@
                            != self.entries@.remove(i as int)[b].0@);
                }
                self.entries.remove(i);
            },
            None => {
                proof {
                    assert(self@.remove(path@) =~= self@);
                }
            },
        }
    }

    /// Bind a path to an object, replacing any previous binding.
    pub fn set(&mut self, path: Vec<u8>, obj: FsObject)
        requires
            old(self).wf(),
        ensures
            final(self).wf(),
            final(self)@ == old(self)@.insert(path@, obj@),
    {
        self.remove(&path);
        proof {
            lemma_view_contains(self.entries@, path@);
            assert(self.entries@.push((path, obj)).drop_last() =~= self.entries@);
        }
        let ghost pre = self.entries@;
        self.entries.push((path, obj));
        proof {
            assert(forall|i: int| 0 <= i < pre.len() ==> self.entries@[i] == pre[i]);
            assert(old(self)@.remove(path@).insert(path@, obj@) =~= old(self)@.insert(
                path@,
                obj@,
            ));
        }
    }
}

} // verus!
