//! The server's files as the request handler sees them: each path with its
//! contents and whether the handler has written it.

use vstd::prelude::*;

verus! {

/// One file: its path, its contents, and whether it was written.
pub struct StoredFile {
    path: String,
    contents: Vec<u8>,
    written: bool,
}

/// The files a request touches, each path at most once.
pub struct FileStore {
    files: Vec<StoredFile>,
}

impl FileStore {
    #[verifier::type_invariant]
    spec fn unique_paths(self) -> bool {
        forall|i: int, j: int|
            0 <= i < j < self.files@.len() ==> self.files@[i].path@ != self.files@[j].path@
    }

    /// Whether the store holds `path`.
    pub closed spec fn holds(self, path: Seq<char>) -> bool {
        exists|i: int| 0 <= i < self.files@.len() && self.files@[i].path@ == path
    }

    /// Where the store keeps `path`.
    closed spec fn index_of(self, path: Seq<char>) -> int {
        choose|i: int| 0 <= i < self.files@.len() && self.files@[i].path@ == path
    }

    /// The path kept at place `i` of the store's walking order.
    pub closed spec fn path_at(self, i: int) -> Seq<char> {
        self.files@[i].path@
    }

    /// Each path with its contents and whether it was written.
    pub closed spec fn view(self) -> Map<Seq<char>, (Seq<u8>, bool)> {
        Map::new(
            |p: Seq<char>| self.holds(p),
            |p: Seq<char>|
                {
                    let f = self.files@[self.index_of(p)];
                    (f.contents@, f.written)
                },
        )
    }

    proof fn lemma_index_of(self, i: int)
        requires
            self.unique_paths(),
            0 <= i < self.files@.len(),
        ensures
            self.holds(self.files@[i].path@),
            self.index_of(self.files@[i].path@) == i,
    {
        let p = self.files@[i].path@;
        assert(self.holds(p));
        let k = self.index_of(p);
        if k != i {
            if k < i {
                assert(self.files@[k].path@ != self.files@[i].path@);
            } else {
                assert(self.files@[i].path@ != self.files@[k].path@);
            }
        }
    }

    /// A store that differs from `old` only at `k`, where it keeps `path`
    /// (in place of `path`, or appended), views as `old` with that entry.
    proof fn lemma_view_after_put(
        old: Self,
        new: Self,
        k: int,
        path: Seq<char>,
        contents: Seq<u8>,
        written: bool,
    )
        requires
            old.unique_paths(),
            new.unique_paths(),
            0 <= k < new.files@.len(),
            new.files@[k].path@ == path,
            new.files@[k].contents@ == contents,
            new.files@[k].written == written,
            new.files@.len() == old.files@.len() || (new.files@.len() == old.files@.len() + 1
                && k == old.files@.len()),
            k < old.files@.len() ==> old.files@[k].path@ == path,
            forall|j: int| 0 <= j < old.files@.len() && j != k ==> new.files@[j] == old.files@[j],
        ensures
            new.view() == old.view().insert(path, (contents, written)),
    {
        let target = old.view().insert(path, (contents, written));
        assert forall|q: Seq<char>| #![auto]
            new.view().dom().contains(q) == target.dom().contains(q) by {
            if new.holds(q) {
                let j = choose|j: int| 0 <= j < new.files@.len() && new.files@[j].path@ == q;
                if j != k {
                    assert(j < old.files@.len());
                    assert(old.files@[j] == new.files@[j]);
                    assert(old.holds(q));
                }
            }
            if old.holds(q) {
                let j = choose|j: int| 0 <= j < old.files@.len() && old.files@[j].path@ == q;
                if j != k {
                    assert(old.files@[j] == new.files@[j]);
                    assert(new.files@[j].path@ == q);
                    assert(new.holds(q));
                }
            }
            if q == path {
                assert(new.holds(q));
            }
        }
        assert forall|q: Seq<char>| #[trigger] new.view().dom().contains(q) implies new.view()[q]
            == target[q] by {
            let j = choose|j: int| 0 <= j < new.files@.len() && new.files@[j].path@ == q;
            new.lemma_index_of(j);
            if j != k {
                assert(j < old.files@.len());
                assert(old.files@[j] == new.files@[j]);
                old.lemma_index_of(j);
            }
        }
        assert(new.view() =~= target);
    }

    /// An empty store.
    pub fn new() -> (s: FileStore)
        ensures
            s.view() == Map::<Seq<char>, (Seq<u8>, bool)>::empty(),
    {
        let s = FileStore { files: Vec::new() };
        assert(s.view() =~= Map::<Seq<char>, (Seq<u8>, bool)>::empty());
        s
    }

    /// Where `path` is kept, if it is.
    fn find(&self, path: &String) -> (r: Option<usize>)
        ensures
            r matches Some(i) ==> i < self.files@.len() && self.files@[i as int].path@ == path@,
            r is None ==> !self.holds(path@),
    {
        let mut i: usize = 0;
        while i < self.files.len()
            invariant
                i <= self.files@.len(),
                forall|k: int| 0 <= k < i ==> self.files@[k].path@ != path@,
            decreases self.files.len() - i,
        {
            if self.files[i].path == *path {
                return Some(i);
            }
            i = i + 1;
        }
        None
    }

    /// Puts `path` with `contents` in the store, as read and not yet
    /// written, in place of what it held for that path.
    pub fn load(&mut self, path: String, contents: Vec<u8>)
        ensures
            final(self).view() == old(self).view().insert(path@, (contents@, false)),
    {
        self.put(path, contents, false);
    }

    /// Puts `path` with `contents` and the written mark.
    fn put(&mut self, path: String, contents: Vec<u8>, written: bool)
        ensures
            final(self).view() == old(self).view().insert(path@, (contents@, written)),
    {
        proof {
            use_type_invariant(&*self);
        }
        let ghost old_self = *self;
        let ghost p = path@;
        let found = self.find(&path);
        let mut files: Vec<StoredFile> = Vec::new();
        std::mem::swap(&mut files, &mut self.files);
        match found {
            Some(i) => {
                files.set(i, StoredFile { path, contents, written });
                proof {
                    assert forall|a: int, b: int| 0 <= a < b < files@.len() implies files@[a].path@
                        != files@[b].path@ by {
                        if a != i as int && b != i as int {
                            assert(files@[a] == old_self.files@[a]);
                            assert(files@[b] == old_self.files@[b]);
                        } else if a == i as int {
                            assert(files@[b] == old_self.files@[b]);
                        } else {
                            assert(files@[a] == old_self.files@[a]);
                        }
                    }
                }
                self.files = files;
                proof {
                    Self::lemma_view_after_put(old_self, *self, i as int, p, contents@, written);
                }
            },
            None => {
                files.push(StoredFile { path, contents, written });
                proof {
                    assert forall|a: int, b: int| 0 <= a < b < files@.len() implies files@[a].path@
                        != files@[b].path@ by {
                        assert(files@[a] == old_self.files@[a]);
                        if b < old_self.files@.len() {
                            assert(files@[b] == old_self.files@[b]);
                        } else {
                            assert(!old_self.holds(p));
                        }
                    }
                }
                self.files = files;
                proof {
                    Self::lemma_view_after_put(
                        old_self,
                        *self,
                        old_self.files@.len() as int,
                        p,
                        contents@,
                        written,
                    );
                }
            },
        }
    }

    /// The contents kept for `path`, if it is kept.
    pub fn get(&self, path: &String) -> (r: Option<&Vec<u8>>)
        ensures
            r is Some <==> self.view().dom().contains(path@),
            r matches Some(c) ==> c@ == self.view()[path@].0,
    {
        proof {
            use_type_invariant(self);
        }
        match self.find(path) {
            Some(i) => {
                proof {
                    self.lemma_index_of(i as int);
                }
                Some(&self.files[i].contents)
            },
            None => None,
        }
    }

    /// Replaces the contents of `path` and marks it written.
    pub fn write(&mut self, path: String, contents: Vec<u8>)
        ensures
            final(self).view() == old(self).view().insert(path@, (contents@, true)),
    {
        self.put(path, contents, true);
    }

    /// The number of files kept. The places `0..n` of the walking order
    /// (see `entry`) hold `n` different paths, which are exactly the paths
    /// kept.
    pub fn len(&self) -> (n: usize)
        ensures
            n == self.view().dom().len(),
            forall|i: int, j: int|
                0 <= i < j < n ==> #[trigger] self.path_at(i) != #[trigger] self.path_at(j),
            forall|i: int| 0 <= i < n ==> self.view().dom().contains(#[trigger] self.path_at(i)),
            forall|p: Seq<char>|
                #[trigger] self.view().dom().contains(p) ==> exists|i: int|
                    0 <= i < n && #[trigger] self.path_at(i) == p,
    {
        proof {
            use_type_invariant(self);
            self.lemma_dom_len();
            self.lemma_walk_order();
        }
        self.files.len()
    }

    /// The walking order visits each kept path once.
    proof fn lemma_walk_order(self)
        requires
            self.unique_paths(),
        ensures
            forall|i: int, j: int|
                0 <= i < j < self.files@.len() ==> #[trigger] self.path_at(i)
                    != #[trigger] self.path_at(j),
            forall|i: int|
                0 <= i < self.files@.len() ==> self.view().dom().contains(#[trigger] self.path_at(i)),
            forall|p: Seq<char>|
                #[trigger] self.view().dom().contains(p) ==> exists|i: int|
                    0 <= i < self.files@.len() && #[trigger] self.path_at(i) == p,
    {
        assert forall|i: int| 0 <= i < self.files@.len() implies self.view().dom().contains(
            #[trigger] self.path_at(i),
        ) by {
            self.lemma_index_of(i);
        }
        assert forall|p: Seq<char>| #[trigger] self.view().dom().contains(p) implies exists|i: int|
            0 <= i < self.files@.len() && #[trigger] self.path_at(i) == p by {
            let k = choose|k: int| 0 <= k < self.files@.len() && self.files@[k].path@ == p;
            assert(self.path_at(k) == p);
        }
    }

    proof fn lemma_dom_len(self)
        requires
            self.unique_paths(),
        ensures
            self.view().dom().len() == self.files@.len(),
            self.view().dom().finite(),
    {
        let paths = Seq::new(self.files@.len(), |i: int| self.files@[i].path@);
        assert forall|i: int, j: int| 0 <= i < j < paths.len() implies paths[i] != paths[j] by {}
        paths.unique_seq_to_set();
        assert(self.view().dom() =~= paths.to_set()) by {
            assert forall|q: Seq<char>| self.view().dom().contains(q) implies paths.to_set().contains(q) by {
                let k = choose|k: int| 0 <= k < self.files@.len() && self.files@[k].path@ == q;
                assert(paths[k] == q);
            }
            assert forall|q: Seq<char>| paths.to_set().contains(q) implies self.view().dom().contains(q) by {
                let k = choose|k: int| 0 <= k < paths.len() && paths[k] == q;
                assert(self.files@[k].path@ == q);
            }
        }
    }

    /// The path, contents and written mark of the file at place `index` of
    /// the walking order, in which no path comes twice (see `len`).
    pub fn entry(&self, index: usize) -> (r: (&String, &Vec<u8>, bool))
        requires
            index < self.view().dom().len(),
        ensures
            r.0@ == self.path_at(index as int),
            self.view().dom().contains(r.0@),
            self.view()[r.0@] == (r.1@, r.2),
            forall|i: int, j: int|
                0 <= i < j < self.view().dom().len() ==> #[trigger] self.path_at(i)
                    != #[trigger] self.path_at(j),
    {
        proof {
            use_type_invariant(self);
            self.lemma_dom_len();
            self.lemma_index_of(index as int);
            self.lemma_walk_order();
        }
        let f = &self.files[index];
        (&f.path, &f.contents, f.written)
    }
}

} // verus!
