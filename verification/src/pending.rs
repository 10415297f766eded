//! The set of paths that changed since the last rebuild.

use crate::text::same_text;
use vstd::prelude::*;

verus! {

/// The paths that changed and have not been handed to a rebuild yet. A set:
/// a path that changes twice is held once.
pub struct PendingChangeSet {
    paths: Vec<String>,
}

/// The texts of `paths`, as a set.
pub open spec fn path_set(paths: Seq<String>) -> Set<Seq<char>> {
    Set::new(|path: Seq<char>| exists|i: int| 0 <= i < paths.len() && #[trigger] paths[i]@ == path)
}

/// No text occurs twice in `paths`.
pub open spec fn distinct(paths: Seq<String>) -> bool {
    forall|i: int, j: int|
        0 <= i < j < paths.len() ==> #[trigger] paths[i]@ != #[trigger] paths[j]@
}

impl PendingChangeSet {
    /// The paths that are pending.
    pub closed spec fn view(&self) -> Set<Seq<char>> {
        path_set(self.paths@)
    }

    /// No path is held twice.
    pub closed spec fn wf(&self) -> bool {
        distinct(self.paths@)
    }

    /// The empty set.
    pub fn new() -> (set: Self)
        ensures
            set.wf(),
            set@ == Set::<Seq<char>>::empty(),
    {
        let set = PendingChangeSet { paths: Vec::new() };
        assert(set@ =~= Set::<Seq<char>>::empty());
        set
    }

    /// Whether `path` is pending.
    pub fn contains(&self, path: &str) -> (found: bool)
        ensures
            found == self@.contains(path@),
    {
        let mut i: usize = 0;
        while i < self.paths.len()
            invariant
                i <= self.paths.len(),
                forall|k: int| 0 <= k < i ==> self.paths@[k]@ != path@,
            decreases self.paths.len() - i,
        {
            if same_text(self.paths[i].as_str(), path) {
                return true;
            }
            i += 1;
        }
        false
    }

    /// Adds `path`. Adding a path that is pending already changes nothing.
    pub fn insert(&mut self, path: &str)
        requires
            old(self).wf(),
        ensures
            final(self).wf(),
            final(self)@ == old(self)@.insert(path@),
    {
        if !self.contains(path) {
            self.paths.push(path.to_owned());
            assert(self.paths@.last()@ == path@);
            assert forall|p: Seq<char>| self@.contains(p) <==> old(self)@.insert(path@).contains(
                p,
            ) by {
                if old(self)@.contains(p) {
                    let i = choose|i: int|
                        0 <= i < old(self).paths@.len() && old(self).paths@[i]@ == p;
                    assert(self.paths@[i]@ == p);
                }
                if self@.contains(p) && p != path@ {
                    let i = choose|i: int| 0 <= i < self.paths@.len() && self.paths@[i]@ == p;
                    assert(old(self).paths@[i]@ == p);
                }
            }
        }
        assert(self@ =~= old(self)@.insert(path@));
    }

    /// Adds every path of `paths`.
    pub fn extend(&mut self, paths: &Vec<String>)
        requires
            old(self).wf(),
        ensures
            final(self).wf(),
            final(self)@ == old(self)@.union(path_set(paths@)),
    {
        let mut i: usize = 0;
        while i < paths.len()
            invariant
                i <= paths.len(),
                self.wf(),
                self@ == old(self)@.union(path_set(paths@.take(i as int))),
            decreases paths.len() - i,
        {
            self.insert(paths[i].as_str());
            proof {
                let before = paths@.take(i as int);
                let after = paths@.take(i + 1);
                assert(after[i as int]@ == paths@[i as int]@);
                assert forall|p: Seq<char>| path_set(after).contains(p) <==> path_set(
                    before,
                ).insert(paths@[i as int]@).contains(p) by {
                    if path_set(before).contains(p) {
                        let k = choose|k: int| 0 <= k < before.len() && before[k]@ == p;
                        assert(after[k]@ == p);
                    }
                    if path_set(after).contains(p) && p != paths@[i as int]@ {
                        let k = choose|k: int| 0 <= k < after.len() && after[k]@ == p;
                        assert(before[k]@ == p);
                    }
                }
                assert(path_set(after) =~= path_set(before).insert(paths@[i as int]@));
                assert(self@ =~= old(self)@.union(path_set(after)));
            }
            i += 1;
        }
        assert(paths@.take(paths@.len() as int) =~= paths@);
    }

    /// Whether nothing is pending.
    pub fn is_empty(&self) -> (empty: bool)
        ensures
            empty == (self@ == Set::<Seq<char>>::empty()),
    {
        let empty = self.paths.len() == 0;
        proof {
            if empty {
                assert(self@ =~= Set::<Seq<char>>::empty());
            } else {
                assert(self@.contains(self.paths@[0]@));
            }
        }
        empty
    }

    /// Hands out what is pending and leaves the set empty. Returns `None`
    /// where nothing was pending: an empty batch is never handed out.
    pub fn take(&mut self) -> (batch: Option<Vec<String>>)
        requires
            old(self).wf(),
        ensures
            final(self).wf(),
            final(self)@ == Set::<Seq<char>>::empty(),
            match batch {
                Some(paths) => paths@.len() > 0 && distinct(paths@) && path_set(paths@) == old(
                    self,
                )@,
                None => old(self)@ == Set::<Seq<char>>::empty(),
            },
    {
        let was_empty = self.is_empty();
        let mut paths: Vec<String> = Vec::new();
        std::mem::swap(&mut self.paths, &mut paths);
        assert(self@ =~= Set::<Seq<char>>::empty());
        proof {
            if paths@.len() == 0 {
                assert(old(self)@ =~= Set::<Seq<char>>::empty());
            }
        }
        if was_empty {
            None
        } else {
            Some(paths)
        }
    }
}

} // verus!
