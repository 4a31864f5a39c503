//! The watch registry's bookkeeping: which paths carry an OS-level
//! change-notification handle.
//!
//! The registry binds each enumerated path to one watch and keeps the
//! invariant of one handle per path: a path already watched is not
//! registered again — the duplicate is skipped, and the skip is visible in
//! the result. The OS registration itself is performed by the application,
//! one call per path the registry accepts; a failure there is fatal to the
//! whole watcher setup: the process must not continue with silently partial
//! coverage.

use vstd::prelude::*;
use crate::enumerate::views_of;

verus! {

/// The first-occurrence order of a sequence of paths with duplicates
/// dropped: what registering them one by one leaves watched.
pub open spec fn dedup(s: Seq<Seq<char>>) -> Seq<Seq<char>>
    decreases s.len(),
{
    if s.len() == 0 {
        Seq::empty()
    } else {
        let d = dedup(s.drop_last());
        if d.contains(s.last()) {
            d
        } else {
            d.push(s.last())
        }
    }
}

/// The set of paths bound to a watch handle. Owned by the watcher setup;
/// the raw events the handles deliver flow to the debounce engine.
pub struct WatchRegistry {
    paths: Vec<String>,
}

fn contains_path(v: &Vec<String>, path: &String) -> (r: bool)
    ensures
        r == views_of(v@).contains(path@),
{
    let n = v.len();
    let mut i: usize = 0;
    while i < n
        invariant
            i <= n,
            n == v.len(),
            forall|j: int| 0 <= j < i ==> views_of(v@)[j] != path@,
        decreases n - i,
    {
        if v[i] == *path {
            proof {
                assert(views_of(v@)[i as int] == path@);
            }
            return true;
        }
        i = i + 1;
    }
    false
}

impl WatchRegistry {
    /// The paths watched so far, in registration order.
    pub closed spec fn watched(self) -> Seq<Seq<char>> {
        views_of(self.paths@)
    }

    /// One handle per path: no path is watched twice.
    pub closed spec fn wf(self) -> bool {
        forall|i: int, j: int|
            0 <= i < j < self.watched().len() ==> self.watched()[i] != self.watched()[j]
    }

    /// An empty registry: nothing watched yet.
    pub fn new() -> (r: WatchRegistry)
        ensures
            r.wf(),
            r.watched() == Seq::<Seq<char>>::empty(),
    {
        let r = WatchRegistry { paths: Vec::new() };
        proof {
            assert(r.watched() =~= Seq::<Seq<char>>::empty());
        }
        r
    }

    /// Bind `path` to a watch unless one is already bound to it: returns
    /// whether the path was newly registered — the caller performs the OS
    /// registration exactly for those — or skipped as a duplicate.
    pub fn register(&mut self, path: String) -> (added: bool)
        ensures
            added == !old(self).watched().contains(path@),
            added ==> final(self).watched() == old(self).watched().push(path@),
            !added ==> *final(self) == *old(self),
            old(self).wf() ==> final(self).wf(),
    {
        if contains_path(&self.paths, &path) {
            false
        } else {
            let ghost prev: Seq<String> = self.paths@;
            self.paths.push(path);
            proof {
                assert(self.watched() =~= views_of(prev).push(path@));
            }
            true
        }
    }

    /// How many paths are watched.
    pub fn watch_count(&self) -> (n: usize)
        ensures
            n == self.watched().len(),
    {
        self.paths.len()
    }

    /// The watched paths, in registration order: what the application hands
    /// to the OS notification facility, one registration each.
    pub fn watched_paths(&self) -> (r: &Vec<String>)
        ensures
            views_of(r@) == self.watched(),
    {
        &self.paths
    }

    /// Register every enumerated path in order: what ends up watched is the
    /// enumeration with duplicates dropped, in first-occurrence order.
    pub fn from_paths(paths: &Vec<String>) -> (r: WatchRegistry)
        ensures
            r.wf(),
            r.watched() == dedup(views_of(paths@)),
    {
        let mut reg = WatchRegistry::new();
        let n = paths.len();
        let mut i: usize = 0;
        while i < n
            invariant
                i <= n,
                n == paths.len(),
                reg.wf(),
                reg.watched() == dedup(views_of(paths@).take(i as int)),
            decreases n - i,
        {
            let p = paths[i].clone();
            let _ = reg.register(p);
            proof {
                let s = views_of(paths@);
                assert(s.take(i as int + 1).drop_last() =~= s.take(i as int));
                assert(s.take(i as int + 1).last() == paths@[i as int]@);
            }
            i = i + 1;
        }
        proof {
            assert(views_of(paths@).take(n as int) =~= views_of(paths@));
        }
        reg
    }
}

/// Law: a registry built from any path sequence is well formed — every path
/// carries exactly one handle — and registering a path a second time never
/// changes what is watched.
pub proof fn lemma_dedup_no_duplicates(s: Seq<Seq<char>>)
    ensures
        forall|i: int, j: int|
            0 <= i < j < dedup(s).len() ==> dedup(s)[i] != dedup(s)[j],
        forall|x: Seq<char>| dedup(s).contains(x) == s.contains(x),
    decreases s.len(),
{
    if s.len() > 0 {
        lemma_dedup_no_duplicates(s.drop_last());
        let d = dedup(s.drop_last());
        assert forall|x: Seq<char>| dedup(s).contains(x) == s.contains(x) by {
            if s.contains(x) {
                let k = choose|k: int| 0 <= k < s.len() && s[k] == x;
                if k < s.len() - 1 {
                    assert(s.drop_last()[k] == x);
                    assert(s.drop_last().contains(x));
                    if !d.contains(s.last()) {
                        let m = choose|m: int| 0 <= m < d.len() && d[m] == x;
                        assert(dedup(s)[m] == x);
                    }
                } else {
                    assert(s.last() == x);
                    if !d.contains(x) {
                        assert(dedup(s).last() == x);
                    }
                }
            }
            if dedup(s).contains(x) {
                let k = choose|k: int| 0 <= k < dedup(s).len() && dedup(s)[k] == x;
                if d.contains(x) {
                    assert(s.drop_last().contains(x));
                    let m = choose|m: int| 0 <= m < s.drop_last().len() && s.drop_last()[m] == x;
                    assert(s[m] == x);
                } else {
                    assert(x == s.last());
                    assert(s[s.len() - 1] == x);
                }
            }
        }
    }
}

} // verus!
