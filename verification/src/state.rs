//! The clipboard: the saved paths, most recently added first.
use vstd::prelude::*;
use crate::error::Error;
use crate::utils::{join_path, path_joined, same_components, same_path};

verus! {

/// One saved path.
#[derive(Debug, Eq)]
pub struct Entry {
    path: String,
}

/// Two entries are equal exactly when their paths have the same components,
/// as `Path` equality decides: `/a/b/`, `/a//b` and `/a/./b` name `/a/b`.
impl PartialEq for Entry {
    fn eq(&self, other: &Entry) -> (r: bool) {
        same_path(self.path.as_str(), other.path.as_str())
    }
}

impl vstd::std_specs::cmp::PartialEqSpecImpl for Entry {
    open spec fn obeys_eq_spec() -> bool {
        true
    }

    open spec fn eq_spec(&self, other: &Entry) -> bool {
        same_components(self@, other@)
    }
}

impl View for Entry {
    type V = Seq<char>;

    /// The saved path as text.
    closed spec fn view(&self) -> Seq<char> {
        self.path@
    }
}

/// The paths that a sequence of entries holds, in order.
pub open spec fn entry_paths(entries: Seq<Entry>) -> Seq<Seq<char>> {
    entries.map_values(|e: Entry| e@)
}

/// What a resolution attempt came to, as text: the resolved path, or nothing.
pub open spec fn resolution_view(o: Option<String>) -> Option<Seq<char>> {
    match o {
        Some(s) => Some(s@),
        None => None,
    }
}

/// Whether the first `k` resolution attempts all succeeded.
pub open spec fn resolved_upto(resolved: Seq<Option<String>>, k: int) -> bool {
    forall|j: int| 0 <= j < k ==> (#[trigger] resolved[j]) is Some
}

/// The resolved paths, in order (an empty path stands for a failed attempt).
pub open spec fn resolved_paths(resolved: Seq<Option<String>>) -> Seq<Seq<char>> {
    resolved.map_values(|o: Option<String>| match o {
        Some(s) => s@,
        None => Seq::<char>::empty(),
    })
}

/// `e` reports that `files[k]`, joined to `dir`, is the first file whose
/// resolution failed.
pub open spec fn reports_first_unresolved(
    e: Error,
    dir: Seq<char>,
    files: Seq<String>,
    resolved: Seq<Option<String>>,
) -> bool {
    exists|k: int|
        0 <= k < resolved.len() && (#[trigger] resolved[k]) is None && resolved_upto(resolved, k)
            && (e matches Error::InvalidPath(p) && p@ == path_joined(dir, files[k]@))
}

/// Adding puts the new paths first, in the order given, and keeps the saved
/// ones after them in their order.
pub proof fn lemma_new_entries_first(saved: Seq<Seq<char>>, resolved: Seq<Option<String>>)
    requires
        resolved_upto(resolved, resolved.len() as int),
    ensures
        (resolved_paths(resolved) + saved).len() == resolved.len() + saved.len(),
        forall|i: int| 0 <= i < resolved.len() ==>
            Some(#[trigger] (resolved_paths(resolved) + saved)[i]) == resolution_view(resolved[i]),
        forall|j: int| 0 <= j < saved.len() ==>
            #[trigger] (resolved_paths(resolved) + saved)[resolved.len() + j] == saved[j],
{
    assert forall|i: int| 0 <= i < resolved.len() implies
        Some(#[trigger] (resolved_paths(resolved) + saved)[i]) == resolution_view(resolved[i]) by {
        assert(resolved[i] is Some);
    }
}

impl Entry {
    /// An entry holding `path`.
    pub fn new(path: String) -> (e: Entry)
        ensures
            e@ == path@,
    {
        Entry { path }
    }

    /// The path that a file named on the command line stands for: the file
    /// joined to the working directory `path`. This is the path to resolve.
    pub fn target(path: &str, filename: &str) -> (p: String)
        ensures
            p@ == path_joined(path@, filename@),
    {
        join_path(path, filename)
    }

    /// Builds the entry for `filename` given in the directory `path`;
    /// `resolved` is the outcome of resolving `Entry::target(path, filename)`
    /// to a canonical path.
    pub fn build(path: &str, filename: &str, resolved: Option<String>) -> (r: Result<Entry, Error>)
        ensures
            match resolved {
                Some(c) => r matches Ok(e) && e@ == c@,
                None => r matches Err(Error::InvalidPath(p)) && p@ == path_joined(path@, filename@),
            },
    {
        match resolved {
            Some(c) => Ok(Entry { path: c }),
            None => Err(Error::InvalidPath(Entry::target(path, filename))),
        }
    }

    /// The saved path.
    pub fn path(&self) -> (p: &String)
        ensures
            p@ == self@,
    {
        &self.path
    }
}

/// The clipboard's state: the saved paths, the most recently added first.
#[derive(Debug, PartialEq, Eq)]
pub struct Config {
    state: Vec<Entry>,
}

impl View for Config {
    type V = Seq<Seq<char>>;

    /// The saved paths, in order.
    closed spec fn view(&self) -> Seq<Seq<char>> {
        entry_paths(self.state@)
    }
}

impl Config {
    /// The entry at `index`, if the clipboard holds one there.
    pub fn get(&self, index: usize) -> (r: Option<&Entry>)
        ensures
            index < self@.len() ==> (r matches Some(e) && e@ == self@[index as int]),
            index >= self@.len() ==> r is None,
    {
        if index < self.state.len() {
            Some(&self.state[index])
        } else {
            None
        }
    }

    /// The entries for `files`, given in the directory `cur_dir`, in the
    /// order given; `resolved[i]` is the outcome of resolving
    /// `Entry::target(cur_dir, files[i])`. The first failed resolution
    /// makes the whole fail.
    pub fn create_vec(cur_dir: &str, files: &Vec<String>, resolved: &Vec<Option<String>>) -> (r: Result<Vec<Entry>, Error>)
        requires
            files.len() == resolved.len(),
        ensures
            r is Ok <==> resolved_upto(resolved@, resolved.len() as int),
            r matches Ok(v) ==> entry_paths(v@) == resolved_paths(resolved@),
            r matches Err(e) ==> reports_first_unresolved(e, cur_dir@, files@, resolved@),
    {
        let mut v: Vec<Entry> = Vec::new();
        let n = files.len();
        let mut i: usize = 0;
        while i < n
            invariant
                n == files.len(),
                n == resolved.len(),
                i <= n,
                resolved_upto(resolved@, i as int),
                v.len() == i,
                entry_paths(v@) == resolved_paths(resolved@).take(i as int),
            decreases n - i,
        {
            let outcome = match &resolved[i] {
                Some(c) => Some(c.clone()),
                None => None,
            };
            assert(resolution_view(outcome) == resolution_view(resolved@[i as int]));
            match Entry::build(cur_dir, files[i].as_str(), outcome) {
                Ok(e) => {
                    let ghost prev = v@;
                    v.push(e);
                    assert(v@ == prev.push(e));
                    assert(resolved_paths(resolved@)[i as int] == e@);
                    assert forall|j: int| 0 <= j <= i implies entry_paths(v@)[j]
                        == resolved_paths(resolved@).take(i + 1)[j] by {
                        if j < i {
                            assert(entry_paths(prev)[j] == resolved_paths(resolved@).take(i as int)[j]);
                        }
                    }
                    assert(entry_paths(v@) =~= resolved_paths(resolved@).take(i + 1));
                },
                Err(e) => {
                    assert(resolved@[i as int] is None);
                    return Err(e);
                },
            }
            i = i + 1;
        }
        assert(resolved_paths(resolved@).take(n as int) =~= resolved_paths(resolved@));
        Ok(v)
    }

    /// The number of saved paths.
    pub fn len(&self) -> (n: usize)
        ensures
            n == self@.len(),
    {
        self.state.len()
    }

    /// Whether the clipboard holds no path.
    pub fn is_empty(&self) -> (b: bool)
        ensures
            b == (self@.len() == 0),
    {
        self.state.len() == 0
    }

    /// Walks the saved entries in order.
    pub fn iter(&self) -> (it: std::slice::Iter<'_, Entry>)
        ensures
            entry_paths(vstd::std_specs::slice::into_iter_elts(it)) == self@,
    {
        let it = self.state.iter();
        proof {
            broadcast use vstd::std_specs::slice::group_slice_axioms;
            assert(vstd::std_specs::slice::into_iter_elts(it) =~= self.state@);
        }
        it
    }

    /// Adds the entries for `files` (given in `cur_dir`, with the resolution
    /// outcomes `resolved`) in front of the saved ones: new entries first.
    /// Where a resolution failed, nothing is added.
    pub fn extend(&mut self, cur_dir: &str, files: &Vec<String>, resolved: &Vec<Option<String>>) -> (r: Result<(), Error>)
        requires
            files.len() == resolved.len(),
        ensures
            r is Ok <==> resolved_upto(resolved@, resolved.len() as int),
            r is Ok ==> final(self)@ == resolved_paths(resolved@) + old(self)@,
            r matches Err(e) ==> final(self)@ == old(self)@
                && reports_first_unresolved(e, cur_dir@, files@, resolved@),
    {
        match Config::create_vec(cur_dir, files, resolved) {
            Ok(mut v) => {
                let ghost added = v@;
                let ghost before = self.state@;
                v.append(&mut self.state);
                self.state = v;
                assert(entry_paths(self.state@) =~= entry_paths(added)
                    + entry_paths(before));
                Ok(())
            },
            Err(e) => Err(e),
        }
    }

    /// A clipboard with no saved path.
    pub fn empty() -> (c: Config)
        ensures
            c@ == Seq::<Seq<char>>::empty(),
    {
        let c = Config { state: Vec::new() };
        assert(c@ =~= Seq::<Seq<char>>::empty());
        c
    }

    /// A clipboard holding `entries`, in order.
    pub fn from_entries(entries: Vec<Entry>) -> (c: Config)
        ensures
            c@ == entry_paths(entries@),
    {
        Config { state: entries }
    }

    /// Forgets every saved path.
    pub fn clear(&mut self)
        ensures
            final(self)@ == Seq::<Seq<char>>::empty(),
    {
        self.state.clear();
        assert(self@ =~= Seq::<Seq<char>>::empty());
    }
}

} // verus!
