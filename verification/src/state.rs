//! The per-process registry: download metadata and cancel flags by id.
//!
//! Both registries are association lists with unique keys, viewed in
//! contracts as maps from the id's characters to the stored value. Every
//! terminal disposition of a transfer removes both entries for its id.

use vstd::prelude::*;
use crate::errors::DownloadError;

verus! {

/// What the engine remembers of one download.
#[derive(Debug)]
pub struct DownloadMeta {
    /// Source URL.
    pub url: String,
    /// Final file path.
    pub dest: String,
    /// Working `.part` path.
    pub temp: String,
    /// Advertised byte count, when the server gave one.
    pub total: Option<u64>,
    /// Whether the server honors byte ranges.
    pub accept_ranges: bool,
}

impl Clone for DownloadMeta {
    /// A clone carries the same fields.
    fn clone(&self) -> (r: Self)
        ensures
            r == *self,
    {
        DownloadMeta {
            url: self.url.clone(),
            dest: self.dest.clone(),
            temp: self.temp.clone(),
            total: self.total,
            accept_ranges: self.accept_ranges,
        }
    }
}

/// No two entries share a key.
pub open spec fn keys_unique<T>(entries: Seq<(String, T)>) -> bool {
    forall|i: int, j: int|
        0 <= i < j < entries.len() ==> (#[trigger] entries[i]).0@ != (#[trigger] entries[j]).0@
}

/// The map an association list denotes; later entries win.
pub open spec fn map_of<T>(entries: Seq<(String, T)>) -> Map<Seq<char>, T>
    decreases entries.len(),
{
    if entries.len() == 0 {
        Map::empty()
    } else {
        map_of(entries.drop_last()).insert(entries.last().0@, entries.last().1)
    }
}

proof fn lemma_map_of_absent<T>(entries: Seq<(String, T)>, k: Seq<char>)
    requires
        forall|i: int| 0 <= i < entries.len() ==> (#[trigger] entries[i]).0@ != k,
    ensures
        !map_of(entries).contains_key(k),
    decreases entries.len(),
{
    if entries.len() > 0 {
        assert(forall|i: int|
            0 <= i < entries.drop_last().len() ==> (#[trigger] entries.drop_last()[i]).0@ != k);
        lemma_map_of_absent(entries.drop_last(), k);
    }
}

proof fn lemma_map_of_found<T>(entries: Seq<(String, T)>, i: int)
    requires
        keys_unique(entries),
        0 <= i < entries.len(),
    ensures
        map_of(entries).contains_key(entries[i].0@),
        map_of(entries)[entries[i].0@] == entries[i].1,
    decreases entries.len(),
{
    if i == entries.len() - 1 {
    } else {
        assert(keys_unique(entries.drop_last()));
        lemma_map_of_found(entries.drop_last(), i);
        assert(entries.drop_last()[i] == entries[i]);
        assert(entries.last().0@ != entries[i].0@);
    }
}

proof fn lemma_map_of_remove<T>(entries: Seq<(String, T)>, i: int)
    requires
        keys_unique(entries),
        0 <= i < entries.len(),
    ensures
        keys_unique(entries.remove(i)),
        map_of(entries.remove(i)) =~= map_of(entries).remove(entries[i].0@),
    decreases entries.len(),
{
    let k = entries[i].0@;
    assert forall|a: int, b: int| 0 <= a < b < entries.remove(i).len() implies (
    #[trigger] entries.remove(i)[a]).0@ != (#[trigger] entries.remove(i)[b]).0@ by {
        let a0 = if a < i {
            a
        } else {
            a + 1
        };
        let b0 = if b < i {
            b
        } else {
            b + 1
        };
        assert(entries.remove(i)[a] == entries[a0]);
        assert(entries.remove(i)[b] == entries[b0]);
    }
    if i == entries.len() - 1 {
        assert(entries.remove(i) =~= entries.drop_last());
        assert forall|j: int| 0 <= j < entries.drop_last().len() implies (#[trigger] entries.drop_last()[j]).0@
            != k by {
            assert(entries.drop_last()[j] == entries[j]);
        }
        lemma_map_of_absent(entries.drop_last(), k);
    } else {
        assert(keys_unique(entries.drop_last()));
        lemma_map_of_remove(entries.drop_last(), i);
        assert(entries.remove(i).drop_last() =~= entries.drop_last().remove(i));
        assert(entries.remove(i).last() == entries.last());
        assert(entries.last().0@ != k);
    }
}

/// Find the entry for `id`.
fn find_key<T>(entries: &Vec<(String, T)>, id: &String) -> (r: Option<usize>)
    ensures
        match r {
            Some(i) => i < entries@.len() && entries@[i as int].0@ == id@,
            None => forall|i: int| 0 <= i < entries@.len() ==> (#[trigger] entries@[i]).0@ != id@,
        },
{
    let mut i: usize = 0;
    while i < entries.len()
        invariant
            0 <= i <= entries@.len(),
            forall|j: int| 0 <= j < i ==> (#[trigger] entries@[j]).0@ != id@,
        decreases entries@.len() - i,
    {
        if entries[i].0.eq(id) {
            return Some(i);
        }
        i = i + 1;
    }
    None
}

/// The process-wide registry: metadata and cancel flags by download id.
pub struct AppState {
    metas: Vec<(String, DownloadMeta)>,
    cancels: Vec<(String, bool)>,
}

impl AppState {
    /// The metadata registry as a map.
    pub closed spec fn metas_map(&self) -> Map<Seq<char>, DownloadMeta> {
        map_of(self.metas@)
    }

    /// The cancel-flag registry as a map.
    pub closed spec fn cancels_map(&self) -> Map<Seq<char>, bool> {
        map_of(self.cancels@)
    }

    /// Each registry holds at most one entry per id.
    pub closed spec fn wf(&self) -> bool {
        keys_unique(self.metas@) && keys_unique(self.cancels@)
    }

    /// An empty registry.
    pub fn new() -> (s: AppState)
        ensures
            s.wf(),
            s.metas_map() =~= Map::<Seq<char>, DownloadMeta>::empty(),
            s.cancels_map() =~= Map::<Seq<char>, bool>::empty(),
    {
        AppState { metas: Vec::new(), cancels: Vec::new() }
    }

    /// Look up the metadata for `id`.
    pub fn get_meta(&self, id: &String) -> (r: Option<DownloadMeta>)
        requires
            self.wf(),
        ensures
            match r {
                Some(m) => self.metas_map().contains_key(id@) && m == self.metas_map()[id@],
                None => !self.metas_map().contains_key(id@),
            },
    {
        match find_key(&self.metas, id) {
            Some(i) => {
                proof {
                    lemma_map_of_found(self.metas@, i as int);
                }
                Some(self.metas[i].1.clone())
            },
            None => {
                proof {
                    lemma_map_of_absent(self.metas@, id@);
                }
                None
            },
        }
    }

    /// Remove and return the metadata for `id`.
    pub fn remove_meta(&mut self, id: &String) -> (r: Option<DownloadMeta>)
        requires
            old(self).wf(),
        ensures
            final(self).wf(),
            final(self).metas_map() =~= old(self).metas_map().remove(id@),
            final(self).cancels_map() == old(self).cancels_map(),
            match r {
                Some(m) => old(self).metas_map().contains_key(id@) && m == old(
                    self,
                ).metas_map()[id@],
                None => !old(self).metas_map().contains_key(id@),
            },
    {
        match find_key(&self.metas, id) {
            Some(i) => {
                proof {
                    lemma_map_of_found(self.metas@, i as int);
                    lemma_map_of_remove(self.metas@, i as int);
                }
                let (_, m) = self.metas.remove(i);
                Some(m)
            },
            None => {
                proof {
                    lemma_map_of_absent(self.metas@, id@);
                    assert(final(self).metas_map() =~= old(self).metas_map().remove(id@));
                }
                None
            },
        }
    }

    /// Register metadata for `id`, replacing any earlier entry.
    pub fn insert_meta(&mut self, id: String, m: DownloadMeta)
        requires
            old(self).wf(),
        ensures
            final(self).wf(),
            final(self).metas_map() =~= old(self).metas_map().insert(id@, m),
            final(self).cancels_map() == old(self).cancels_map(),
    {
        let _ = self.remove_meta(&id);
        let ghost before = self.metas@;
        proof {
            lemma_map_of_absent_after_remove(before, id@);
        }
        self.metas.push((id, m));
        proof {
            assert(self.metas@.drop_last() =~= before);
        }
    }

    /// Look up the cancel flag for `id`.
    pub fn get_cancel(&self, id: &String) -> (r: Option<bool>)
        requires
            self.wf(),
        ensures
            match r {
                Some(f) => self.cancels_map().contains_key(id@) && f == self.cancels_map()[id@],
                None => !self.cancels_map().contains_key(id@),
            },
    {
        match find_key(&self.cancels, id) {
            Some(i) => {
                proof {
                    lemma_map_of_found(self.cancels@, i as int);
                }
                Some(self.cancels[i].1)
            },
            None => {
                proof {
                    lemma_map_of_absent(self.cancels@, id@);
                }
                None
            },
        }
    }

    /// Remove the cancel flag for `id`.
    pub fn remove_cancel(&mut self, id: &String)
        requires
            old(self).wf(),
        ensures
            final(self).wf(),
            final(self).cancels_map() =~= old(self).cancels_map().remove(id@),
            final(self).metas_map() == old(self).metas_map(),
    {
        match find_key(&self.cancels, id) {
            Some(i) => {
                proof {
                    lemma_map_of_remove(self.cancels@, i as int);
                }
                let _ = self.cancels.remove(i);
            },
            None => {
                proof {
                    lemma_map_of_absent(self.cancels@, id@);
                    assert(final(self).cancels_map() =~= old(self).cancels_map().remove(id@));
                }
            },
        }
    }

    /// Register a fresh, unset cancel flag for `id`.
    pub fn insert_cancel(&mut self, id: String)
        requires
            old(self).wf(),
        ensures
            final(self).wf(),
            final(self).cancels_map() =~= old(self).cancels_map().insert(id@, false),
            final(self).metas_map() == old(self).metas_map(),
    {
        self.remove_cancel(&id);
        let ghost before = self.cancels@;
        proof {
            lemma_map_of_absent_after_remove(before, id@);
        }
        self.cancels.push((id, false));
        proof {
            assert(self.cancels@.drop_last() =~= before);
        }
    }

    /// Set the cancel flag for `id`; reports whether the id was known.
    pub fn set_cancel(&mut self, id: &String) -> (found: bool)
        requires
            old(self).wf(),
        ensures
            final(self).wf(),
            final(self).metas_map() == old(self).metas_map(),
            found == old(self).cancels_map().contains_key(id@),
            found ==> final(self).cancels_map() =~= old(self).cancels_map().insert(id@, true),
            !found ==> final(self).cancels_map() == old(self).cancels_map(),
    {
        match find_key(&self.cancels, id) {
            Some(i) => {
                proof {
                    lemma_map_of_found(self.cancels@, i as int);
                    lemma_map_of_remove(self.cancels@, i as int);
                }
                let ghost before = self.cancels@;
                let key = self.cancels.remove(i).0;
                let ghost mid = self.cancels@;
                proof {
                    lemma_map_of_absent_after_remove_at(before, i as int);
                }
                self.cancels.push((key, true));
                proof {
                    assert(self.cancels@.drop_last() =~= mid);
                    assert(final(self).cancels_map() =~= old(self).cancels_map().insert(
                        id@,
                        true,
                    ));
                }
                true
            },
            None => {
                proof {
                    lemma_map_of_absent(self.cancels@, id@);
                }
                false
            },
        }
    }

    /// Force-stop and forget `id`: set its cancel flag first (so running
    /// workers stop writing), drop both registry entries, and hand back
    /// the temp and dest paths whose files are to be removed.
    pub fn delete_download(&mut self, id: &String) -> (r: Option<(String, String)>)
        requires
            old(self).wf(),
        ensures
            final(self).wf(),
            !final(self).metas_map().contains_key(id@),
            !final(self).cancels_map().contains_key(id@),
            final(self).metas_map() =~= old(self).metas_map().remove(id@),
            final(self).cancels_map() =~= old(self).cancels_map().remove(id@),
            match r {
                Some(paths) => old(self).metas_map().contains_key(id@) && paths.0 == old(
                    self,
                ).metas_map()[id@].temp && paths.1 == old(self).metas_map()[id@].dest,
                None => !old(self).metas_map().contains_key(id@),
            },
    {
        let _ = self.set_cancel(id);
        let meta = self.remove_meta(id);
        self.remove_cancel(id);
        match meta {
            Some(m) => Some((m.temp, m.dest)),
            None => None,
        }
    }

    /// Forget both registry entries for `id`, as every terminal
    /// disposition requires.
    pub fn drop_entries(&mut self, id: &String)
        requires
            old(self).wf(),
        ensures
            final(self).wf(),
            final(self).metas_map() =~= old(self).metas_map().remove(id@),
            final(self).cancels_map() =~= old(self).cancels_map().remove(id@),
            !final(self).metas_map().contains_key(id@),
            !final(self).cancels_map().contains_key(id@),
    {
        let _ = self.remove_meta(id);
        self.remove_cancel(id);
    }

    /// Ask a running download to stop at its next safe point.
    pub fn cancel_download(&mut self, id: &String) -> (r: Result<(), DownloadError>)
        requires
            old(self).wf(),
        ensures
            final(self).wf(),
            final(self).metas_map() == old(self).metas_map(),
            r is Ok <==> old(self).cancels_map().contains_key(id@),
            r is Ok ==> final(self).cancels_map() =~= old(self).cancels_map().insert(id@, true),
            r is Err ==> final(self).cancels_map() == old(self).cancels_map() && r->Err_0
                == DownloadError::NotFound,
    {
        if self.set_cancel(id) {
            Ok(())
        } else {
            Err(DownloadError::NotFound)
        }
    }
}

impl Default for AppState {
    /// The default registry is empty.
    fn default() -> (s: AppState)
        ensures
            s.wf(),
            s.metas_map() =~= Map::<Seq<char>, DownloadMeta>::empty(),
            s.cancels_map() =~= Map::<Seq<char>, bool>::empty(),
    {
        AppState::new()
    }
}

proof fn lemma_map_of_absent_after_remove<T>(entries: Seq<(String, T)>, k: Seq<char>)
    requires
        keys_unique(entries),
        !map_of(entries).contains_key(k),
    ensures
        forall|i: int| 0 <= i < entries.len() ==> (#[trigger] entries[i]).0@ != k,
{
    assert forall|i: int| 0 <= i < entries.len() implies (#[trigger] entries[i]).0@ != k by {
        if entries[i].0@ == k {
            lemma_map_of_found(entries, i);
        }
    }
}

proof fn lemma_map_of_absent_after_remove_at<T>(entries: Seq<(String, T)>, i: int)
    requires
        keys_unique(entries),
        0 <= i < entries.len(),
    ensures
        forall|j: int|
            0 <= j < entries.remove(i).len() ==> (#[trigger] entries.remove(i)[j]).0@
                != entries[i].0@,
{
    assert forall|j: int| 0 <= j < entries.remove(i).len() implies (
    #[trigger] entries.remove(i)[j]).0@ != entries[i].0@ by {
        let j0 = if j < i {
            j
        } else {
            j + 1
        };
        assert(entries.remove(i)[j] == entries[j0]);
    }
}

} // verus!
