//! A simple in-memory store for shows and their entries. Show
//! identifiers are issued densely from zero, so the store is a vector
//! whose invariant pins each show's identifier to its position.

use crate::elements::WatchEntry;
use crate::errors::StoreError;
use crate::text::str_eq;
use vstd::prelude::*;

verus! {

/// The opaque handle the store issues for a show.
pub type AnimeID = usize;

/// One tracked show and the entries recorded for it, in insertion
/// order.
#[derive(Debug, PartialEq)]
pub struct Anime {
    pub id: AnimeID,
    pub name: String,
    pub watch_entries: Vec<WatchEntry>,
}

impl Anime {
    /// A show with no entries yet.
    pub fn new(id: AnimeID, name: String) -> (r: Anime)
        ensures
            r.id == id,
            r.name == name,
            r.watch_entries@ == Seq::<WatchEntry>::empty(),
    {
        Anime { id, name, watch_entries: Vec::new() }
    }

    /// The entries recorded for this show, in insertion order.
    pub fn watch_entries(&self) -> (r: &Vec<WatchEntry>)
        ensures
            *r == self.watch_entries,
    {
        &self.watch_entries
    }
}

/// Every show sits at the position its identifier names.
pub open spec fn db_wf(db: SimpleDatabase) -> bool {
    forall|i: int| 0 <= i < db.animes@.len() ==> #[trigger] db.animes@[i].id == i
}

/// The store: shows indexed by their identifiers.
pub struct SimpleDatabase {
    pub animes: Vec<Anime>,
}

impl SimpleDatabase {
    /// An empty store.
    pub fn new() -> (r: SimpleDatabase)
        ensures
            r.animes@ == Seq::<Anime>::empty(),
            db_wf(r),
    {
        SimpleDatabase { animes: Vec::new() }
    }

    /// Position of the first show called `name`, if any.
    fn find_index_by_name(&self, name: &str) -> (r: Option<usize>)
        ensures
            match r {
                Some(i) => i < self.animes@.len() && self.animes@[i as int].name@ == name@ && (
                forall|k: int| 0 <= k < i ==> self.animes@[k].name@ != name@),
                None => forall|k: int|
                    0 <= k < self.animes@.len() ==> self.animes@[k].name@ != name@,
            },
    {
        let n = self.animes.len();
        let mut j: usize = 0;
        while j < n
            invariant
                j <= n,
                n == self.animes@.len(),
                forall|k: int| 0 <= k < j ==> self.animes@[k].name@ != name@,
            decreases n - j,
        {
            if str_eq(self.animes[j].name.as_str(), name) {
                return Some(j);
            }
            j = j + 1;
        }
        None
    }

    /// Registers a new show under `title` and returns its fresh
    /// identifier; refuses a title that is already tracked, leaving
    /// the store unchanged.
    pub fn add_new_anime(&mut self, title: &str) -> (r: Result<AnimeID, StoreError>)
        requires
            db_wf(*old(self)),
        ensures
            db_wf(*final(self)),
            match r {
                Ok(id) => {
                    &&& forall|k: int|
                        0 <= k < old(self).animes@.len() ==> old(self).animes@[k].name@ != title@
                    &&& id == old(self).animes@.len()
                    &&& final(self).animes@.len() == old(self).animes@.len() + 1
                    &&& forall|k: int|
                        0 <= k < old(self).animes@.len() ==> final(self).animes@[k] == old(self).animes@[k]
                    &&& final(self).animes@[id as int].id == id
                    &&& final(self).animes@[id as int].name@ == title@
                    &&& final(self).animes@[id as int].watch_entries@ == Seq::<
                        WatchEntry,
                    >::empty()
                },
                Err(e) => {
                    &&& exists|k: int|
                        0 <= k < old(self).animes@.len() && old(self).animes@[k].name@ == title@
                    &&& (e matches StoreError::DuplicateName(t) && t@ == title@)
                    &&& *final(self) == *old(self)
                },
            },
    {
        match self.find_index_by_name(title) {
            Some(_) => Err(StoreError::DuplicateName(title.to_owned())),
            None => {
                let id = self.animes.len();
                let anime = Anime::new(id, title.to_owned());
                self.animes.push(anime);
                Ok(id)
            },
        }
    }

    /// Appends an entry under the show it names; fails, leaving the
    /// store unchanged, when no show carries that identifier.
    pub fn add_watch_entry(&mut self, entry: WatchEntry) -> (r: Result<(), StoreError>)
        requires
            db_wf(*old(self)),
        ensures
            db_wf(*final(self)),
            match r {
                Ok(()) => {
                    &&& entry.anime_id < old(self).animes@.len()
                    &&& final(self).animes@.len() == old(self).animes@.len()
                    &&& forall|k: int|
                        0 <= k < old(self).animes@.len() && k != entry.anime_id ==> final(self).animes@[k] == old(self).animes@[k]
                    &&& final(self).animes@[entry.anime_id as int].id == entry.anime_id
                    &&& final(self).animes@[entry.anime_id as int].name == old(self).animes@[entry.anime_id as int].name
                    &&& final(self).animes@[entry.anime_id as int].watch_entries@ == old(self).animes@[entry.anime_id as int].watch_entries@.push(entry)
                },
                Err(e) => {
                    &&& entry.anime_id >= old(self).animes@.len()
                    &&& e == StoreError::UnknownId(entry.anime_id)
                    &&& *final(self) == *old(self)
                },
            },
    {
        let anime_id = entry.anime_id;
        if anime_id >= self.animes.len() {
            return Err(StoreError::UnknownId(anime_id));
        }
        let mut anime = self.animes.remove(anime_id);
        anime.watch_entries.push(entry);
        self.animes.insert(anime_id, anime);
        proof {
            assert forall|k: int|
                0 <= k < old(self).animes@.len() && k != anime_id implies self.animes@[k] == old(self).animes@[k] by {
                if k < anime_id {
                } else {
                    assert(self.animes@[k] == old(self).animes@.remove(anime_id as int).insert(
                        anime_id as int,
                        anime,
                    )[k]);
                }
            }
        }
        Ok(())
    }

    /// The show with this identifier, if it exists.
    pub fn find_anime_by_id(&self, anime_id: AnimeID) -> (r: Option<&Anime>)
        requires
            db_wf(*self),
        ensures
            match r {
                Some(a) => anime_id < self.animes@.len() && *a == self.animes@[anime_id as int],
                None => anime_id >= self.animes@.len(),
            },
    {
        if anime_id < self.animes.len() {
            Some(&self.animes[anime_id])
        } else {
            None
        }
    }

    /// The first show called `name`, if any.
    pub fn find_anime_by_name(&self, name: &str) -> (r: Option<&Anime>)
        ensures
            match r {
                Some(a) => exists|i: int|
                    0 <= i < self.animes@.len() && *a == self.animes@[i] && a.name@ == name@ && (
                    forall|k: int| 0 <= k < i ==> self.animes@[k].name@ != name@),
                None => forall|k: int|
                    0 <= k < self.animes@.len() ==> self.animes@[k].name@ != name@,
            },
    {
        match self.find_index_by_name(name) {
            Some(i) => Some(&self.animes[i]),
            None => None,
        }
    }
}

} // verus!
