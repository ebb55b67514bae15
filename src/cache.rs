//! The key-value cache of areas: area name to coordinates.
//!
//! The store is remote, so this module decides what to write and leaves the writing to its
//! caller: a refresh becomes one `Put` per fetched area, a clear becomes one `Delete` per
//! enumerated key. The store offers no atomic bulk clear: a key written by someone else after
//! the enumeration survives the clear, as [`lemma_clear_removes_enumerated`] states.
use vstd::prelude::*;

use crate::area::{Area, AreaV, Data, FetchError, MetadataV};

verus! {

/// Why an operation on the cache failed.
#[derive(Clone, Copy, Debug, PartialEq, Eq, Structural)]
pub enum CacheError {
    /// The store could not be reached or refused the operation.
    Unavailable,
    /// The store did not answer in time.
    TimedOut,
}

/// One write to the cache.
#[derive(Clone, Debug, PartialEq)]
pub enum CacheCommand {
    /// Store the area's coordinates under its name, replacing what was there.
    Put(Area),
    /// Remove the key; removing an absent key changes nothing.
    Delete(String),
}

pub enum CommandV {
    Put(AreaV),
    Delete(Seq<char>),
}

impl View for CacheCommand {
    type V = CommandV;

    open spec fn view(&self) -> CommandV {
        match self {
            CacheCommand::Put(a) => CommandV::Put(a@),
            CacheCommand::Delete(k) => CommandV::Delete(k@),
        }
    }
}

/// The cache after one command.
pub open spec fn apply_command(store: Map<Seq<char>, MetadataV>, c: CommandV) -> Map<Seq<char>, MetadataV> {
    match c {
        CommandV::Put(a) => store.insert(a.area_name, a.metadata),
        CommandV::Delete(k) => store.remove(k),
    }
}

/// The cache after the commands, in order.
pub open spec fn apply_commands(store: Map<Seq<char>, MetadataV>, cs: Seq<CommandV>) -> Map<Seq<char>, MetadataV>
    decreases cs.len(),
{
    if cs.len() == 0 {
        store
    } else {
        apply_command(apply_commands(store, cs.drop_last()), cs.last())
    }
}

pub open spec fn puts(areas: Seq<AreaV>) -> Seq<CommandV> {
    areas.map_values(|a: AreaV| CommandV::Put(a))
}

pub open spec fn deletes(keys: Seq<Seq<char>>) -> Seq<CommandV> {
    keys.map_values(|k: Seq<char>| CommandV::Delete(k))
}

/// The coordinates of the last area in `areas` named `name`.
pub open spec fn last_named(areas: Seq<AreaV>, name: Seq<char>) -> Option<MetadataV>
    decreases areas.len(),
{
    if areas.len() == 0 {
        None
    } else if areas.last().area_name == name {
        Some(areas.last().metadata)
    } else {
        last_named(areas.drop_last(), name)
    }
}

impl Area {
    /// A copy of this area.
    pub fn copied(&self) -> (r: Area)
        ensures
            r@ == self@,
    {
        Area {
            area_name: self.area_name.clone(),
            metadata: crate::area::Metadata {
                lat: self.metadata.lat.copied(),
                lng: self.metadata.lng.copied(),
            },
        }
    }
}

/// The writes of a refresh: on success one `Put` per fetched area, in the source's order;
/// on failure the source's error and no write at all.
pub fn refresh_commands(fetched: &Result<Data, FetchError>) -> (r: Result<Vec<CacheCommand>, FetchError>)
    ensures
        match fetched {
            Ok(d) => r is Ok && r->Ok_0.len() == d.areas.len() && r->Ok_0@.map_values(
                |c: CacheCommand| c@,
            ) == puts(d@),
            Err(e) => r == Err::<Vec<CacheCommand>, FetchError>(*e),
        },
{
    match fetched {
        Err(e) => Err(*e),
        Ok(d) => {
            let mut out: Vec<CacheCommand> = Vec::new();
            let mut i: usize = 0;
            while i < d.areas.len()
                invariant
                    0 <= i <= d.areas.len(),
                    out.len() == i,
                    forall|k: int| 0 <= k < i ==> #[trigger] out[k]@ == CommandV::Put(d.areas[k]@),
                decreases d.areas.len() - i,
            {
                out.push(CacheCommand::Put(d.areas[i].copied()));
                i = i + 1;
            }
            assert(out@.map_values(|c: CacheCommand| c@) =~= puts(d@));
            Ok(out)
        },
    }
}

/// The writes of a clear: one `Delete` per enumerated key, in order. An empty enumeration
/// gives no write.
pub fn clear_commands(keys: &Vec<String>) -> (r: Vec<CacheCommand>)
    ensures
        r.len() == keys.len(),
        r@.map_values(|c: CacheCommand| c@) == deletes(keys@.map_values(|k: String| k@)),
{
    let mut out: Vec<CacheCommand> = Vec::new();
    let mut i: usize = 0;
    while i < keys.len()
        invariant
            0 <= i <= keys.len(),
            out.len() == i,
            forall|k: int| 0 <= k < i ==> #[trigger] out[k]@ == CommandV::Delete(keys[k]@),
        decreases keys.len() - i,
    {
        out.push(CacheCommand::Delete(keys[i].clone()));
        i = i + 1;
    }
    assert(out@.map_values(|c: CacheCommand| c@) =~= deletes(keys@.map_values(|k: String| k@)));
    out
}

/// A refresh overwrites and adds, and never purges: afterwards each name holds the coordinates
/// of the last fetched area of that name, and every other key keeps what it had.
pub proof fn lemma_refresh_overwrites(store: Map<Seq<char>, MetadataV>, areas: Seq<AreaV>)
    ensures
        forall|k: Seq<char>|
            #![trigger apply_commands(store, puts(areas)).contains_key(k)]
            #![trigger last_named(areas, k)]
            apply_commands(store, puts(areas)).contains_key(k) <==> (store.contains_key(k)
                || last_named(areas, k) is Some),
        forall|k: Seq<char>|
            #![trigger apply_commands(store, puts(areas))[k]]
            apply_commands(store, puts(areas)).contains_key(k) ==> apply_commands(store, puts(areas))[k]
                == match last_named(areas, k) {
                Some(m) => m,
                None => store[k],
            },
    decreases areas.len(),
{
    if areas.len() > 0 {
        let init = areas.drop_last();
        lemma_refresh_overwrites(store, init);
        assert(puts(areas).drop_last() =~= puts(init));
        assert(puts(areas).last() == CommandV::Put(areas.last()));
    } else {
        assert(puts(areas).len() == 0);
    }
}

/// A failed refresh writes nothing, so the cache is as it was.
pub proof fn lemma_failed_refresh_keeps_cache(store: Map<Seq<char>, MetadataV>)
    ensures
        apply_commands(store, Seq::empty()) == store,
{
}

/// Deleting a key the cache does not hold changes nothing.
pub proof fn lemma_delete_absent_is_noop(store: Map<Seq<char>, MetadataV>, key: Seq<char>)
    requires
        !store.contains_key(key),
    ensures
        apply_command(store, CommandV::Delete(key)) == store,
{
    assert(store.remove(key) =~= store);
}

/// A clear removes exactly the enumerated keys: a key written after the enumeration survives.
pub proof fn lemma_clear_removes_enumerated(store: Map<Seq<char>, MetadataV>, keys: Seq<Seq<char>>)
    ensures
        apply_commands(store, deletes(keys)) == store.remove_keys(keys.to_set()),
    decreases keys.len(),
{
    if keys.len() > 0 {
        let init = keys.drop_last();
        lemma_clear_removes_enumerated(store, init);
        assert(deletes(keys).drop_last() =~= deletes(init));
        assert(deletes(keys).last() == CommandV::Delete(keys.last()));
        assert(keys.to_set() =~= init.to_set().insert(keys.last())) by {
            assert(keys =~= init.push(keys.last()));
            init.lemma_push_to_set_commute(keys.last());
        }
        assert(store.remove_keys(init.to_set()).remove(keys.last()) =~= store.remove_keys(
            keys.to_set(),
        ));
    } else {
        assert(keys.to_set() =~= Set::empty());
        assert(store.remove_keys(keys.to_set()) =~= store);
    }
}

/// Clearing with an enumeration of every key leaves the cache empty; an empty cache
/// enumerates no key, so its clear writes nothing.
pub proof fn lemma_clear_all(store: Map<Seq<char>, MetadataV>, keys: Seq<Seq<char>>)
    requires
        keys.to_set() == store.dom(),
    ensures
        apply_commands(store, deletes(keys)) == Map::<Seq<char>, MetadataV>::empty(),
        store.dom().is_empty() ==> deletes(keys).len() == 0,
{
    lemma_clear_removes_enumerated(store, keys);
    assert(store.remove_keys(keys.to_set()) =~= Map::<Seq<char>, MetadataV>::empty());
    if store.dom().is_empty() && keys.len() > 0 {
        assert(keys.to_set().contains(keys[0]));
    }
}

} // verus!
