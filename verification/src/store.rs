//! The alias store: at most one record for each alias string.

use vstd::prelude::*;
use crate::error::DirectoryError;
use crate::text::{clone_strings, strings_view};

verus! {

/// A mapping from an alias to a room.
#[derive(Debug)]
pub struct RoomAlias {
    /// The alias in full, `#localpart:domain`.
    pub alias: String,
    /// The room that the alias names.
    pub room_id: String,
    /// Servers through which the room can be joined.
    pub servers: Vec<String>,
    /// Who created the mapping.
    pub creator: String,
    /// When the mapping was created.
    pub created_at: u64,
}

/// What a record says, as plain mathematical values.
pub struct RoomAliasView {
    pub alias: Seq<char>,
    pub room_id: Seq<char>,
    pub servers: Seq<Seq<char>>,
    pub creator: Seq<char>,
    pub created_at: u64,
}

impl View for RoomAlias {
    type V = RoomAliasView;

    open spec fn view(&self) -> RoomAliasView {
        RoomAliasView {
            alias: self.alias@,
            room_id: self.room_id@,
            servers: strings_view(self.servers@),
            creator: self.creator@,
            created_at: self.created_at,
        }
    }
}

impl RoomAlias {
    /// A copy of the record.
    pub fn duplicate(&self) -> (r: RoomAlias)
        ensures
            r@ == self@,
    {
        RoomAlias {
            alias: self.alias.clone(),
            room_id: self.room_id.clone(),
            servers: clone_strings(&self.servers),
            creator: self.creator.clone(),
            created_at: self.created_at,
        }
    }
}

/// What holds of the contents of every store: a record is filed under its
/// own alias and names at least one server.
pub open spec fn store_inv(m: Map<Seq<char>, RoomAliasView>) -> bool {
    forall|k: Seq<char>| #[trigger]
        m.contains_key(k) ==> m[k].alias == k && m[k].servers.len() > 0
}

/// The contents of a store after an attempt to file `rec`.
pub open spec fn after_create(m: Map<Seq<char>, RoomAliasView>, rec: RoomAliasView) -> Map<
    Seq<char>,
    RoomAliasView,
> {
    if m.contains_key(rec.alias) {
        m
    } else {
        m.insert(rec.alias, rec)
    }
}

/// What an attempt to file `rec` returns.
pub open spec fn create_result(m: Map<Seq<char>, RoomAliasView>, rec: RoomAliasView) -> Result<
    RoomAliasView,
    DirectoryError,
> {
    if m.contains_key(rec.alias) {
        Err(DirectoryError::AliasAlreadyExists)
    } else {
        Ok(rec)
    }
}

/// What a lookup of `alias` returns.
pub open spec fn lookup_result(m: Map<Seq<char>, RoomAliasView>, alias: Seq<char>) -> Result<
    RoomAliasView,
    DirectoryError,
> {
    if m.contains_key(alias) {
        Ok(m[alias])
    } else {
        Err(DirectoryError::NotFound)
    }
}

/// The contents of a store after an attempt to delete `alias`.
pub open spec fn after_delete(m: Map<Seq<char>, RoomAliasView>, alias: Seq<char>) -> Map<
    Seq<char>,
    RoomAliasView,
> {
    m.remove(alias)
}

/// What an attempt to delete `alias` returns.
pub open spec fn delete_result(m: Map<Seq<char>, RoomAliasView>, alias: Seq<char>) -> Result<
    (),
    DirectoryError,
> {
    if m.contains_key(alias) {
        Ok(())
    } else {
        Err(DirectoryError::NotFound)
    }
}

/// The view of what `create`, `lookup` return.
pub open spec fn record_result_view(r: Result<RoomAlias, DirectoryError>) -> Result<
    RoomAliasView,
    DirectoryError,
> {
    match r {
        Ok(rec) => Ok(rec@),
        Err(e) => Err(e),
    }
}

/// The records of a directory, keyed by alias.
pub struct AliasStore {
    entries: Vec<RoomAlias>,
}

/// The index of the record filed under `k`, where there is one.
spec fn index_of(entries: Seq<RoomAlias>, k: Seq<char>) -> int {
    choose|i: int| 0 <= i < entries.len() && entries[i].alias@ == k
}

spec fn model(entries: Seq<RoomAlias>) -> Map<Seq<char>, RoomAliasView> {
    Map::new(
        |k: Seq<char>| exists|i: int| 0 <= i < entries.len() && #[trigger] entries[i].alias@ == k,
        |k: Seq<char>| entries[index_of(entries, k)]@,
    )
}

spec fn distinct(entries: Seq<RoomAlias>) -> bool {
    forall|i: int, j: int|
        0 <= i < j < entries.len() ==> #[trigger] entries[i].alias@ != #[trigger] entries[j].alias@
}

proof fn lemma_model_at(entries: Seq<RoomAlias>, i: int)
    requires
        distinct(entries),
        0 <= i < entries.len(),
    ensures
        model(entries).contains_key(entries[i].alias@),
        model(entries)[entries[i].alias@] == entries[i]@,
{
    let k = entries[i].alias@;
    let j = index_of(entries, k);
    assert(0 <= j < entries.len() && entries[j].alias@ == k);
    if j < i {
        assert(entries[j].alias@ != entries[i].alias@);
    }
    if i < j {
        assert(entries[i].alias@ != entries[j].alias@);
    }
}

impl View for AliasStore {
    type V = Map<Seq<char>, RoomAliasView>;

    closed spec fn view(&self) -> Map<Seq<char>, RoomAliasView> {
        model(self.entries@)
    }
}

impl AliasStore {
    /// No two records share an alias, and each names a server.
    #[verifier::type_invariant]
    pub closed spec fn inv(self) -> bool {
        &&& distinct(self.entries@)
        &&& forall|i: int| 0 <= i < self.entries@.len() ==> (#[trigger] self.entries@[i]).servers@.len() > 0
    }

    /// A store without records.
    pub fn new() -> (s: AliasStore)
        ensures
            s@ == Map::<Seq<char>, RoomAliasView>::empty(),
    {
        let s = AliasStore { entries: Vec::new() };
        assert(s@ =~= Map::<Seq<char>, RoomAliasView>::empty());
        s
    }

    fn position(&self, alias: &String) -> (r: Option<usize>)
        ensures
            r matches Some(i) ==> i < self.entries@.len() && self.entries@[i as int].alias@ == alias@,
            r is None ==> forall|j: int| 0 <= j < self.entries@.len() ==> (#[trigger] self.entries@[j]).alias@ != alias@,
            r is Some <==> self@.contains_key(alias@),
    {
        let mut i: usize = 0;
        while i < self.entries.len()
            invariant
                i <= self.entries@.len(),
                forall|j: int| 0 <= j < i ==> (#[trigger] self.entries@[j]).alias@ != alias@,
            decreases self.entries@.len() - i,
        {
            if self.entries[i].alias == *alias {
                return Some(i);
            }
            i = i + 1;
        }
        None
    }

    /// The record filed under `alias`, or `NotFound`.
    pub fn lookup(&self, alias: &str) -> (r: Result<RoomAlias, DirectoryError>)
        ensures
            record_result_view(r) == lookup_result(self@, alias@),
            store_inv(self@),
    {
        proof {
            use_type_invariant(self);
            self.lemma_contents();
        }
        let key = alias.to_owned();
        match self.position(&key) {
            Some(i) => {
                proof {
                    lemma_model_at(self.entries@, i as int);
                }
                Ok(self.entries[i].duplicate())
            },
            None => Err(DirectoryError::NotFound),
        }
    }

    /// What the invariant of the store means for its contents.
    pub proof fn lemma_contents(&self)
        requires
            self.inv(),
        ensures
            store_inv(self@),
    {
        assert forall|k: Seq<char>| #[trigger] self@.contains_key(k) implies self@[k].alias == k
            && self@[k].servers.len() > 0 by {
            let i = index_of(self.entries@, k);
            assert(self.entries@[i].servers@.len() > 0);
        }
    }

    /// Files a new record under `alias`, unless one is filed there already.
    ///
    /// The test for an existing record and the insertion are one step: the
    /// store is borrowed exclusively for both.
    pub fn create(
        &mut self,
        alias: &str,
        room_id: &str,
        servers: &Vec<String>,
        creator: &str,
        created_at: u64,
    ) -> (r: Result<RoomAlias, DirectoryError>)
        requires
            servers@.len() > 0,
        ensures
            record_result_view(r) == create_result(
                old(self)@,
                (RoomAliasView {
                    alias: alias@,
                    room_id: room_id@,
                    servers: strings_view(servers@),
                    creator: creator@,
                    created_at,
                }),
            ),
            final(self)@ == after_create(
                old(self)@,
                (RoomAliasView {
                    alias: alias@,
                    room_id: room_id@,
                    servers: strings_view(servers@),
                    creator: creator@,
                    created_at,
                }),
            ),
            store_inv(final(self)@),
    {
        proof {
            use_type_invariant(&*self);
            self.lemma_contents();
        }
        let key = alias.to_owned();
        if self.position(&key).is_some() {
            return Err(DirectoryError::AliasAlreadyExists);
        }
        let rec = RoomAlias {
            alias: key,
            room_id: room_id.to_owned(),
            servers: clone_strings(servers),
            creator: creator.to_owned(),
            created_at,
        };
        let out = rec.duplicate();
        let ghost before = self.entries@;
        let mut entries: Vec<RoomAlias> = Vec::new();
        core::mem::swap(&mut self.entries, &mut entries);
        entries.push(rec);
        proof {
            let after = entries@;
            assert(after == before.push(rec));
            assert(distinct(after));
            assert(strings_view(rec.servers@).len() == strings_view(servers@).len());
            assert forall|a: int| 0 <= a < after.len() implies (#[trigger] after[a]).servers@.len()
                > 0 by {
                if a < before.len() {
                    assert(after[a] == before[a]);
                }
            }
            assert forall|k: Seq<char>| #[trigger]
                model(after).contains_key(k) == model(before).insert(rec@.alias, rec@).contains_key(
                    k,
                ) by {
                if model(before).contains_key(k) {
                    let i = index_of(before, k);
                    assert(after[i].alias@ == k);
                }
                if k == rec@.alias {
                    assert(after[before.len() as int].alias@ == k);
                }
            }
            assert forall|k: Seq<char>| #[trigger]
                model(after).contains_key(k) implies model(after)[k] == model(before).insert(
                rec@.alias,
                rec@,
            )[k] by {
                let i = index_of(after, k);
                lemma_model_at(after, i);
                if i < before.len() {
                    lemma_model_at(before, i);
                }
            }
            assert(model(after) =~= model(before).insert(rec@.alias, rec@));
        }
        core::mem::swap(&mut self.entries, &mut entries);
        proof {
            self.lemma_contents();
        }
        Ok(out)
    }

    /// Removes the record filed under `alias`, or fails with `NotFound`.
    pub fn delete(&mut self, alias: &str) -> (r: Result<(), DirectoryError>)
        ensures
            r == delete_result(old(self)@, alias@),
            final(self)@ == after_delete(old(self)@, alias@),
            store_inv(final(self)@),
    {
        proof {
            use_type_invariant(&*self);
            self.lemma_contents();
        }
        let key = alias.to_owned();
        match self.position(&key) {
            None => {
                assert(self@.remove(alias@) =~= self@);
                Err(DirectoryError::NotFound)
            },
            Some(i) => {
                let ghost before = self.entries@;
                let mut entries: Vec<RoomAlias> = Vec::new();
                core::mem::swap(&mut self.entries, &mut entries);
                entries.remove(i);
                proof {
                    let after = entries@;
                    assert(after == before.remove(i as int));
                    assert(distinct(after)) by {
                        assert forall|a: int, b: int| 0 <= a < b < after.len() implies #[trigger] after[a].alias@ != #[trigger] after[b].alias@ by {
                            let a0 = if a < i { a } else { a + 1 };
                            let b0 = if b < i { b } else { b + 1 };
                            assert(after[a] == before[a0]);
                            assert(after[b] == before[b0]);
                        }
                    }
                    assert forall|k: Seq<char>| #[trigger]
                        model(after).contains_key(k) == model(before).remove(alias@).contains_key(
                            k,
                        ) by {
                        if model(after).contains_key(k) {
                            let a = index_of(after, k);
                            let a0 = if a < i { a } else { a + 1 };
                            assert(before[a0].alias@ == k);
                            if k == alias@ {
                                if a0 < i {
                                    assert(before[a0].alias@ != before[i as int].alias@);
                                } else {
                                    assert(before[i as int].alias@ != before[a0].alias@);
                                }
                            }
                        }
                        if model(before).contains_key(k) && k != alias@ {
                            let b = index_of(before, k);
                            let b1 = if b < i { b } else { b - 1 };
                            assert(after[b1].alias@ == k);
                        }
                    }
                    assert forall|k: Seq<char>| #[trigger]
                        model(after).contains_key(k) implies model(after)[k] == model(before).remove(
                        alias@,
                    )[k] by {
                        let a = index_of(after, k);
                        let a0 = if a < i { a } else { a + 1 };
                        lemma_model_at(after, a);
                        lemma_model_at(before, a0);
                    }
                    assert(model(after) =~= model(before).remove(alias@));
                    assert forall|a: int| 0 <= a < after.len() implies (#[trigger] after[a]).servers@.len() > 0 by {
                        let a0 = if a < i { a } else { a + 1 };
                        assert(after[a] == before[a0]);
                    }
                }
                core::mem::swap(&mut self.entries, &mut entries);
                proof {
                    self.lemma_contents();
                }
                Ok(())
            },
        }
    }
}

} // verus!
