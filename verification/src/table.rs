//! Lookup tables keyed by session and by request.
//!
//! The tables live in `dashmap` maps. Whoever changes one holds it exclusively,
//! so its contents are a plain map.

use crate::common::SessionId;
use dashmap::DashMap;
use vstd::prelude::*;

verus! {

#[verifier::external_type_specification]
#[verifier::external_body]
#[verifier::reject_recursive_types(K)]
#[verifier::reject_recursive_types(V)]
#[verifier::reject_recursive_types(S)]
pub struct ExDashMap<K, V, S>(DashMap<K, V, S>);

/// The entries of a map keyed by session.
pub uninterp spec fn session_entries(table: DashMap<u128, usize>) -> Map<u128, usize>;

/// The entries of a map keyed by request id, the ids taken as character
/// sequences.
pub uninterp spec fn request_entries(table: DashMap<String, usize>) -> Map<Seq<char>, usize>;

/// `DashMap::new`: no entries.
#[verifier::external_body]
fn new_session_map() -> (table: DashMap<u128, usize>)
    ensures
        session_entries(table).dom() == Set::<u128>::empty(),
{
    DashMap::new()
}

/// `DashMap::insert`: maps the key to the value, replacing an older one.
#[verifier::external_body]
fn insert_session(table: &mut DashMap<u128, usize>, key: u128, value: usize)
    ensures
        session_entries(*final(table)) == session_entries(*old(table)).insert(key, value),
{
    table.insert(key, value);
}

/// `DashMap::remove`: drops the key's entry and returns its value, if it had
/// one.
#[verifier::external_body]
fn remove_session(table: &mut DashMap<u128, usize>, key: u128) -> (removed: Option<usize>)
    ensures
        session_entries(*final(table)) == session_entries(*old(table)).remove(key),
        removed == (if session_entries(*old(table)).contains_key(key) {
            Some(session_entries(*old(table))[key])
        } else {
            None
        }),
{
    table.remove(&key).map(|entry| entry.1)
}

/// `DashMap::get`: the key's value, copied out.
#[verifier::external_body]
fn get_session(table: &DashMap<u128, usize>, key: u128) -> (value: Option<usize>)
    ensures
        value == (if session_entries(*table).contains_key(key) {
            Some(session_entries(*table)[key])
        } else {
            None
        }),
{
    table.get(&key).map(|entry| *entry)
}

/// `DashMap::new`: no entries.
#[verifier::external_body]
fn new_request_map() -> (table: DashMap<String, usize>)
    ensures
        request_entries(table).dom() == Set::<Seq<char>>::empty(),
{
    DashMap::new()
}

/// `DashMap::insert`: maps the key to the value, replacing an older one.
#[verifier::external_body]
fn insert_request(table: &mut DashMap<String, usize>, key: String, value: usize)
    ensures
        request_entries(*final(table)) == request_entries(*old(table)).insert(key@, value),
{
    table.insert(key, value);
}

/// `DashMap::get`: the key's value, copied out.
#[verifier::external_body]
fn get_request(table: &DashMap<String, usize>, key: &str) -> (value: Option<usize>)
    ensures
        value == (if request_entries(*table).contains_key(key@) {
            Some(request_entries(*table)[key@])
        } else {
            None
        }),
{
    table.get(key).map(|entry| *entry)
}

/// `DashMap::contains_key`.
#[verifier::external_body]
fn contains_request(table: &DashMap<String, usize>, key: &str) -> (found: bool)
    ensures
        found == request_entries(*table).contains_key(key@),
{
    table.contains_key(key)
}

/// Numbers by session.
pub struct SessionTable {
    entries: DashMap<u128, usize>,
}

impl View for SessionTable {
    type V = Map<SessionId, usize>;

    closed spec fn view(&self) -> Map<SessionId, usize> {
        session_entries(self.entries)
    }
}

impl SessionTable {
    /// An empty table.
    pub fn new() -> (table: Self)
        ensures
            table@ == Map::<SessionId, usize>::empty(),
    {
        let table = SessionTable { entries: new_session_map() };
        assert(table@ =~= Map::<SessionId, usize>::empty());
        table
    }

    /// Maps a session to a number.
    pub fn insert(&mut self, session_id: SessionId, value: usize)
        ensures
            final(self)@ == old(self)@.insert(session_id, value),
    {
        insert_session(&mut self.entries, session_id, value)
    }

    /// Drops a session and returns its number, if it had one.
    pub fn remove(&mut self, session_id: SessionId) -> (removed: Option<usize>)
        ensures
            final(self)@ == old(self)@.remove(session_id),
            removed == (if old(self)@.contains_key(session_id) {
                Some(old(self)@[session_id])
            } else {
                None
            }),
    {
        remove_session(&mut self.entries, session_id)
    }

    /// The number of a session.
    pub fn get(&self, session_id: SessionId) -> (value: Option<usize>)
        ensures
            value == (if self@.contains_key(session_id) {
                Some(self@[session_id])
            } else {
                None
            }),
    {
        get_session(&self.entries, session_id)
    }
}

/// Numbers by request id.
pub struct RequestTable {
    entries: DashMap<String, usize>,
}

impl View for RequestTable {
    type V = Map<Seq<char>, usize>;

    closed spec fn view(&self) -> Map<Seq<char>, usize> {
        request_entries(self.entries)
    }
}

impl RequestTable {
    /// An empty table.
    pub fn new() -> (table: Self)
        ensures
            table@ == Map::<Seq<char>, usize>::empty(),
    {
        let table = RequestTable { entries: new_request_map() };
        assert(table@ =~= Map::<Seq<char>, usize>::empty());
        table
    }

    /// Maps a request to a number.
    pub fn insert(&mut self, request_id: String, value: usize)
        ensures
            final(self)@ == old(self)@.insert(request_id@, value),
    {
        insert_request(&mut self.entries, request_id, value)
    }

    /// The number of a request.
    pub fn get(&self, request_id: &str) -> (value: Option<usize>)
        ensures
            value == (if self@.contains_key(request_id@) {
                Some(self@[request_id@])
            } else {
                None
            }),
    {
        get_request(&self.entries, request_id)
    }

    /// Whether the request has a number.
    pub fn contains(&self, request_id: &str) -> (found: bool)
        ensures
            found == self@.contains_key(request_id@),
    {
        contains_request(&self.entries, request_id)
    }
}

} // verus!
