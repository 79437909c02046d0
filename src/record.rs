//! The DNS record as the library keeps it, and its mathematical view.
use vstd::prelude::*;

verus! {

/// A DNS host record as the provider reports it, with the user's sync decision.
///
/// `sync` is `None` while no decision has been taken, `Some(true)` when the
/// record is to follow the machine's public address and `Some(false)` when not.
pub struct DNSRecord {
    pub record_type: String,
    pub name: String,
    pub content: String,
    pub proxy_status: Option<bool>,
    pub ttl: i32,
    pub id: String,
    pub sync: Option<bool>,
}

/// What a `DNSRecord` holds, with its texts as character sequences.
pub struct RecordView {
    pub record_type: Seq<char>,
    pub name: Seq<char>,
    pub content: Seq<char>,
    pub proxy_status: Option<bool>,
    pub ttl: i32,
    pub id: Seq<char>,
    pub sync: Option<bool>,
}

impl View for DNSRecord {
    type V = RecordView;

    open spec fn view(&self) -> RecordView {
        RecordView {
            record_type: self.record_type@,
            name: self.name@,
            content: self.content@,
            proxy_status: self.proxy_status,
            ttl: self.ttl,
            id: self.id@,
            sync: self.sync,
        }
    }
}

/// The views of a list of records, in order.
pub open spec fn views(rs: Seq<DNSRecord>) -> Seq<RecordView> {
    rs.map_values(|r: DNSRecord| r@)
}

/// No two records of the list share an id.
pub open spec fn unique_ids(rs: Seq<RecordView>) -> bool {
    forall|i: int, j: int|
        0 <= i < rs.len() && 0 <= j < rs.len() && i != j ==> #[trigger] rs[i].id != #[trigger] rs[j].id
}

/// Some record of the list has the id `id`.
pub open spec fn has_id(rs: Seq<RecordView>, id: Seq<char>) -> bool {
    exists|i: int| 0 <= i < rs.len() && #[trigger] rs[i].id == id
}

/// The record type that the library keeps: IPv4 host records.
pub open spec fn a_type() -> Seq<char> {
    seq!['A']
}

impl Clone for DNSRecord {
    fn clone(&self) -> (r: DNSRecord)
        ensures
            r@ == self@,
    {
        DNSRecord {
            record_type: self.record_type.clone(),
            name: self.name.clone(),
            content: self.content.clone(),
            proxy_status: self.proxy_status,
            ttl: self.ttl,
            id: self.id.clone(),
            sync: self.sync,
        }
    }
}

impl DNSRecord {
    /// True exactly when the record has been opted into synchronisation.
    pub fn is_sync_enabled(&self) -> (r: bool)
        ensures
            r == (self.sync == Some(true)),
    {
        match self.sync {
            Some(b) => b,
            None => false,
        }
    }
}

} // verus!
