//! Reading the provider's list of DNS records out of its reply.
use vstd::prelude::*;
use crate::json::{
    elements_of, format_json_tab, json_elements, json_member, json_of, json_text, member_of, parse_json, parsed_json,
    tab_formatted,
};
use crate::record::{a_type, views, DNSRecord, RecordView};
use crate::text::{contains_fragment, contains_text, i32_value, parse_i32, strip_quotes, without_quotes};

verus! {

/// A field that every element of the provider's list must carry.
#[derive(PartialEq, Eq, Structural, Clone, Copy, Debug)]
pub enum RecordField {
    Name,
    Id,
    Type,
    Content,
    Proxied,
    Ttl,
}

/// Why a list of records could not be fetched.
#[derive(Debug)]
pub enum FetchError {
    /// The request did not reach the provider or no reply came back.
    Transport(String),
    /// The reply's body could not be read as text.
    UnreadableBody(String),
    /// The reply lacks the success indicator; the laid-out body is kept.
    Unsuccessful(String),
    /// The body is not JSON.
    MalformedJson,
    /// The JSON has no `result` member.
    MissingResult,
    /// The `result` member is not an array.
    ResultNotArray,
    /// An element of the list lacks a field.
    MissingField(RecordField),
    /// An element's `ttl` is not a 32-bit integer.
    InvalidTtl,
}

/// The fields of one element of the provider's list, each as its JSON text,
/// or `None` where the element lacks it.
pub struct RecordFields {
    pub name: Option<String>,
    pub id: Option<String>,
    pub record_type: Option<String>,
    pub content: Option<String>,
    pub proxied: Option<String>,
    pub ttl: Option<String>,
}

/// What a `RecordFields` holds, with its texts as character sequences.
pub struct FieldsView {
    pub name: Option<Seq<char>>,
    pub id: Option<Seq<char>>,
    pub record_type: Option<Seq<char>>,
    pub content: Option<Seq<char>>,
    pub proxied: Option<Seq<char>>,
    pub ttl: Option<Seq<char>>,
}

pub open spec fn opt_text(o: Option<String>) -> Option<Seq<char>> {
    match o {
        Some(s) => Some(s@),
        None => None,
    }
}

impl View for RecordFields {
    type V = FieldsView;

    open spec fn view(&self) -> FieldsView {
        FieldsView {
            name: opt_text(self.name),
            id: opt_text(self.id),
            record_type: opt_text(self.record_type),
            content: opt_text(self.content),
            proxied: opt_text(self.proxied),
            ttl: opt_text(self.ttl),
        }
    }
}

/// The views of a list of element fields, in order.
pub open spec fn fields_views(fs: Seq<RecordFields>) -> Seq<FieldsView> {
    fs.map_values(|f: RecordFields| f@)
}

/// The text of a field with its quotes removed.
pub open spec fn field_text(f: Option<Seq<char>>) -> Seq<char> {
    without_quotes(f.unwrap())
}

pub open spec fn true_text() -> Seq<char> {
    seq!['t', 'r', 'u', 'e']
}

pub open spec fn false_text() -> Seq<char> {
    seq!['f', 'a', 'l', 's', 'e']
}

/// `"true"` and `"false"` give the proxy status; any other text leaves it unknown.
pub open spec fn proxy_of(t: Seq<char>) -> Option<bool> {
    if t == true_text() {
        Some(true)
    } else if t == false_text() {
        Some(false)
    } else {
        None
    }
}

/// The first field, in the order of `RecordField`, that the element lacks.
pub open spec fn first_missing(f: FieldsView) -> Option<RecordField> {
    if f.name is None {
        Some(RecordField::Name)
    } else if f.id is None {
        Some(RecordField::Id)
    } else if f.record_type is None {
        Some(RecordField::Type)
    } else if f.content is None {
        Some(RecordField::Content)
    } else if f.proxied is None {
        Some(RecordField::Proxied)
    } else if f.ttl is None {
        Some(RecordField::Ttl)
    } else {
        None
    }
}

/// What one element of the list gives: an error where a field is missing or the
/// ttl is not a 32-bit integer, nothing for a record that is not of type "A",
/// and otherwise the record, with no sync decision yet.
pub open spec fn element_outcome(f: FieldsView) -> Result<Option<RecordView>, FetchError> {
    match first_missing(f) {
        Some(field) => Err(FetchError::MissingField(field)),
        None => if field_text(f.record_type) != a_type() {
            Ok(None)
        } else {
            match i32_value(field_text(f.ttl)) {
                None => Err(FetchError::InvalidTtl),
                Some(ttl) => Ok(
                    Some(
                        RecordView {
                            record_type: a_type(),
                            name: field_text(f.name),
                            content: field_text(f.content),
                            proxy_status: proxy_of(field_text(f.proxied)),
                            ttl,
                            id: field_text(f.id),
                            sync: None,
                        },
                    ),
                ),
            }
        },
    }
}

/// What a whole list gives: the first element's error, if any element has one;
/// otherwise the records of type "A", in order.
pub open spec fn list_outcome(fs: Seq<FieldsView>) -> Result<Seq<RecordView>, FetchError>
    decreases fs.len(),
{
    if fs.len() == 0 {
        Ok(Seq::empty())
    } else {
        match list_outcome(fs.drop_last()) {
            Err(e) => Err(e),
            Ok(prev) => match element_outcome(fs.last()) {
                Err(e) => Err(e),
                Ok(None) => Ok(prev),
                Ok(Some(r)) => Ok(prev.push(r)),
            },
        }
    }
}

/// A result that `list_outcome` could give: the same error, or records with the same views.
pub open spec fn agrees_with(r: Result<Vec<DNSRecord>, FetchError>, o: Result<Seq<RecordView>, FetchError>) -> bool {
    match o {
        Ok(vs) => r is Ok && views(r->Ok_0@) == vs,
        Err(e) => r is Err && r->Err_0 == e,
    }
}

/// The success indicator looked for in the laid-out reply.
pub open spec fn success_marker() -> Seq<char> {
    seq!['"', 's', 'u', 'c', 'c', 'e', 's', 's', '"', ':', ' ', 't', 'r', 'u', 'e']
}

/// The laid-out reply carries the success indicator.
pub open spec fn reply_succeeded(body: Seq<char>) -> bool {
    contains_text(tab_formatted(body), success_marker())
}

/// Whether the two texts are equal.
fn same_text(a: &str, b: &str) -> (r: bool)
    ensures
        r == (a@ == b@),
{
    let x = String::from_str(a);
    let y = String::from_str(b);
    x == y
}

/// Whether the reply `formatted`, as laid out by jsonformat, carries the success indicator.
pub fn has_success_flag(formatted: &str) -> (r: bool)
    ensures
        r == contains_text(formatted@, success_marker()),
{
    let marker = "\"success\": true";
    proof {
        reveal_strlit("\"success\": true");
    }
    assert(marker@ =~= success_marker());
    contains_fragment(formatted, marker)
}

/// Turns the fields of one element of the provider's list into a record.
pub fn record_from_fields(f: &RecordFields) -> (r: Result<Option<DNSRecord>, FetchError>)
    ensures
        match element_outcome(f@) {
            Ok(Some(v)) => r is Ok && r->Ok_0 is Some && r->Ok_0->Some_0@ == v,
            Ok(None) => r is Ok && r->Ok_0 is None,
            Err(e) => r is Err && r->Err_0 == e,
        },
{
    let name = match &f.name {
        Some(t) => t,
        None => return Err(FetchError::MissingField(RecordField::Name)),
    };
    let id = match &f.id {
        Some(t) => t,
        None => return Err(FetchError::MissingField(RecordField::Id)),
    };
    let record_type = match &f.record_type {
        Some(t) => t,
        None => return Err(FetchError::MissingField(RecordField::Type)),
    };
    let content = match &f.content {
        Some(t) => t,
        None => return Err(FetchError::MissingField(RecordField::Content)),
    };
    let proxied = match &f.proxied {
        Some(t) => t,
        None => return Err(FetchError::MissingField(RecordField::Proxied)),
    };
    let ttl = match &f.ttl {
        Some(t) => t,
        None => return Err(FetchError::MissingField(RecordField::Ttl)),
    };
    let record_type = strip_quotes(record_type.as_str());
    proof {
        reveal_strlit("A");
        reveal_strlit("true");
        reveal_strlit("false");
    }
    assert("A"@ =~= a_type());
    if !same_text(record_type.as_str(), "A") {
        return Ok(None);
    }
    let ttl = match parse_i32(strip_quotes(ttl.as_str()).as_str()) {
        Some(n) => n,
        None => return Err(FetchError::InvalidTtl),
    };
    let proxied = strip_quotes(proxied.as_str());
    assert("true"@ =~= true_text());
    assert("false"@ =~= false_text());
    let proxy_status = if same_text(proxied.as_str(), "true") {
        Some(true)
    } else if same_text(proxied.as_str(), "false") {
        Some(false)
    } else {
        None
    };
    Ok(
        Some(
            DNSRecord {
                record_type,
                name: strip_quotes(name.as_str()),
                content: strip_quotes(content.as_str()),
                proxy_status,
                ttl,
                id: strip_quotes(id.as_str()),
                sync: None,
            },
        ),
    )
}

/// Turns the elements of the provider's list into records: the first element
/// that lacks a field or has a bad ttl fails the whole list; records of
/// another type than "A" are left out.
pub fn records_from_fields(elements: &Vec<RecordFields>) -> (r: Result<Vec<DNSRecord>, FetchError>)
    ensures
        agrees_with(r, list_outcome(fields_views(elements@))),
{
    let ghost all = fields_views(elements@);
    let mut out: Vec<DNSRecord> = Vec::new();
    let mut i: usize = 0;
    assert(views(out@) =~= Seq::<RecordView>::empty());
    assert(all.subrange(0, 0) =~= Seq::<FieldsView>::empty());
    while i < elements.len()
        invariant
            i <= elements@.len(),
            all == fields_views(elements@),
            list_outcome(all.subrange(0, i as int)) == Ok::<Seq<RecordView>, FetchError>(views(out@)),
        decreases elements@.len() - i,
    {
        let ghost before = out@;
        let ghost taken = all.subrange(0, i + 1);
        assert(taken.drop_last() =~= all.subrange(0, i as int));
        assert(taken.last() == elements@[i as int]@);
        match record_from_fields(&elements[i]) {
            Err(e) => {
                assert(list_outcome(taken) == Err::<Seq<RecordView>, FetchError>(e));
                proof {
                    lemma_error_persists(all, i as int + 1);
                }
                assert(all.subrange(0, all.len() as int) =~= all);
                return Err(e);
            },
            Ok(None) => {},
            Ok(Some(rec)) => {
                out.push(rec);
                assert(views(out@) =~= views(before).push(rec@));
            },
        }
        i = i + 1;
    }
    assert(all.subrange(0, all.len() as int) =~= all);
    Ok(out)
}

/// Once a prefix of the list fails, every longer prefix fails with the same error.
proof fn lemma_error_persists(fs: Seq<FieldsView>, k: int)
    requires
        0 <= k <= fs.len(),
        list_outcome(fs.subrange(0, k)) is Err,
    ensures
        list_outcome(fs.subrange(0, fs.len() as int)) == list_outcome(fs.subrange(0, k)),
    decreases fs.len() - k,
{
    if k < fs.len() {
        assert(fs.subrange(0, k + 1).drop_last() =~= fs.subrange(0, k));
        lemma_error_persists(fs, k + 1);
    }
}

/// An element that lacks its ttl makes the whole list fail: no part of the list is kept.
pub proof fn lemma_missing_ttl_fails_list(fs: Seq<FieldsView>, i: int)
    requires
        0 <= i < fs.len(),
        fs[i].ttl is None,
    ensures
        list_outcome(fs) is Err,
    decreases fs.len(),
{
    if i == fs.len() - 1 {
        assert(first_missing(fs.last()) is Some);
    } else {
        assert(fs.drop_last()[i] == fs[i]);
        lemma_missing_ttl_fails_list(fs.drop_last(), i);
    }
}

/// Every record that a list gives is of type "A" and carries no sync decision.
pub proof fn lemma_list_only_a_records(fs: Seq<FieldsView>)
    requires
        list_outcome(fs) is Ok,
    ensures
        forall|j: int|
            0 <= j < list_outcome(fs)->Ok_0.len() ==> (#[trigger] list_outcome(fs)->Ok_0[j]).record_type == a_type()
                && list_outcome(fs)->Ok_0[j].sync is None,
    decreases fs.len(),
{
    if fs.len() > 0 {
        lemma_list_only_a_records(fs.drop_last());
    }
}

/// The fields of the element written `doc`: the JSON text of each of its six members.
pub open spec fn element_fields(doc: Seq<char>) -> FieldsView {
    FieldsView {
        name: member_of(doc, "name"@),
        id: member_of(doc, "id"@),
        record_type: member_of(doc, "type"@),
        content: member_of(doc, "content"@),
        proxied: member_of(doc, "proxied"@),
        ttl: member_of(doc, "ttl"@),
    }
}

/// What the body of a reply that carries the success indicator gives: an
/// error when it is not JSON, has no `result` member or when that member is
/// not an array; otherwise what `list_outcome` gives for the array's elements.
pub open spec fn decoded_outcome(body: Seq<char>) -> Result<Seq<RecordView>, FetchError> {
    match parsed_json(body) {
        None => Err(FetchError::MalformedJson),
        Some(doc) => match member_of(doc, "result"@) {
            None => Err(FetchError::MissingResult),
            Some(result) => match elements_of(result) {
                None => Err(FetchError::ResultNotArray),
                Some(elements) => list_outcome(elements.map_values(|e: Seq<char>| element_fields(e))),
            },
        },
    }
}

/// The JSON text of the member `key`, if `v` has one.
fn member_text(v: &serde_json::Value, key: &str) -> (r: Option<String>)
    ensures
        opt_text(r) == member_of(json_of(*v), key@),
{
    match json_member(v, key) {
        Some(m) => Some(json_text(&m)),
        None => None,
    }
}

/// Reads the fields of one element of the provider's list.
fn fields_of(v: &serde_json::Value) -> (r: RecordFields)
    ensures
        r@ == element_fields(json_of(*v)),
{
    RecordFields {
        name: member_text(v, "name"),
        id: member_text(v, "id"),
        record_type: member_text(v, "type"),
        content: member_text(v, "content"),
        proxied: member_text(v, "proxied"),
        ttl: member_text(v, "ttl"),
    }
}

/// Reads the records out of the body of the provider's reply to a list request.
///
/// A reply without the success indicator is refused with its laid-out body.
/// Otherwise the result is what `decoded_outcome` gives: the body must be
/// JSON and hold a `result` array whose elements each carry every field; the
/// first element that does not fails the whole reply, and records of another
/// type than "A" are left out.
pub fn parse_dns_record_list(body: &str) -> (r: Result<Vec<DNSRecord>, FetchError>)
    ensures
        !reply_succeeded(body@) ==> r is Err && r->Err_0 is Unsuccessful && r->Err_0->Unsuccessful_0@
            == tab_formatted(body@),
        reply_succeeded(body@) ==> agrees_with(r, decoded_outcome(body@)),
        r is Ok ==> forall|j: int|
            0 <= j < r->Ok_0@.len() ==> (#[trigger] r->Ok_0@[j]).record_type@ == a_type() && r->Ok_0@[j].sync is None,
{
    let formatted = format_json_tab(body);
    if !has_success_flag(formatted.as_str()) {
        return Err(FetchError::Unsuccessful(formatted));
    }
    let json = match parse_json(body) {
        Ok(v) => v,
        Err(_) => return Err(FetchError::MalformedJson),
    };
    let result = match json_member(&json, "result") {
        Some(v) => v,
        None => return Err(FetchError::MissingResult),
    };
    let elements = match json_elements(&result) {
        Some(a) => a,
        None => return Err(FetchError::ResultNotArray),
    };
    let ghost texts = elements_of(json_of(result))->Some_0;
    let mut fields: Vec<RecordFields> = Vec::new();
    let mut i: usize = 0;
    while i < elements.len()
        invariant
            i <= elements@.len(),
            texts.len() == elements@.len(),
            forall|k: int| 0 <= k < elements@.len() ==> json_of(#[trigger] elements@[k]) == texts[k],
            fields@.len() == i,
            forall|k: int| 0 <= k < i ==> (#[trigger] fields@[k])@ == element_fields(texts[k]),
        decreases elements@.len() - i,
    {
        fields.push(fields_of(&elements[i]));
        i = i + 1;
    }
    assert(fields_views(fields@) =~= texts.map_values(|e: Seq<char>| element_fields(e)));
    let r = records_from_fields(&fields);
    proof {
        if r is Ok {
            lemma_list_only_a_records(fields_views(fields@));
            let vs = list_outcome(fields_views(fields@))->Ok_0;
            assert forall|j: int| 0 <= j < r->Ok_0@.len() implies (#[trigger] r->Ok_0@[j]).record_type@ == a_type()
                && r->Ok_0@[j].sync is None by {
                assert(views(r->Ok_0@)[j] == vs[j]);
            }
        }
    }
    r
}

/// A reply whose `result` array holds an element without a `ttl` member fails
/// as a whole: no part of its list is kept.
pub proof fn lemma_reply_missing_ttl_fails(body: Seq<char>, i: int)
    requires
        parsed_json(body) is Some,
        member_of(parsed_json(body)->Some_0, "result"@) is Some,
        elements_of(member_of(parsed_json(body)->Some_0, "result"@)->Some_0) is Some,
        0 <= i < elements_of(member_of(parsed_json(body)->Some_0, "result"@)->Some_0)->Some_0.len(),
        member_of(elements_of(member_of(parsed_json(body)->Some_0, "result"@)->Some_0)->Some_0[i], "ttl"@) is None,
    ensures
        decoded_outcome(body) is Err,
{
    let es = elements_of(member_of(parsed_json(body)->Some_0, "result"@)->Some_0)->Some_0;
    let fs = es.map_values(|e: Seq<char>| element_fields(e));
    assert(fs[i].ttl is None);
    lemma_missing_ttl_fails_list(fs, i);
}

} // verus!
