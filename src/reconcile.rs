//! Merging a freshly fetched record list with the decisions kept locally.
use vstd::prelude::*;
use crate::config::Config;
use crate::fetch::list_outcome;
use crate::fetch::FieldsView;
use crate::fetch::lemma_list_only_a_records;
use crate::record::{a_type, has_id, unique_ids, views, DNSRecord, RecordView};

verus! {

/// The sync decision that `previous` holds for `id`: that of the last record
/// with this id that has one, or `None`.
pub open spec fn carried_sync(previous: Seq<RecordView>, id: Seq<char>) -> Option<bool>
    decreases previous.len(),
{
    if previous.len() == 0 {
        None
    } else if previous.last().id == id && previous.last().sync is Some {
        previous.last().sync
    } else {
        carried_sync(previous.drop_last(), id)
    }
}

/// The record `r` with the sync decision `s`.
pub open spec fn with_sync(r: RecordView, s: Option<bool>) -> RecordView {
    RecordView { sync: s, ..r }
}

/// The fetched records, in their order, each with the decision that the
/// previous list holds for its id.
pub open spec fn merged(previous: Seq<RecordView>, fetched: Seq<RecordView>) -> Seq<RecordView> {
    fetched.map_values(|f: RecordView| with_sync(f, carried_sync(previous, f.id)))
}

/// Every undecided record decided: enabled when its id was chosen, disabled otherwise.
pub open spec fn resolved(records: Seq<RecordView>, chosen: Seq<Seq<char>>) -> Seq<RecordView> {
    records.map_values(
        |r: RecordView|
            if r.sync is None {
                with_sync(r, Some(chosen.contains(r.id)))
            } else {
                r
            },
    )
}

/// The list that reconciliation keeps: the merged list, with the undecided
/// records resolved when a choice was made.
pub open spec fn reconciled(
    previous: Seq<RecordView>,
    fetched: Seq<RecordView>,
    choice: Option<Seq<Seq<char>>>,
) -> Seq<RecordView> {
    match choice {
        Some(chosen) => resolved(merged(previous, fetched), chosen),
        None => merged(previous, fetched),
    }
}

/// The records of the list that have no decision yet, in order.
pub open spec fn undecided(records: Seq<RecordView>) -> Seq<RecordView> {
    records.filter(|r: RecordView| r.sync is None)
}

pub open spec fn texts(v: Seq<String>) -> Seq<Seq<char>> {
    v.map_values(|s: String| s@)
}

/// The decision that `previous` holds for `id`.
fn carried_decision(previous: &Vec<DNSRecord>, id: &String) -> (r: Option<bool>)
    ensures
        r == carried_sync(views(previous@), id@),
{
    let mut found: Option<bool> = None;
    let mut j: usize = 0;
    assert(views(previous@).subrange(0, 0) =~= Seq::<RecordView>::empty());
    while j < previous.len()
        invariant
            j <= previous@.len(),
            found == carried_sync(views(previous@).subrange(0, j as int), id@),
        decreases previous@.len() - j,
    {
        let ghost pre = views(previous@).subrange(0, j + 1);
        assert(pre.drop_last() =~= views(previous@).subrange(0, j as int));
        assert(pre.last() == previous@[j as int]@);
        if previous[j].id == *id && previous[j].sync.is_some() {
            found = previous[j].sync;
        }
        j = j + 1;
    }
    assert(views(previous@).subrange(0, previous@.len() as int) =~= views(previous@));
    found
}

/// The fetched records, each given the sync decision that the previous list
/// holds for its id; a record whose id the previous list does not decide stays
/// undecided. Records absent from `fetched` are not kept.
pub fn merge_fetched_records(previous: &Vec<DNSRecord>, fetched: Vec<DNSRecord>) -> (r: Vec<DNSRecord>)
    ensures
        views(r@) == merged(views(previous@), views(fetched@)),
{
    let mut out: Vec<DNSRecord> = Vec::new();
    let mut i: usize = 0;
    while i < fetched.len()
        invariant
            i <= fetched@.len(),
            out@.len() == i,
            forall|k: int|
                0 <= k < i ==> (#[trigger] out@[k])@ == with_sync(
                    fetched@[k]@,
                    carried_sync(views(previous@), fetched@[k]@.id),
                ),
        decreases fetched@.len() - i,
    {
        let mut rec = fetched[i].clone();
        rec.sync = carried_decision(previous, &fetched[i].id);
        out.push(rec);
        i = i + 1;
    }
    assert(views(out@) =~= merged(views(previous@), views(fetched@)));
    out
}

/// The records that have no sync decision yet, in order: those to present for a choice.
pub fn records_needing_decision(records: &Vec<DNSRecord>) -> (r: Vec<DNSRecord>)
    ensures
        views(r@) == undecided(views(records@)),
{
    let mut out: Vec<DNSRecord> = Vec::new();
    let mut i: usize = 0;
    assert(views(records@).subrange(0, 0) =~= Seq::<RecordView>::empty());
    assert(views(out@) =~= Seq::<RecordView>::empty());
    proof {
        reveal(Seq::filter);
    }
    while i < records.len()
        invariant
            i <= records@.len(),
            views(out@) == undecided(views(records@).subrange(0, i as int)),
        decreases records@.len() - i,
    {
        let ghost before = out@;
        proof {
            reveal(Seq::filter);
        }
        let ghost pre = views(records@).subrange(0, i + 1);
        assert(pre.drop_last() =~= views(records@).subrange(0, i as int));
        assert(pre.last() == records@[i as int]@);
        if records[i].sync.is_none() {
            out.push(records[i].clone());
            assert(views(out@) =~= views(before).push(records@[i as int]@));
        }
        i = i + 1;
    }
    assert(views(records@).subrange(0, records@.len() as int) =~= views(records@));
    out
}

/// Whether `id` is among `ids`.
fn contains_id(ids: &Vec<String>, id: &String) -> (r: bool)
    ensures
        r == texts(ids@).contains(id@),
{
    let mut i: usize = 0;
    while i < ids.len()
        invariant
            i <= ids@.len(),
            forall|k: int| 0 <= k < i ==> ids@[k]@ != id@,
        decreases ids@.len() - i,
    {
        if ids[i] == *id {
            assert(texts(ids@)[i as int] == id@);
            return true;
        }
        i = i + 1;
    }
    assert(!texts(ids@).contains(id@)) by {
        if texts(ids@).contains(id@) {
            let k = choose|k: int| 0 <= k < texts(ids@).len() && texts(ids@)[k] == id@;
            assert(ids@[k]@ == id@);
        }
    }
    false
}

/// Decides every undecided record: those whose id is among `chosen_ids` are
/// enabled, the others disabled. Records that already had a decision keep it.
pub fn resolve_new_records(records: &mut Vec<DNSRecord>, chosen_ids: &Vec<String>)
    ensures
        views(final(records)@) == resolved(views(old(records)@), texts(chosen_ids@)),
{
    let mut out: Vec<DNSRecord> = Vec::new();
    let mut i: usize = 0;
    while i < records.len()
        invariant
            i <= records@.len(),
            out@.len() == i,
            forall|k: int|
                0 <= k < i ==> (#[trigger] out@[k])@ == (if records@[k].sync is None {
                    with_sync(records@[k]@, Some(texts(chosen_ids@).contains(records@[k].id@)))
                } else {
                    records@[k]@
                }),
        decreases records@.len() - i,
    {
        let mut rec = records[i].clone();
        if rec.sync.is_none() {
            rec.sync = Some(contains_id(chosen_ids, &records[i].id));
        }
        out.push(rec);
        i = i + 1;
    }
    assert(views(out@) =~= resolved(views(records@), texts(chosen_ids@)));
    *records = out;
}

/// Replaces the configuration's record list by the fetched one, reconciled with
/// the decisions that the configuration held: decisions follow ids, records that
/// the provider no longer reports are dropped, and, where a choice was made
/// (`chosen_ids` is given), every undecided record is decided by it. Nothing
/// else in the configuration changes.
pub fn update_dns_list(config: &mut Config, fetched: Vec<DNSRecord>, chosen_ids: Option<&Vec<String>>)
    ensures
        views(final(config).dns_config@) == reconciled(
            views(old(config).dns_config@),
            views(fetched@),
            match chosen_ids {
                Some(c) => Some(texts(c@)),
                None => None,
            },
        ),
        final(config).seconds_to_wait_per_restart == old(config).seconds_to_wait_per_restart,
        final(config).authentication == old(config).authentication,
        final(config).log_config == old(config).log_config,
{
    let mut records = merge_fetched_records(&config.dns_config, fetched);
    match chosen_ids {
        Some(c) => resolve_new_records(&mut records, c),
        None => {},
    }
    config.dns_config = records;
}

/// With unique ids, the decision carried for a record's id is that record's own.
proof fn lemma_carried_is_own(previous: Seq<RecordView>, i: int)
    requires
        unique_ids(previous),
        0 <= i < previous.len(),
        previous[i].sync is Some,
    ensures
        carried_sync(previous, previous[i].id) == previous[i].sync,
    decreases previous.len(),
{
    if i < previous.len() - 1 {
        let p = previous.drop_last();
        assert(p[i] == previous[i]);
        assert(previous.last() == previous[previous.len() - 1]);
        assert(unique_ids(p)) by {
            assert forall|a: int, b: int| 0 <= a < p.len() && 0 <= b < p.len() && a != b implies #[trigger] p[a].id
                != #[trigger] p[b].id by {
                assert(p[a] == previous[a] && p[b] == previous[b]);
            }
        }
        lemma_carried_is_own(p, i);
    }
}

/// Where the previous list decides `id` one way (every record of that id that
/// carries a decision carries `Some(b)`, and at least one does), that
/// decision is carried for `id`.
proof fn lemma_carried_agreed(previous: Seq<RecordView>, id: Seq<char>, b: bool, i: int)
    requires
        0 <= i < previous.len(),
        previous[i].id == id,
        previous[i].sync == Some(b),
        forall|k: int| 0 <= k < previous.len() && (#[trigger] previous[k]).id == id && previous[k].sync is Some
            ==> previous[k].sync == Some(b),
    ensures
        carried_sync(previous, id) == Some(b),
    decreases previous.len(),
{
    let p = previous.drop_last();
    assert(previous.last() == previous[previous.len() - 1]);
    if !(previous.last().id == id && previous.last().sync is Some) {
        assert(i < previous.len() - 1);
        assert(p[i] == previous[i]);
        assert forall|k: int| 0 <= k < p.len() && (#[trigger] p[k]).id == id && p[k].sync is Some implies p[k].sync
            == Some(b) by {
            assert(p[k] == previous[k]);
        }
        lemma_carried_agreed(p, id, b, i);
    }
}

/// A decision survives reconciliation: where the previous list decided the id
/// `id` one way (`Some(b)`, and no record of that id decided otherwise; this
/// holds whenever ids are unique), every record of that id in the reconciled
/// list holds the same decision, whatever its name or content became, and
/// the provider still reporting the id keeps such a record in the list.
pub proof fn lemma_decision_sticks(
    previous: Seq<RecordView>,
    fetched: Seq<RecordView>,
    choice: Option<Seq<Seq<char>>>,
    id: Seq<char>,
    b: bool,
)
    requires
        exists|i: int| 0 <= i < previous.len() && (#[trigger] previous[i]).id == id && previous[i].sync == Some(b),
        forall|k: int| 0 <= k < previous.len() && (#[trigger] previous[k]).id == id && previous[k].sync is Some
            ==> previous[k].sync == Some(b),
    ensures
        forall|j: int|
            0 <= j < reconciled(previous, fetched, choice).len() && (#[trigger] reconciled(previous, fetched, choice)[j]).id
                == id ==> reconciled(previous, fetched, choice)[j].sync == Some(b),
        has_id(fetched, id) ==> has_id(reconciled(previous, fetched, choice), id),
{
    let i = choose|i: int| 0 <= i < previous.len() && (#[trigger] previous[i]).id == id && previous[i].sync == Some(b);
    lemma_carried_agreed(previous, id, b, i);
    lemma_reconciled_follows_fetch(previous, fetched, choice);
    let r = reconciled(previous, fetched, choice);
    assert forall|j: int| 0 <= j < r.len() && (#[trigger] r[j]).id == id implies r[j].sync == Some(b) by {
        assert(fetched[j].id == id);
    }
    if has_id(fetched, id) {
        let j = choose|j: int| 0 <= j < fetched.len() && #[trigger] fetched[j].id == id;
        assert(r[j].id == id);
    }
}

/// With unique ids, a decided record's decision is the one its id is decided by.
pub proof fn lemma_unique_ids_decide_one_way(previous: Seq<RecordView>, i: int)
    requires
        unique_ids(previous),
        0 <= i < previous.len(),
    ensures
        forall|k: int| 0 <= k < previous.len() && (#[trigger] previous[k]).id == previous[i].id && previous[k].sync is Some
            ==> previous[k].sync == previous[i].sync,
{
}

/// Reconciliation keeps the fetched records in order: same length, same ids,
/// and each record's other fields as fetched; only decisions change.
pub proof fn lemma_reconciled_follows_fetch(
    previous: Seq<RecordView>,
    fetched: Seq<RecordView>,
    choice: Option<Seq<Seq<char>>>,
)
    ensures
        reconciled(previous, fetched, choice).len() == fetched.len(),
        forall|j: int|
            0 <= j < fetched.len() ==> #[trigger] reconciled(previous, fetched, choice)[j] == with_sync(
                fetched[j],
                reconciled(previous, fetched, choice)[j].sync,
            ),
{
}

/// A record whose id the provider no longer reports is not kept.
pub proof fn lemma_absent_id_pruned(
    previous: Seq<RecordView>,
    fetched: Seq<RecordView>,
    choice: Option<Seq<Seq<char>>>,
    id: Seq<char>,
)
    requires
        !has_id(fetched, id),
    ensures
        !has_id(reconciled(previous, fetched, choice), id),
{
    lemma_reconciled_follows_fetch(previous, fetched, choice);
    let r = reconciled(previous, fetched, choice);
    if has_id(r, id) {
        let k = choose|k: int| 0 <= k < r.len() && #[trigger] r[k].id == id;
        assert(fetched[k].id == id);
    }
}

/// Records of another type than "A" in the provider's reply never reach the
/// reconciled list: all its records are of type "A".
pub proof fn lemma_reconciled_only_a(
    previous: Seq<RecordView>,
    elements: Seq<FieldsView>,
    choice: Option<Seq<Seq<char>>>,
)
    requires
        list_outcome(elements) is Ok,
    ensures
        forall|j: int|
            0 <= j < reconciled(previous, list_outcome(elements)->Ok_0, choice).len()
                ==> (#[trigger] reconciled(previous, list_outcome(elements)->Ok_0, choice)[j]).record_type == a_type(),
{
    lemma_list_only_a_records(elements);
    lemma_reconciled_follows_fetch(previous, list_outcome(elements)->Ok_0, choice);
}

/// After a choice was made, every record of the reconciled list is decided.
pub proof fn lemma_choice_decides_all(
    previous: Seq<RecordView>,
    fetched: Seq<RecordView>,
    chosen: Seq<Seq<char>>,
)
    ensures
        forall|j: int|
            0 <= j < reconciled(previous, fetched, Some(chosen)).len() ==> (#[trigger] reconciled(
                previous,
                fetched,
                Some(chosen),
            )[j]).sync is Some,
{
}

/// Reloading the kept list and reconciling it with the same fetched records
/// changes nothing: every id keeps the decision, or the absence of one, that
/// was kept for it.
pub proof fn lemma_reload_round_trip(
    previous: Seq<RecordView>,
    fetched: Seq<RecordView>,
    choice: Option<Seq<Seq<char>>>,
)
    requires
        unique_ids(fetched),
    ensures
        reconciled(reconciled(previous, fetched, choice), fetched, None) == reconciled(previous, fetched, choice),
{
    let kept = reconciled(previous, fetched, choice);
    lemma_reconciled_follows_fetch(previous, fetched, choice);
    assert(unique_ids(kept)) by {
        assert forall|a: int, b: int| 0 <= a < kept.len() && 0 <= b < kept.len() && a != b implies #[trigger] kept[a].id
            != #[trigger] kept[b].id by {
            assert(kept[a].id == fetched[a].id && kept[b].id == fetched[b].id);
        }
    }
    assert forall|j: int| 0 <= j < fetched.len() implies carried_sync(kept, #[trigger] fetched[j].id)
        == kept[j].sync by {
        assert(kept[j].id == fetched[j].id);
        if kept[j].sync is Some {
            lemma_carried_is_own(kept, j);
        } else {
            lemma_carried_none(kept, j);
        }
    }
    assert(merged(kept, fetched) =~= kept);
}

/// With unique ids, an undecided record's id has no decision carried for it.
proof fn lemma_carried_none(records: Seq<RecordView>, i: int)
    requires
        unique_ids(records),
        0 <= i < records.len(),
        records[i].sync is None,
    ensures
        carried_sync(records, records[i].id) is None,
    decreases records.len(),
{
    let p = records.drop_last();
    assert(unique_ids(p)) by {
        assert forall|a: int, b: int| 0 <= a < p.len() && 0 <= b < p.len() && a != b implies #[trigger] p[a].id
            != #[trigger] p[b].id by {
            assert(p[a] == records[a] && p[b] == records[b]);
        }
    }
    if i < records.len() - 1 {
        assert(p[i] == records[i]);
        assert(records.last() == records[records.len() - 1]);
        lemma_carried_none(p, i);
    } else {
        lemma_carried_absent(p, records[i].id);
    }
}

/// No record of the list has `id`: nothing is carried for it.
proof fn lemma_carried_absent(records: Seq<RecordView>, id: Seq<char>)
    requires
        forall|k: int| 0 <= k < records.len() ==> (#[trigger] records[k]).id != id,
    ensures
        carried_sync(records, id) is None,
    decreases records.len(),
{
    if records.len() > 0 {
        let p = records.drop_last();
        assert forall|k: int| 0 <= k < p.len() implies (#[trigger] p[k]).id != id by {
            assert(p[k] == records[k]);
        }
        assert(records.last() == records[records.len() - 1]);
        lemma_carried_absent(p, id);
    }
}

} // verus!
