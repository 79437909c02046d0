//! The lines offered when records are chosen for synchronisation.
use vstd::prelude::*;
use crate::record::{views, DNSRecord, RecordView};
use crate::text::{signed_decimal, signed_decimal_text};

verus! {

/// `n` spaces.
pub open spec fn spaces(n: nat) -> Seq<char> {
    Seq::new(n, |i: int| ' ')
}

/// `s` filled with spaces up to `width` characters; longer text is kept whole.
pub open spec fn padded(s: Seq<char>, width: nat) -> Seq<char> {
    if s.len() >= width {
        s
    } else {
        s + spaces((width - s.len()) as nat)
    }
}

/// The length of the longest name among the records, 0 when there are none.
pub open spec fn longest_name(rs: Seq<RecordView>) -> nat
    decreases rs.len(),
{
    if rs.len() == 0 {
        0
    } else if rs.last().name.len() > longest_name(rs.drop_last()) {
        rs.last().name.len()
    } else {
        longest_name(rs.drop_last())
    }
}

/// The width of the name column: three more than the longest name.
pub open spec fn name_width(rs: Seq<RecordView>) -> nat {
    if longest_name(rs) + 3 > usize::MAX {
        usize::MAX as nat
    } else {
        longest_name(rs) + 3
    }
}

/// How a proxy status is shown.
pub open spec fn proxy_label(p: Option<bool>) -> Seq<char> {
    match p {
        Some(true) => "true"@,
        Some(false) => "false"@,
        None => "Unknown"@,
    }
}

/// The line that shows one record, with the name column `width` wide.
pub open spec fn selection_line(r: RecordView, width: nat) -> Seq<char> {
    padded("Name"@, 7) + " "@ + padded(r.name, width) + " "@ + padded("Content"@, 10) + " "@ + padded(r.content, 17)
        + " "@ + padded("Proxy Status"@, 15) + " "@ + padded(proxy_label(r.proxy_status), 8) + " "@ + padded(
        "TTL"@,
        6,
    ) + " "@ + signed_decimal(r.ttl as int)
}

/// `s` filled with spaces up to `width` characters.
fn pad(s: &str, width: usize) -> (r: String)
    ensures
        r@ == padded(s@, width as nat),
{
    let n = s.unicode_len();
    let mut out = String::from_str(s);
    if n >= width {
        return out;
    }
    let mut k: usize = n;
    proof {
        reveal_strlit(" ");
    }
    assert(out@ =~= s@ + spaces(0));
    while k < width
        invariant
            n == s@.len(),
            n <= k <= width,
            out@ == s@ + spaces((k - n) as nat),
        decreases width - k,
    {
        proof {
            reveal_strlit(" ");
        }
        out.append(" ");
        assert(spaces((k + 1 - n) as nat) =~= spaces((k - n) as nat) + " "@);
        assert(out@ =~= s@ + spaces((k + 1 - n) as nat));
        k = k + 1;
    }
    out
}

/// How a proxy status is shown.
fn proxy_text(p: Option<bool>) -> (r: &'static str)
    ensures
        r@ == proxy_label(p),
{
    match p {
        Some(true) => "true",
        Some(false) => "false",
        None => "Unknown",
    }
}

/// The line that shows one record.
fn selection_row(record: &DNSRecord, width: usize) -> (r: String)
    ensures
        r@ == selection_line(record@, width as nat),
{
    let mut line = pad("Name", 7);
    line.append(" ");
    line.append(pad(record.name.as_str(), width).as_str());
    line.append(" ");
    line.append(pad("Content", 10).as_str());
    line.append(" ");
    line.append(pad(record.content.as_str(), 17).as_str());
    line.append(" ");
    line.append(pad("Proxy Status", 15).as_str());
    line.append(" ");
    line.append(pad(proxy_text(record.proxy_status), 8).as_str());
    line.append(" ");
    line.append(pad("TTL", 6).as_str());
    line.append(" ");
    line.append(signed_decimal_text(record.ttl).as_str());
    assert(line@ =~= selection_line(record@, width as nat));
    line
}

/// The lines to choose from, one per record and in order, the ids they stand
/// for, and the initial choice, which selects nothing.
pub fn create_selection_list(records: &Vec<DNSRecord>) -> (r: ((Vec<String>, Vec<String>), Vec<bool>))
    ensures
        r.0.0@.len() == records@.len(),
        r.0.1@.len() == records@.len(),
        r.1@.len() == records@.len(),
        forall|i: int|
            0 <= i < records@.len() ==> (#[trigger] r.0.0@[i])@ == selection_line(
                records@[i]@,
                name_width(views(records@)),
            ) && r.0.1@[i]@ == records@[i].id@ && !r.1@[i],
{
    let mut longest: usize = 0;
    let mut i: usize = 0;
    assert(views(records@).subrange(0, 0) =~= Seq::<RecordView>::empty());
    while i < records.len()
        invariant
            i <= records@.len(),
            longest as nat == longest_name(views(records@).subrange(0, i as int)),
        decreases records@.len() - i,
    {
        let ghost pre = views(records@).subrange(0, i + 1);
        assert(pre.drop_last() =~= views(records@).subrange(0, i as int));
        assert(pre.last() == records@[i as int]@);
        let len = records[i].name.as_str().unicode_len();
        if len > longest {
            longest = len;
        }
        i = i + 1;
    }
    assert(views(records@).subrange(0, records@.len() as int) =~= views(records@));
    let width = longest.saturating_add(3);
    let mut lines: Vec<String> = Vec::new();
    let mut ids: Vec<String> = Vec::new();
    let mut defaults: Vec<bool> = Vec::new();
    let mut j: usize = 0;
    while j < records.len()
        invariant
            j <= records@.len(),
            width as nat == name_width(views(records@)),
            lines@.len() == j,
            ids@.len() == j,
            defaults@.len() == j,
            forall|k: int|
                0 <= k < j ==> (#[trigger] lines@[k])@ == selection_line(records@[k]@, width as nat) && ids@[k]@
                    == records@[k].id@ && !defaults@[k],
        decreases records@.len() - j,
    {
        let ghost before_lines = lines@;
        let ghost before_ids = ids@;
        let ghost before_defaults = defaults@;
        let row = selection_row(&records[j], width);
        let id = records[j].id.clone();
        lines.push(row);
        ids.push(id);
        defaults.push(false);
        assert forall|k: int| 0 <= k < j + 1 implies (#[trigger] lines@[k])@ == selection_line(
            records@[k]@,
            width as nat,
        ) && ids@[k]@ == records@[k].id@ && !defaults@[k] by {
            if k < j {
                assert(lines@[k] == before_lines[k]);
                assert(ids@[k] == before_ids[k]);
                assert(defaults@[k] == before_defaults[k]);
            }
        }
        j = j + 1;
    }
    ((lines, ids), defaults)
}

} // verus!
