use vstd::prelude::*;

use crate::models::{RecordPage, SpeechRecord};
use crate::text::{
    chars_of, lemma_text_le_lt_trans, lemma_text_lt_asym, owned, text_le,
    text_lt, text_precedes,
};

verus! {

// ---------------------------------------------------------------------------
// Order of the history
// ---------------------------------------------------------------------------

/// `a` was created at the same time as `b`, as far as the order of the history can tell.
pub open spec fn same_time(a: SpeechRecord, b: SpeechRecord) -> bool {
    text_le(a.created_at@, b.created_at@) && text_le(b.created_at@, a.created_at@)
}

/// Every record was created no earlier than the records after it.
pub open spec fn newest_first(rs: Seq<SpeechRecord>) -> bool {
    forall|i: int, j: int|
        0 <= i < j < rs.len() ==> text_le(#[trigger] rs[j].created_at@, #[trigger] rs[i].created_at@)
}

/// `out` holds the records of `input` in the order `perm` picks: `out[j] == input[perm[j]]`,
/// each record once.
pub open spec fn picks(out: Seq<SpeechRecord>, input: Seq<SpeechRecord>, perm: Seq<int>) -> bool {
    &&& perm.len() == out.len() == input.len()
    &&& forall|j: int| 0 <= j < perm.len() ==> 0 <= #[trigger] perm[j] < input.len()
    &&& forall|j: int| 0 <= j < perm.len() ==> out[j] == input[#[trigger] perm[j]]
    &&& forall|j1: int, j2: int|
        0 <= j1 < perm.len() && 0 <= j2 < perm.len() && j1 != j2 ==> #[trigger] perm[j1]
            != #[trigger] perm[j2]
}

/// `out` is `input` sorted newest first, records created at the same time keeping their order
/// (a stable sort by `created_at`, descending).
pub open spec fn sorted_newest_first(out: Seq<SpeechRecord>, input: Seq<SpeechRecord>) -> bool {
    exists|perm: Seq<int>|
        {
            &&& picks(out, input, perm)
            &&& newest_first(out)
            &&& forall|j1: int, j2: int|
                0 <= j1 < j2 < out.len() && same_time(#[trigger] out[j1], #[trigger] out[j2])
                    ==> perm[j1] < perm[j2]
        }
}

/// Sorts the history newest first, as `read_records` hands it out.
pub fn read_records(records: Vec<SpeechRecord>) -> (out: Vec<SpeechRecord>)
    ensures
        sorted_newest_first(out@, records@),
{
    let mut out: Vec<SpeechRecord> = Vec::new();
    let mut keys: Vec<Vec<char>> = Vec::new();
    let ghost mut perm: Seq<int> = Seq::empty();
    let mut i: usize = 0;
    while i < records.len()
        invariant
            i <= records.len(),
            keys.len() == out.len(),
            forall|j: int| 0 <= j < keys.len() ==> (#[trigger] keys@[j])@ == out@[j].created_at@,
            perm.len() == out.len() == i,
            forall|j: int| 0 <= j < perm.len() ==> 0 <= #[trigger] perm[j] < i,
            forall|j: int| 0 <= j < perm.len() ==> out@[j] == records@[#[trigger] perm[j]],
            forall|j1: int, j2: int|
                0 <= j1 < perm.len() && 0 <= j2 < perm.len() && j1 != j2 ==> #[trigger] perm[j1]
                    != #[trigger] perm[j2],
            newest_first(out@),
            forall|j1: int, j2: int|
                0 <= j1 < j2 < out.len() && same_time(#[trigger] out@[j1], #[trigger] out@[j2])
                    ==> perm[j1] < perm[j2],
        decreases records.len() - i,
    {
        let r = records[i].clone();
        let k = chars_of(r.created_at.as_str());
        let mut p: usize = 0;
        while p < out.len() && !text_precedes(&keys[p], &k)
            invariant
                p <= out.len(),
                keys.len() == out.len(),
                forall|j: int| 0 <= j < keys.len() ==> (#[trigger] keys@[j])@ == out@[j].created_at@,
                forall|j: int| 0 <= j < p ==> text_le(k@, #[trigger] out@[j].created_at@),
            decreases out.len() - p,
        {
            p = p + 1;
        }
        proof {
            assert forall|j: int| p <= j < out.len() implies text_lt(
                #[trigger] out@[j].created_at@,
                k@,
            ) by {
                assert(text_lt(keys@[p as int]@, k@));
                if j > p {
                    assert(text_le(out@[j].created_at@, out@[p as int].created_at@));
                    lemma_text_le_lt_trans(out@[j].created_at@, out@[p as int].created_at@, k@);
                }
            }
        }
        let ghost old_out = out@;
        let ghost old_keys = keys@;
        let ghost old_perm = perm;
        let ghost ri = records@[i as int];
        out.insert(p, r);
        keys.insert(p, k);
        proof {
            perm = old_perm.insert(p as int, i as int);
            assert(out@ == old_out.insert(p as int, ri));
            assert(keys@ == old_keys.insert(p as int, k));
            assert forall|j: int| 0 <= j < keys.len() implies (#[trigger] keys@[j])@
                == out@[j].created_at@ by {
                if j > p {
                    assert(keys@[j] == old_keys[j - 1]);
                    assert(out@[j] == old_out[j - 1]);
                }
            }
            assert forall|j: int| 0 <= j < perm.len() implies 0 <= #[trigger] perm[j] < i + 1
                && out@[j] == records@[perm[j]] by {
                if j > p {
                    assert(perm[j] == old_perm[j - 1]);
                    assert(out@[j] == old_out[j - 1]);
                } else if j < p {
                    assert(perm[j] == old_perm[j]);
                    assert(out@[j] == old_out[j]);
                }
            }
            assert forall|j1: int, j2: int|
                0 <= j1 < perm.len() && 0 <= j2 < perm.len() && j1 != j2 implies #[trigger] perm[j1]
                != #[trigger] perm[j2] by {
                let o1 = if j1 < p { j1 } else { j1 - 1 };
                let o2 = if j2 < p { j2 } else { j2 - 1 };
                if j1 != p && j2 != p {
                    assert(perm[j1] == old_perm[o1]);
                    assert(perm[j2] == old_perm[o2]);
                } else if j1 == p {
                    assert(perm[j2] == old_perm[o2]);
                } else {
                    assert(perm[j1] == old_perm[o1]);
                }
            }
            assert forall|a: int, b: int| 0 <= a < b < out@.len() implies text_le(
                #[trigger] out@[b].created_at@,
                #[trigger] out@[a].created_at@,
            ) by {
                if a == p {
                    assert(out@[b] == old_out[b - 1]);
                    lemma_text_lt_asym(old_out[b - 1].created_at@, k@);
                } else if b == p {
                    assert(out@[a] == old_out[a]);
                } else {
                    let oa = if a < p { a } else { a - 1 };
                    let ob = if b < p { b } else { b - 1 };
                    assert(out@[a] == old_out[oa]);
                    assert(out@[b] == old_out[ob]);
                }
            }
            assert forall|a: int, b: int|
                0 <= a < b < out@.len() && same_time(#[trigger] out@[a], #[trigger] out@[b])
                    implies perm[a] < perm[b] by {
                if a == p {
                    assert(out@[b] == old_out[b - 1]);
                    lemma_text_lt_asym(old_out[b - 1].created_at@, k@);
                } else if b == p {
                    assert(perm[a] == old_perm[a]);
                } else {
                    let oa = if a < p { a } else { a - 1 };
                    let ob = if b < p { b } else { b - 1 };
                    assert(out@[a] == old_out[oa]);
                    assert(out@[b] == old_out[ob]);
                    assert(perm[a] == old_perm[oa]);
                    assert(perm[b] == old_perm[ob]);
                }
            }
        }
        i = i + 1;
    }
    proof {
        assert(picks(out@, records@, perm));
        assert(newest_first(out@));
    }
    out
}

// ---------------------------------------------------------------------------
// Pages
// ---------------------------------------------------------------------------

/// First position of the page that starts at `offset`.
pub open spec fn page_start(total: int, offset: int) -> int {
    if offset < total {
        offset
    } else {
        total
    }
}

/// Position after the last record of the page of at most `limit` records at `offset`.
pub open spec fn page_end(total: int, offset: int, limit: int) -> int {
    if offset + limit < total {
        offset + limit
    } else {
        total
    }
}

/// The page of `sorted` that skips `offset` records and takes at most `limit`.
pub fn page_of(sorted: Vec<SpeechRecord>, offset: usize, limit: usize) -> (page: RecordPage)
    ensures
        page.records@ == sorted@.subrange(
            page_start(sorted@.len() as int, offset as int),
            page_end(sorted@.len() as int, offset as int, limit as int),
        ),
        page.total == sorted@.len(),
        page.offset == offset,
        page.limit == limit,
        page.has_more == (offset + page.records@.len() < sorted@.len()),
{
    let total = sorted.len();
    let start = if offset < total {
        offset
    } else {
        total
    };
    let end = if limit < total - start {
        start + limit
    } else {
        total
    };
    let mut records: Vec<SpeechRecord> = Vec::new();
    let mut i = start;
    while i < end
        invariant
            start <= i <= end <= total == sorted.len(),
            records@ == sorted@.subrange(start as int, i as int),
        decreases end - i,
    {
        records.push(sorted[i].clone());
        assert(sorted@.subrange(start as int, i + 1) =~= sorted@.subrange(start as int, i as int).push(
            sorted@[i as int],
        ));
        i = i + 1;
    }
    let has_more = offset < total && offset + records.len() < total;
    RecordPage { records, total, offset, limit, has_more }
}

/// The page of the history, newest first, that skips `offset` records and takes at most
/// `limit`.
pub fn read_record_page(records: Vec<SpeechRecord>, offset: usize, limit: usize) -> (page:
    RecordPage)
    ensures
        exists|sorted: Seq<SpeechRecord>|
            {
                &&& sorted_newest_first(sorted, records@)
                &&& page.records@ == sorted.subrange(
                    page_start(sorted.len() as int, offset as int),
                    page_end(sorted.len() as int, offset as int, limit as int),
                )
            },
        page.total == records@.len(),
        page.offset == offset,
        page.limit == limit,
        page.has_more == (offset + page.records@.len() < records@.len()),
{
    let n = records.len();
    let sorted = read_records(records);
    proof {
        let perm = choose|perm: Seq<int>|
            {
                &&& picks(sorted@, records@, perm)
                &&& newest_first(sorted@)
                &&& forall|j1: int, j2: int|
                    0 <= j1 < j2 < sorted@.len() && same_time(
                        #[trigger] sorted@[j1],
                        #[trigger] sorted@[j2],
                    ) ==> perm[j1] < perm[j2]
            };
        assert(sorted@.len() == n);
    }
    page_of(sorted, offset, limit)
}

/// Paging walks the history without gaps or overlaps: the next page starts where a page
/// ends, and two consecutive pages together make the page of both sizes.
pub proof fn law_pages_are_contiguous(total: int, offset: int, first: int, second: int)
    requires
        0 <= offset <= total,
        0 <= first,
        0 <= second,
    ensures
        page_start(total, page_end(total, offset, first)) == page_end(total, offset, first),
        page_end(total, page_end(total, offset, first), second) == page_end(
            total,
            offset,
            first + second,
        ),
        page_start(total, offset) == offset,
{
}

// ---------------------------------------------------------------------------
// Finding, saving and deleting records
// ---------------------------------------------------------------------------

/// Position of the first record with this id, if any.
pub open spec fn index_of_id(rs: Seq<SpeechRecord>, id: Seq<char>) -> Option<int> {
    if exists|i: int| 0 <= i < rs.len() && (#[trigger] rs[i]).id@ == id {
        Some(
            choose|i: int|
                0 <= i < rs.len() && (#[trigger] rs[i]).id@ == id && forall|j: int|
                    0 <= j < i ==> (#[trigger] rs[j]).id@ != id,
        )
    } else {
        None
    }
}

/// The first record with this id, if any.
pub open spec fn lookup(rs: Seq<SpeechRecord>, id: Seq<char>) -> Option<SpeechRecord> {
    match index_of_id(rs, id) {
        Some(i) => Some(rs[i]),
        None => None,
    }
}

/// The history after saving `r`: it replaces the first record with its id, or goes first.
pub open spec fn upserted(rs: Seq<SpeechRecord>, r: SpeechRecord) -> Seq<SpeechRecord> {
    match index_of_id(rs, r.id@) {
        Some(i) => rs.update(i, r),
        None => seq![r] + rs,
    }
}

/// The history after deleting every record with this id.
pub open spec fn without_id(rs: Seq<SpeechRecord>, id: Seq<char>) -> Seq<SpeechRecord> {
    rs.filter(|r: SpeechRecord| r.id@ != id)
}

proof fn lemma_first_index(rs: Seq<SpeechRecord>, id: Seq<char>, i: int)
    requires
        0 <= i < rs.len(),
        rs[i].id@ == id,
        forall|j: int| 0 <= j < i ==> (#[trigger] rs[j]).id@ != id,
    ensures
        index_of_id(rs, id) == Some(i),
{
    let k = choose|k: int|
        0 <= k < rs.len() && (#[trigger] rs[k]).id@ == id && forall|j: int|
            0 <= j < k ==> (#[trigger] rs[j]).id@ != id;
    assert(0 <= k < rs.len() && rs[k].id@ == id && forall|j: int|
        0 <= j < k ==> (#[trigger] rs[j]).id@ != id);
    if k < i {
        assert(rs[k].id@ != id);
    }
    if k > i {
        assert(rs[i].id@ != id);
    }
}

/// Position of the first record with this id.
fn position_of(records: &Vec<SpeechRecord>, id: &String) -> (r: Option<usize>)
    ensures
        match r {
            Some(i) => i < records@.len() && index_of_id(records@, id@) == Some(i as int),
            None => index_of_id(records@, id@) is None,
        },
{
    let mut i: usize = 0;
    while i < records.len()
        invariant
            i <= records.len(),
            forall|j: int| 0 <= j < i ==> (#[trigger] records@[j]).id@ != id@,
        decreases records.len() - i,
    {
        if records[i].id == *id {
            proof {
                lemma_first_index(records@, id@, i as int);
            }
            return Some(i);
        }
        i = i + 1;
    }
    None
}

/// Saves `record` into the history: it replaces the record with the same id, or is put first.
/// Returns the saved record.
pub fn upsert_record(records: &mut Vec<SpeechRecord>, record: SpeechRecord) -> (saved:
    SpeechRecord)
    ensures
        final(records)@ == upserted(old(records)@, record),
        saved == record,
{
    let copy = record.clone();
    match position_of(records, &record.id) {
        Some(i) => {
            records.set(i, record);
        },
        None => {
            records.insert(0, record);
            assert(records@ =~= seq![copy] + old(records)@);
        },
    }
    copy
}

/// The record with this id, or the error the history shows when there is none.
pub fn find_record(records: &Vec<SpeechRecord>, id: &str) -> (r: Result<SpeechRecord, String>)
    ensures
        match lookup(records@, id@) {
            Some(found) => r == Ok::<SpeechRecord, String>(found),
            None => r is Err && r->Err_0@ == "找不到这条记录"@,
        },
{
    let key = owned(id);
    match position_of(records, &key) {
        Some(i) => Ok(records[i].clone()),
        None => Err(owned("找不到这条记录")),
    }
}

/// Deletes every record with this id; the others keep their order.
pub fn delete_record(records: &mut Vec<SpeechRecord>, id: &str)
    ensures
        final(records)@ == without_id(old(records)@, id@),
{
    let key = owned(id);
    let mut kept: Vec<SpeechRecord> = Vec::new();
    let mut i: usize = 0;
    let ghost pred = |r: SpeechRecord| r.id@ != id@;
    while i < records.len()
        invariant
            i <= records.len(),
            key@ == id@,
            pred == (|r: SpeechRecord| r.id@ != id@),
            kept@ == records@.take(i as int).filter(pred),
        decreases records.len() - i,
    {
        assert(records@.take(i + 1).drop_last() =~= records@.take(i as int));
        reveal_with_fuel(Seq::<_>::filter, 1);
        if records[i].id != key {
            kept.push(records[i].clone());
        }
        i = i + 1;
    }
    assert(records@.take(records@.len() as int) =~= records@);
    *records = kept;
}

proof fn lemma_index_of_id(rs: Seq<SpeechRecord>, id: Seq<char>)
    ensures
        match index_of_id(rs, id) {
            Some(i) => 0 <= i < rs.len() && rs[i].id@ == id && forall|j: int|
                0 <= j < i ==> (#[trigger] rs[j]).id@ != id,
            None => forall|j: int| 0 <= j < rs.len() ==> (#[trigger] rs[j]).id@ != id,
        },
{
    if exists|i: int| 0 <= i < rs.len() && (#[trigger] rs[i]).id@ == id {
        let w = choose|i: int| 0 <= i < rs.len() && (#[trigger] rs[i]).id@ == id;
        lemma_first_exists(rs, id, w);
    }
}

proof fn lemma_first_exists(rs: Seq<SpeechRecord>, id: Seq<char>, w: int)
    requires
        0 <= w < rs.len(),
        rs[w].id@ == id,
    ensures
        exists|i: int|
            0 <= i < rs.len() && (#[trigger] rs[i]).id@ == id && forall|j: int|
                0 <= j < i ==> (#[trigger] rs[j]).id@ != id,
    decreases w,
{
    if exists|j: int| 0 <= j < w && (#[trigger] rs[j]).id@ == id {
        let j = choose|j: int| 0 <= j < w && (#[trigger] rs[j]).id@ == id;
        lemma_first_exists(rs, id, j);
    } else {
        assert(forall|j: int| 0 <= j < w ==> (#[trigger] rs[j]).id@ != id);
    }
}

/// A saved record is found again under its id.
pub proof fn law_find_after_upsert(rs: Seq<SpeechRecord>, r: SpeechRecord)
    ensures
        lookup(upserted(rs, r), r.id@) == Some(r),
{
    let out = upserted(rs, r);
    lemma_index_of_id(rs, r.id@);
    match index_of_id(rs, r.id@) {
        Some(i) => {
            assert forall|j: int| 0 <= j < i implies (#[trigger] out[j]).id@ != r.id@ by {
                assert(out[j] == rs[j]);
            }
            lemma_first_index(out, r.id@, i);
        },
        None => {
            lemma_first_index(out, r.id@, 0);
        },
    }
}

/// Saving a record leaves the records with other ids as they were.
pub proof fn law_upsert_keeps_others(rs: Seq<SpeechRecord>, r: SpeechRecord, id: Seq<char>)
    requires
        id != r.id@,
    ensures
        lookup(upserted(rs, r), id) == lookup(rs, id),
{
    let out = upserted(rs, r);
    lemma_index_of_id(rs, r.id@);
    lemma_index_of_id(rs, id);
    lemma_index_of_id(out, id);
    match index_of_id(rs, r.id@) {
        Some(i) => {
            assert(out.len() == rs.len());
            assert forall|j: int| 0 <= j < out.len() implies (#[trigger] out[j]).id@ == id <==> rs[j].id@
                == id by {
                if j != i {
                    assert(out[j] == rs[j]);
                }
            }
            match index_of_id(rs, id) {
                Some(x) => {
                    assert(x != i);
                    assert(out[x] == rs[x]);
                    lemma_first_index(out, id, x);
                },
                None => {},
            }
        },
        None => {
            assert(out.len() == rs.len() + 1);
            assert forall|j: int| 0 < j < out.len() implies (#[trigger] out[j]) == rs[j - 1] by {}
            match index_of_id(rs, id) {
                Some(x) => {
                    assert(out[x + 1] == rs[x]);
                    assert forall|m: int| 0 <= m < x + 1 implies (#[trigger] out[m]).id@ != id by {
                        if m > 0 {
                            assert(out[m] == rs[m - 1]);
                        }
                    }
                    lemma_first_index(out, id, x + 1);
                },
                None => {
                    match index_of_id(out, id) {
                        Some(y) => {
                            assert(y > 0);
                            assert(out[y] == rs[y - 1]);
                        },
                        None => {},
                    }
                },
            }
        },
    }
}

/// A deleted record is not found any more.
pub proof fn law_find_after_delete(rs: Seq<SpeechRecord>, id: Seq<char>)
    ensures
        lookup(without_id(rs, id), id) is None,
{
    let out = without_id(rs, id);
    if index_of_id(out, id) is Some {
        let y = choose|y: int| 0 <= y < out.len() && (#[trigger] out[y]).id@ == id;
        rs.lemma_filter_pred(|r: SpeechRecord| r.id@ != id, y);
    }
}


/// No two records share an id.
pub open spec fn ids_unique(rs: Seq<SpeechRecord>) -> bool {
    forall|i: int, j: int|
        0 <= i < rs.len() && 0 <= j < rs.len() && i != j ==> (#[trigger] rs[i]).id@ != (#[trigger] rs[j]).id@
}

/// Saving a record into a history whose ids are unique keeps them unique, and the history
/// grows by one exactly when the id was new.
pub proof fn law_upsert_keeps_ids_unique(rs: Seq<SpeechRecord>, r: SpeechRecord)
    requires
        ids_unique(rs),
    ensures
        ids_unique(upserted(rs, r)),
        upserted(rs, r).len() == rs.len() + if lookup(rs, r.id@) is Some {
            0int
        } else {
            1int
        },
{
    let out = upserted(rs, r);
    lemma_index_of_id(rs, r.id@);
    match index_of_id(rs, r.id@) {
        Some(w) => {
            assert forall|i: int, j: int|
                0 <= i < out.len() && 0 <= j < out.len() && i != j implies (#[trigger] out[i]).id@
                != (#[trigger] out[j]).id@ by {
                if i == w {
                    assert(out[j] == rs[j]);
                } else if j == w {
                    assert(out[i] == rs[i]);
                } else {
                    assert(out[i] == rs[i]);
                    assert(out[j] == rs[j]);
                }
            }
        },
        None => {
            assert forall|i: int, j: int|
                0 <= i < out.len() && 0 <= j < out.len() && i != j implies (#[trigger] out[i]).id@
                != (#[trigger] out[j]).id@ by {
                if i == 0 {
                    assert(out[j] == rs[j - 1]);
                } else if j == 0 {
                    assert(out[i] == rs[i - 1]);
                } else {
                    assert(out[i] == rs[i - 1]);
                    assert(out[j] == rs[j - 1]);
                }
            }
        },
    }
}

/// Records the main window loads at start.
pub const BOOTSTRAP_PAGE_SIZE: usize = 60;

} // verus!
