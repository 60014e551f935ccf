//! The list of saved recordings: new entries go first, and the list is shown
//! newest first by creation time.
use vstd::prelude::*;
use crate::models::HistoryEntry;
use crate::sort::{is_newest_first, newest_first, texts, text_less};

verus! {

/// The creation times of a list of entries.
pub open spec fn creation_times(v: Seq<HistoryEntry>) -> Seq<Seq<char>> {
    v.map_values(|e: HistoryEntry| e.created_at@)
}

/// Puts `entry` at the front of the list.
pub fn add_entry(entries: &mut Vec<HistoryEntry>, entry: HistoryEntry)
    ensures
        final(entries)@ == seq![entry] + old(entries)@,
{
    entries.insert(0, entry);
    assert(entries@ =~= seq![entry] + old(entries)@);
}

fn copy_entry(e: &HistoryEntry) -> (r: HistoryEntry)
    ensures
        r == *e,
{
    HistoryEntry {
        path: e.path.clone(),
        file_name: e.file_name.clone(),
        target_name: e.target_name.clone(),
        created_at: e.created_at.clone(),
        duration_seconds: e.duration_seconds,
        size_bytes: e.size_bytes,
    }
}

/// The entries, latest creation time first; entries created at the same time keep their order.
pub fn newest_history_first(entries: &Vec<HistoryEntry>) -> (r: Vec<HistoryEntry>)
    ensures
        exists|order: Seq<usize>|
            #![trigger is_newest_first(creation_times(entries@), order)]
            is_newest_first(creation_times(entries@), order) && r@.len() == order.len() && forall|
                i: int,
            |
                0 <= i < order.len() ==> #[trigger] r@[i] == entries@[order[i] as int],
{
    let mut keys: Vec<String> = Vec::new();
    let mut j: usize = 0;
    while j < entries.len()
        invariant
            j <= entries@.len(),
            keys@.len() == j,
            forall|t: int| 0 <= t < j ==> #[trigger] keys@[t]@ == entries@[t].created_at@,
        decreases entries@.len() - j,
    {
        keys.push(entries[j].created_at.clone());
        j = j + 1;
    }
    assert(texts(keys@) =~= creation_times(entries@));
    let order = newest_first(&keys);
    let mut r: Vec<HistoryEntry> = Vec::new();
    let mut t: usize = 0;
    while t < order.len()
        invariant
            is_newest_first(creation_times(entries@), order@),
            t <= order@.len(),
            r@.len() == t,
            forall|q: int| 0 <= q < t ==> #[trigger] r@[q] == entries@[order@[q] as int],
        decreases order@.len() - t,
    {
        assert(order@[t as int] < entries@.len());
        r.push(copy_entry(&entries[order[t]]));
        t = t + 1;
    }
    r
}

/// The entries whose file is still there, in order; `present[i]` tells whether
/// the file of entry `i` exists.
pub open spec fn present_entries(entries: Seq<HistoryEntry>, present: Seq<bool>) -> Seq<HistoryEntry>
    decreases entries.len(),
{
    if entries.len() == 0 {
        Seq::empty()
    } else {
        let rest = present_entries(entries.drop_last(), present);
        if present[entries.len() - 1] {
            rest.push(entries.last())
        } else {
            rest
        }
    }
}

/// The history as it is shown: entries whose file is gone are dropped, and
/// the rest are listed latest creation time first.
pub fn listed_history(entries: &Vec<HistoryEntry>, present: &Vec<bool>) -> (r: Vec<HistoryEntry>)
    requires
        present@.len() == entries@.len(),
    ensures
        ({
            let kept = present_entries(entries@, present@);
            exists|order: Seq<usize>|
                #![trigger is_newest_first(creation_times(kept), order)]
                is_newest_first(creation_times(kept), order) && r@.len() == order.len() && forall|
                    i: int,
                |
                    0 <= i < order.len() ==> #[trigger] r@[i] == kept[order[i] as int]
        }),
{
    let mut kept: Vec<HistoryEntry> = Vec::new();
    let mut i: usize = 0;
    while i < entries.len()
        invariant
            present@.len() == entries@.len(),
            i <= entries@.len(),
            kept@ == present_entries(entries@.take(i as int), present@),
        decreases entries@.len() - i,
    {
        proof {
            assert(entries@.take(i as int + 1).drop_last() =~= entries@.take(i as int));
            assert(entries@.take(i as int + 1).last() == entries@[i as int]);
        }
        if present[i] {
            kept.push(copy_entry(&entries[i]));
        }
        i = i + 1;
    }
    assert(entries@.take(entries@.len() as int) =~= entries@);
    newest_history_first(&kept)
}

/// The entries kept are entries of the list, and a present first entry stays first.
proof fn lemma_present_entries(s: Seq<HistoryEntry>, p: Seq<bool>)
    requires
        p.len() >= s.len(),
    ensures
        forall|j: int| 0 <= j < present_entries(s, p).len() ==> exists|i: int| 0 <= i < s.len() && #[trigger] present_entries(s, p)[j] == s[i],
        s.len() > 0 && p[0] ==> present_entries(s, p).len() > 0 && present_entries(s, p)[0] == s[0],
    decreases s.len(),
{
    if s.len() > 0 {
        let rest = s.drop_last();
        lemma_present_entries(rest, p);
        let k = present_entries(s, p);
        let kr = present_entries(rest, p);
        assert forall|j: int| 0 <= j < k.len() implies exists|i: int| 0 <= i < s.len() && #[trigger] k[j] == s[i] by {
            if j < kr.len() {
                assert(k[j] == kr[j]);
                let i = choose|i: int| 0 <= i < rest.len() && kr[j] == rest[i];
                assert(k[j] == s[i]);
            } else {
                assert(k[j] == s[s.len() - 1]);
            }
        }
        if s.len() == 1 && p[0] {
            assert(rest.len() == 0);
            assert(k[0] == s[0]);
        }
    }
}

/// A new entry added at the front whose creation time is not earlier than any
/// other is the first entry shown, as long as its file is there.
pub proof fn law_newest_added_entry_is_shown_first(
    e: HistoryEntry,
    older: Seq<HistoryEntry>,
    present: Seq<bool>,
    order: Seq<usize>,
)
    requires
        present.len() == older.len() + 1,
        present[0],
        forall|i: int| 0 <= i < older.len() ==> !text_less(e.created_at@, (#[trigger] older[i]).created_at@),
        is_newest_first(creation_times(present_entries(seq![e] + older, present)), order),
    ensures
        order.len() > 0,
        present_entries(seq![e] + older, present)[order[0] as int] == e,
{
    let all = seq![e] + older;
    let kept = present_entries(all, present);
    lemma_present_entries(all, present);
    assert(all[0] == e);
    let keys = creation_times(kept);
    crate::sort::lemma_lex_irreflexive(vstd::utf8::encode_utf8(e.created_at@));
    assert forall|j: int| 0 <= j < keys.len() implies !text_less(keys[0], #[trigger] keys[j]) by {
        let i = choose|i: int| 0 <= i < all.len() && kept[j] == all[i];
        if i > 0 {
            assert(all[i] == older[i - 1]);
        }
    }
    crate::sort::lemma_first_of_largest(keys, order);
}

/// `idx` lists, in increasing order, exactly the positions of `entries` whose
/// file is present, and `kept` holds the entries at those positions.
pub open spec fn picks_present(entries: Seq<HistoryEntry>, present: Seq<bool>, kept: Seq<HistoryEntry>, idx: Seq<int>) -> bool {
    &&& idx.len() == kept.len()
    &&& forall|j: int| 0 <= j < idx.len() ==> 0 <= #[trigger] idx[j] < entries.len() && present[idx[j]] && kept[j] == entries[idx[j]]
    &&& forall|j: int, k: int| 0 <= j < k < idx.len() ==> #[trigger] idx[j] < #[trigger] idx[k]
    &&& forall|i: int| 0 <= i < entries.len() && #[trigger] present[i] ==> idx.contains(i)
}

proof fn lemma_present_indices(entries: Seq<HistoryEntry>, present: Seq<bool>) -> (idx: Seq<int>)
    requires
        present.len() >= entries.len(),
    ensures
        picks_present(entries, present, present_entries(entries, present), idx),
    decreases entries.len(),
{
    if entries.len() == 0 {
        Seq::empty()
    } else {
        let n = entries.len() - 1;
        let rest = entries.drop_last();
        let before = lemma_present_indices(rest, present);
        let kept = present_entries(entries, present);
        let kr = present_entries(rest, present);
        let idx = if present[n] { before.push(n) } else { before };
        assert forall|j: int| 0 <= j < idx.len() implies 0 <= #[trigger] idx[j] < entries.len() && present[idx[j]]
            && kept[j] == entries[idx[j]] by {
            if j < before.len() {
                assert(idx[j] == before[j]);
                assert(kept[j] == kr[j]);
                assert(rest[before[j]] == entries[before[j]]);
            }
        }
        assert forall|i: int| 0 <= i < entries.len() && #[trigger] present[i] implies idx.contains(i) by {
            if i < n {
                assert(before.contains(i));
                let j = choose|j: int| 0 <= j < before.len() && before[j] == i;
                assert(idx[j] == i);
            } else {
                assert(idx[idx.len() - 1] == i);
            }
        }
        idx
    }
}

/// The history shown keeps exactly the entries whose file is present, each
/// once and in their stored order, and drops every other.
pub proof fn law_history_shows_only_present_files(entries: Seq<HistoryEntry>, present: Seq<bool>)
    requires
        present.len() == entries.len(),
    ensures
        exists|idx: Seq<int>| #[trigger] picks_present(entries, present, present_entries(entries, present), idx),
{
    let idx = lemma_present_indices(entries, present);
}

} // verus!
