//! A table of records grouped by owner name (compared up to ASCII case) and
//! record type, in the order in which they were added.
use vstd::prelude::*;
use crate::dns::{DnsRecord, DnsRecordView, records_view, copy_records};
use crate::names::{ascii_lower, lower_chars};

verus! {

/// Whether a record is owned by `name` (up to ASCII case) and has type `t`.
pub open spec fn has_key(r: DnsRecordView, name: Seq<char>, t: u16) -> bool {
    ascii_lower(r.name) == ascii_lower(name) && r.record_type() == t
}

/// The records of `all` that are owned by `name` and have type `t`, in order.
pub open spec fn matching(all: Seq<DnsRecordView>, name: Seq<char>, t: u16) -> Seq<DnsRecordView> {
    all.filter(key_pred(ascii_lower(name), t))
}

/// Adding a record to a table changes only the answer for the record's own
/// name and type, and extends that answer by the record: a lookup after an
/// insert gives what it gave before, plus the new record when it matches.
pub proof fn lemma_answer_after_insert(all: Seq<DnsRecordView>, r: DnsRecordView, name: Seq<char>, t: u16)
    ensures
        has_key(r, name, t) ==> table_answer(all.push(r), name, t) == Some(matching(all, name, t).push(r)),
        !has_key(r, name, t) ==> table_answer(all.push(r), name, t) == table_answer(all, name, t),
{
    lemma_filter_push(all, r, key_pred(ascii_lower(name), t));
}

/// The predicate "owned by a name whose lower-cased text is `key`, with type `t`".
pub open spec fn key_pred(key: Seq<char>, t: u16) -> spec_fn(DnsRecordView) -> bool {
    |r: DnsRecordView| ascii_lower(r.name) == key && r.record_type() == t
}

/// The key of a record in a table: its lower-cased owner name and its type.
pub open spec fn record_key(r: DnsRecordView) -> (Seq<char>, u16) {
    (ascii_lower(r.name), r.record_type())
}

/// The distinct keys of the records `all`.
pub open spec fn table_keys(all: Seq<DnsRecordView>) -> Set<(Seq<char>, u16)> {
    all.map_values(|r: DnsRecordView| record_key(r)).to_set()
}

/// The answer of a table holding `all` for (`name`, `t`): the matching records,
/// when there is at least one.
pub open spec fn table_answer(all: Seq<DnsRecordView>, name: Seq<char>, t: u16) -> Option<Seq<DnsRecordView>> {
    if matching(all, name, t).len() > 0 {
        Some(matching(all, name, t))
    } else {
        None
    }
}

/// The records under one key.
pub struct TableEntry {
    /// The lower-cased text of the owner name.
    pub key: Vec<char>,
    /// The record type.
    pub record_type: u16,
    /// The records under this key, in the order in which they were added.
    pub records: Vec<DnsRecord>,
}

/// Records grouped by (owner name up to ASCII case, record type).
pub struct RecordTable {
    entries: Vec<TableEntry>,
    contents: Ghost<Seq<DnsRecordView>>,
}

impl View for RecordTable {
    type V = Seq<DnsRecordView>;

    /// Every record added, in order.
    closed spec fn view(&self) -> Seq<DnsRecordView> {
        self.contents@
    }
}

fn chars_equal(a: &Vec<char>, b: &Vec<char>) -> (r: bool)
    ensures
        r == (a@ == b@),
{
    if a.len() != b.len() {
        return false;
    }
    let mut i: usize = 0;
    while i < a.len()
        invariant
            i <= a.len(),
            a.len() == b.len(),
            forall|j: int| 0 <= j < i ==> a@[j] == b@[j],
        decreases a.len() - i,
    {
        if a[i] != b[i] {
            return false;
        }
        i = i + 1;
    }
    assert(a@ =~= b@);
    true
}

proof fn lemma_filter_push(s: Seq<DnsRecordView>, x: DnsRecordView, p: spec_fn(DnsRecordView) -> bool)
    ensures
        s.push(x).filter(p) == (if p(x) { s.filter(p).push(x) } else { s.filter(p) }),
{
    reveal_with_fuel(Seq::filter, 1);
    assert(s.push(x).drop_last() =~= s);
}

impl RecordTable {
    /// Entry `i` holds exactly the records of its key, and at least one.
    pub closed spec fn entry_ok(&self, i: int) -> bool {
        &&& records_view(self.entries@[i].records@)
            == self.contents@.filter(key_pred(self.entries@[i].key@, self.entries@[i].record_type))
        &&& self.entries@[i].records@.len() > 0
    }

    /// No key occurs in two entries.
    pub closed spec fn keys_distinct(&self) -> bool {
        forall|i: int, j: int|
            0 <= i < j < self.entries@.len() ==> !(#[trigger] self.entries@[i].key@
                == #[trigger] self.entries@[j].key@ && self.entries@[i].record_type
                == self.entries@[j].record_type)
    }

    /// Some entry's key is the key of record `r`.
    pub closed spec fn covered(&self, r: DnsRecordView) -> bool {
        exists|i: int| 0 <= i < self.entries@.len() && #[trigger] key_pred(self.entries@[i].key@, self.entries@[i].record_type)(r)
    }

    /// The table's invariant: each entry holds exactly the records of its key,
    /// no key occurs twice, and every record lies under some entry.
    pub closed spec fn wf(&self) -> bool {
        &&& forall|i: int| 0 <= i < self.entries@.len() ==> #[trigger] self.entry_ok(i)
        &&& self.keys_distinct()
        &&& forall|k: int| 0 <= k < self.contents@.len() ==> #[trigger] self.covered(self.contents@[k])
    }

    /// An empty table.
    pub fn new() -> (r: RecordTable)
        ensures
            r.wf(),
            r@ == Seq::<DnsRecordView>::empty(),
    {
        RecordTable { entries: Vec::new(), contents: Ghost(Seq::empty()) }
    }

    /// The number of distinct keys: of the (lower-cased owner name, type)
    /// pairs of the records added.
    pub fn len(&self) -> (r: usize)
        requires
            self.wf(),
        ensures
            r == table_keys(self@).len(),
    {
        proof {
            self.lemma_keys_count();
        }
        self.entries.len()
    }

    /// The entries' keys are the keys of the records added, each once.
    proof fn lemma_keys_count(&self)
        requires
            self.wf(),
        ensures
            self.entries@.len() == table_keys(self@).len(),
    {
        broadcast use vstd::seq_lib::group_filter_ensures;
        let ks = self.entries@.map_values(|e: TableEntry| (e.key@, e.record_type));
        let all = self.contents@;
        assert(ks.no_duplicates()) by {
            assert forall|i: int, j: int| 0 <= i < ks.len() && 0 <= j < ks.len() && i != j implies ks[i] != ks[j] by {
                if i < j {
                    assert(!(self.entries@[i].key@ == self.entries@[j].key@
                        && self.entries@[i].record_type == self.entries@[j].record_type));
                } else {
                    assert(!(self.entries@[j].key@ == self.entries@[i].key@
                        && self.entries@[j].record_type == self.entries@[i].record_type));
                }
            }
        }
        ks.unique_seq_to_set();
        assert forall|k: (Seq<char>, u16)| ks.to_set().contains(k) implies table_keys(all).contains(k) by {
            let i = choose|i: int| 0 <= i < ks.len() && #[trigger] ks[i] == k;
            assert(self.entry_ok(i));
            let p = key_pred(self.entries@[i].key@, self.entries@[i].record_type);
            let f = all.filter(p);
            assert(records_view(self.entries@[i].records@).len() > 0);
            assert(f.len() > 0);
            assert(p(f[0]));
            assert(f.contains(f[0]));
            all.lemma_filter_contains_rev(p, f[0]);
            let j = choose|j: int| 0 <= j < all.len() && #[trigger] all[j] == f[0];
            assert(all.map_values(|r: DnsRecordView| record_key(r))[j] == k);
        }
        assert forall|k: (Seq<char>, u16)| table_keys(all).contains(k) implies ks.to_set().contains(k) by {
            let m = all.map_values(|r: DnsRecordView| record_key(r));
            let j = choose|j: int| 0 <= j < m.len() && #[trigger] m[j] == k;
            assert(self.covered(all[j]));
            let i = choose|i: int| 0 <= i < self.entries@.len()
                && #[trigger] key_pred(self.entries@[i].key@, self.entries@[i].record_type)(all[j]);
            assert(ks[i] == k);
        }
        assert(ks.to_set() =~= table_keys(all));
    }

    /// The position of the entry with this key, or the number of entries when there is none.
    fn find(&self, key: &Vec<char>, t: u16) -> (r: usize)
        ensures
            r <= self.entries@.len(),
            r < self.entries@.len() ==> self.entries@[r as int].key@ == key@ && self.entries@[r as int].record_type == t,
            r == self.entries@.len() ==> forall|j: int| 0 <= j < self.entries@.len() ==> !(#[trigger] self.entries@[j].key@ == key@ && self.entries@[j].record_type == t),
    {
        let mut i: usize = 0;
        while i < self.entries.len()
            invariant
                i <= self.entries.len(),
                forall|j: int| 0 <= j < i ==> !(#[trigger] self.entries@[j].key@ == key@ && self.entries@[j].record_type == t),
            decreases self.entries.len() - i,
        {
            if self.entries[i].record_type == t && chars_equal(&self.entries[i].key, key) {
                return i;
            }
            i = i + 1;
        }
        i
    }

    /// Adds a record under its own owner name and type.
    pub fn insert(&mut self, record: DnsRecord)
        requires
            old(self).wf(),
        ensures
            final(self).wf(),
            final(self)@ == old(self)@.push(record@),
    {
        let key = lower_chars(&record.name);
        let t = record.record_type();
        let ghost rv = record@;
        let ghost old_contents = self.contents@;
        let ghost new_contents = old_contents.push(rv);
        let ghost old_entries = self.entries@;
        let ghost old_self = *self;
        assert(key_pred(key@, t)(rv));
        let i = self.find(&key, t);
        if i < self.entries.len() {
            let mut entry = self.entries.remove(i);
            entry.records.push(record);
            let ghost e2 = entry;
            self.entries.insert(i, entry);
            assert(self.entries@ =~= old_entries.update(i as int, e2));
            self.contents = Ghost(new_contents);
            proof {
                assert forall|j: int| 0 <= j < self.entries@.len() implies #[trigger] self.entry_ok(j) by {
                    assert(old_self.entry_ok(j));
                    lemma_filter_push(old_contents, rv, key_pred(old_entries[j].key@, old_entries[j].record_type));
                    if j == i {
                        assert(records_view(self.entries@[j].records@) =~= records_view(old_entries[j].records@).push(rv));
                    }
                }
                assert(self.keys_distinct()) by {
                    assert forall|j: int, l: int| 0 <= j < l < self.entries@.len() implies
                        !(#[trigger] self.entries@[j].key@ == #[trigger] self.entries@[l].key@
                            && self.entries@[j].record_type == self.entries@[l].record_type) by {
                        assert(old_self.keys_distinct());
                        assert(!(old_entries[j].key@ == old_entries[l].key@ && old_entries[j].record_type == old_entries[l].record_type));
                    }
                }
                assert forall|k: int| 0 <= k < self.contents@.len() implies #[trigger] self.covered(self.contents@[k]) by {
                    if k == old_contents.len() {
                        assert(key_pred(self.entries@[i as int].key@, self.entries@[i as int].record_type)(self.contents@[k]));
                    } else {
                        assert(old_self.covered(old_contents[k]));
                        let e = choose|e: int| 0 <= e < old_entries.len() && #[trigger] key_pred(old_entries[e].key@, old_entries[e].record_type)(old_contents[k]);
                        assert(key_pred(self.entries@[e].key@, self.entries@[e].record_type)(self.contents@[k]));
                    }
                }
            }
        } else {
            let mut records: Vec<DnsRecord> = Vec::new();
            records.push(record);
            let entry = TableEntry { key, record_type: t, records };
            self.entries.push(entry);
            self.contents = Ghost(new_contents);
            proof {
                let n = old_entries.len() as int;
                assert forall|j: int| 0 <= j < self.entries@.len() implies #[trigger] self.entry_ok(j) by {
                    if j == n {
                        lemma_filter_push(old_contents, rv, key_pred(key@, t));
                        // no earlier record has this key
                        assert(old_contents.filter(key_pred(key@, t)) =~= Seq::<DnsRecordView>::empty()) by {
                            let f = old_contents.filter(key_pred(key@, t));
                            if f.len() > 0 {
                                old_contents.lemma_filter_pred(key_pred(key@, t), 0);
                                old_contents.lemma_filter_contains_rev(key_pred(key@, t), f[0]);
                                let k = choose|k: int| 0 <= k < old_contents.len() && old_contents[k] == f[0];
                                assert(old_self.covered(old_contents[k]));
                                let e = choose|e: int| 0 <= e < old_entries.len() && #[trigger] key_pred(old_entries[e].key@, old_entries[e].record_type)(old_contents[k]);
                                assert(old_entries[e].key@ == key@);
                                assert(false);
                            }
                        }
                        assert(records_view(self.entries@[j].records@) =~= seq![rv]);
                        assert(seq![rv] =~= Seq::<DnsRecordView>::empty().push(rv));
                    } else {
                        assert(old_self.entry_ok(j));
                        lemma_filter_push(old_contents, rv, key_pred(old_entries[j].key@, old_entries[j].record_type));
                        assert(self.entries@[j] == old_entries[j]);
                    }
                }
                assert(self.keys_distinct()) by {
                    assert forall|j: int, l: int| 0 <= j < l < self.entries@.len() implies
                        !(#[trigger] self.entries@[j].key@ == #[trigger] self.entries@[l].key@
                            && self.entries@[j].record_type == self.entries@[l].record_type) by {
                        assert(old_self.keys_distinct());
                        if l < n {
                            assert(!(old_entries[j].key@ == old_entries[l].key@ && old_entries[j].record_type == old_entries[l].record_type));
                        } else {
                            assert(!(old_entries[j].key@ == key@ && old_entries[j].record_type == t));
                        }
                    }
                }
                assert forall|k: int| 0 <= k < self.contents@.len() implies #[trigger] self.covered(self.contents@[k]) by {
                    if k == old_contents.len() {
                        assert(key_pred(self.entries@[n].key@, self.entries@[n].record_type)(self.contents@[k]));
                    } else {
                        assert(old_self.covered(old_contents[k]));
                        let e = choose|e: int| 0 <= e < old_entries.len() && #[trigger] key_pred(old_entries[e].key@, old_entries[e].record_type)(old_contents[k]);
                        assert(self.entries@[e] == old_entries[e]);
                        assert(key_pred(self.entries@[e].key@, self.entries@[e].record_type)(self.contents@[k]));
                    }
                }
            }
        }
    }

    /// The records owned by `name` (up to ASCII case) with type `t`, in the
    /// order in which they were added; None when there is none.
    pub fn get(&self, name: &str, t: u16) -> (r: Option<Vec<DnsRecord>>)
        requires
            self.wf(),
        ensures
            match r {
                Some(v) => table_answer(self@, name@, t) == Some(records_view(v@)),
                None => table_answer(self@, name@, t) is None,
            },
    {
        let key = lower_chars(name);
        let i = self.find(&key, t);
        if i < self.entries.len() {
            let v = copy_records(&self.entries[i].records);
            assert(self.entry_ok(i as int));
            return Some(v);
        }
        proof {
            let f = matching(self@, name@, t);
            if f.len() > 0 {
                self@.lemma_filter_pred(key_pred(key@, t), 0);
                self@.lemma_filter_contains_rev(key_pred(key@, t), f[0]);
                let k = choose|k: int| 0 <= k < self@.len() && self@[k] == f[0];
                assert(self.covered(self@[k]));
                let e = choose|e: int| 0 <= e < self.entries@.len() && #[trigger] key_pred(self.entries@[e].key@, self.entries@[e].record_type)(self@[k]);
                assert(self.entries@[e].key@ == key@);
                assert(false);
            }
        }
        None
    }

}

} // verus!
