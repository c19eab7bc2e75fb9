//! The tracked state behind the repositories: series statuses, episode
//! records and the two configuration values, with the keyed-uniqueness
//! invariants the engine relies on.
//!
//! A status is keyed by the series id; a record is keyed by
//! `(anime_id, info_hash)` and immutable once written — an insert under an
//! existing key leaves the existing record standing.

use vstd::prelude::*;
use crate::model::{
    AnimeInfo, AnimeInfoV, AnimeRssRecord, AnimeRssRecordV, AnimeStatus, AnimeStatusV, QbitConfig,
    QbitConfigV,
};
use crate::strutil::eq_str;

verus! {

/// The records admitted for one series.
pub struct AnimeRecords {
    pub anime_id: i64,
    pub records: Vec<AnimeRssRecord>,
}

impl View for AnimeRecords {
    type V = (int, Seq<AnimeRssRecordV>);

    open spec fn view(&self) -> (int, Seq<AnimeRssRecordV>) {
        (self.anime_id as int, self.records.deep_view())
    }
}

impl DeepView for AnimeRecords {
    type V = (int, Seq<AnimeRssRecordV>);

    open spec fn deep_view(&self) -> (int, Seq<AnimeRssRecordV>) {
        self.view()
    }
}

/// Abstract value of a [`Store`].
pub struct StoreV {
    pub statuses: Seq<AnimeStatusV>,
    pub records: Seq<(int, Seq<AnimeRssRecordV>)>,
    pub download_path: Option<Seq<char>>,
    pub qbit: Option<QbitConfigV>,
}

/// Index of the first status with the given id, scanning from `from`.
pub open spec fn status_idx(ss: Seq<AnimeStatusV>, id: int, from: int) -> Option<int>
    decreases ss.len() - from,
{
    if from < 0 || from >= ss.len() {
        None
    } else if ss[from].anime_info.id == id {
        Some(from)
    } else {
        status_idx(ss, id, from + 1)
    }
}

/// Index of the first record list with the given id, scanning from `from`.
pub open spec fn rec_idx(rs: Seq<(int, Seq<AnimeRssRecordV>)>, id: int, from: int) -> Option<int>
    decreases rs.len() - from,
{
    if from < 0 || from >= rs.len() {
        None
    } else if rs[from].0 == id {
        Some(from)
    } else {
        rec_idx(rs, id, from + 1)
    }
}

/// Index of the first record with the given info hash, scanning from
/// `from`.
pub open spec fn hash_idx(l: Seq<AnimeRssRecordV>, hash: Seq<char>, from: int) -> Option<int>
    decreases l.len() - from,
{
    if from < 0 || from >= l.len() {
        None
    } else if l[from].info_hash == hash {
        Some(from)
    } else {
        hash_idx(l, hash, from + 1)
    }
}

/// What a found status index means.
pub proof fn lemma_status_idx(ss: Seq<AnimeStatusV>, id: int, from: int)
    requires
        0 <= from <= ss.len(),
    ensures
        match status_idx(ss, id, from) {
            Some(i) => from <= i < ss.len() && ss[i].anime_info.id == id && forall|j: int|
                from <= j < i ==> ss[j].anime_info.id != id,
            None => forall|j: int| from <= j < ss.len() ==> ss[j].anime_info.id != id,
        },
    decreases ss.len() - from,
{
    if from < ss.len() && ss[from].anime_info.id != id {
        lemma_status_idx(ss, id, from + 1);
    }
}

/// What a found record-list index means.
pub proof fn lemma_rec_idx(rs: Seq<(int, Seq<AnimeRssRecordV>)>, id: int, from: int)
    requires
        0 <= from <= rs.len(),
    ensures
        match rec_idx(rs, id, from) {
            Some(i) => from <= i < rs.len() && rs[i].0 == id && forall|j: int|
                from <= j < i ==> rs[j].0 != id,
            None => forall|j: int| from <= j < rs.len() ==> rs[j].0 != id,
        },
    decreases rs.len() - from,
{
    if from < rs.len() && rs[from].0 != id {
        lemma_rec_idx(rs, id, from + 1);
    }
}

/// What a found record index means.
pub proof fn lemma_hash_idx(l: Seq<AnimeRssRecordV>, hash: Seq<char>, from: int)
    requires
        0 <= from <= l.len(),
    ensures
        match hash_idx(l, hash, from) {
            Some(i) => from <= i < l.len() && l[i].info_hash == hash && forall|j: int|
                from <= j < i ==> l[j].info_hash != hash,
            None => forall|j: int| from <= j < l.len() ==> l[j].info_hash != hash,
        },
    decreases l.len() - from,
{
    if from < l.len() && l[from].info_hash != hash {
        lemma_hash_idx(l, hash, from + 1);
    }
}

/// A slot that holds the id first is what the scan returns.
pub proof fn lemma_rec_idx_first(rs: Seq<(int, Seq<AnimeRssRecordV>)>, id: int, i: int)
    requires
        0 <= i < rs.len(),
        rs[i].0 == id,
        forall|j: int| 0 <= j < i ==> rs[j].0 != id,
    ensures
        rec_idx(rs, id, 0) == Some(i),
{
    lemma_rec_idx_first_from(rs, id, i, 0);
}

proof fn lemma_rec_idx_first_from(rs: Seq<(int, Seq<AnimeRssRecordV>)>, id: int, i: int, from: int)
    requires
        0 <= from <= i < rs.len(),
        rs[i].0 == id,
        forall|j: int| from <= j < i ==> rs[j].0 != id,
    ensures
        rec_idx(rs, id, from) == Some(i),
    decreases i - from,
{
    if from < i {
        lemma_rec_idx_first_from(rs, id, i, from + 1);
    }
}

/// A slot that holds the status id first is what the scan returns.
pub proof fn lemma_status_idx_first(ss: Seq<AnimeStatusV>, id: int, i: int)
    requires
        0 <= i < ss.len(),
        ss[i].anime_info.id == id,
        forall|j: int| 0 <= j < i ==> ss[j].anime_info.id != id,
    ensures
        status_idx(ss, id, 0) == Some(i),
{
    lemma_status_idx_first_from(ss, id, i, 0);
}

proof fn lemma_status_idx_first_from(ss: Seq<AnimeStatusV>, id: int, i: int, from: int)
    requires
        0 <= from <= i < ss.len(),
        ss[i].anime_info.id == id,
        forall|j: int| from <= j < i ==> ss[j].anime_info.id != id,
    ensures
        status_idx(ss, id, from) == Some(i),
    decreases i - from,
{
    if from < i {
        lemma_status_idx_first_from(ss, id, i, from + 1);
    }
}

/// At most one status per id.
pub open spec fn statuses_wf(ss: Seq<AnimeStatusV>) -> bool {
    forall|i: int, j: int|
        0 <= i < j < ss.len() ==> (#[trigger] ss[i]).anime_info.id != (
        #[trigger] ss[j]).anime_info.id
}

/// At most one record list per id, and inside a list at most one record
/// per info hash.
pub open spec fn records_wf(rs: Seq<(int, Seq<AnimeRssRecordV>)>) -> bool {
    &&& forall|i: int, j: int|
        0 <= i < j < rs.len() ==> (#[trigger] rs[i]).0 != (#[trigger] rs[j]).0
    &&& forall|i: int, a: int, b: int|
        #![trigger rs[i].1[a], rs[i].1[b]]
        0 <= i < rs.len() && 0 <= a < b < rs[i].1.len() ==> rs[i].1[a].info_hash != rs[
        i
    ].1[b].info_hash
}

impl StoreV {
    /// Keyed uniqueness: at most one status per id, at most one record
    /// list per id, and inside a list at most one record per info hash.
    pub open spec fn wf(self) -> bool {
        statuses_wf(self.statuses) && records_wf(self.records)
    }

    /// The status stored for a series.
    pub open spec fn find_status(self, id: int) -> Option<AnimeStatusV> {
        match status_idx(self.statuses, id, 0) {
            Some(i) => Some(self.statuses[i]),
            None => None,
        }
    }

    /// The record list stored for a series.
    pub open spec fn records_of(self, id: int) -> Option<Seq<AnimeRssRecordV>> {
        match rec_idx(self.records, id, 0) {
            Some(i) => Some(self.records[i].1),
            None => None,
        }
    }

    /// Whether a record with this info hash is stored for the series.
    pub open spec fn has_record(self, id: int, hash: Seq<char>) -> bool {
        match self.records_of(id) {
            Some(l) => hash_idx(l, hash, 0) is Some,
            None => false,
        }
    }
}

/// A status written over the stored sequence: an existing entry of the
/// same id is replaced, a new id is appended.
pub open spec fn spec_upsert_status(ss: Seq<AnimeStatusV>, sv: AnimeStatusV) -> Seq<AnimeStatusV> {
    match status_idx(ss, sv.anime_info.id, 0) {
        Some(i) => ss.update(i, sv),
        None => ss.push(sv),
    }
}

/// The tracking state a status gets on its first appearance in the
/// calendar: watching, no rule yet, no progress, not locked, not searched.
pub open spec fn spec_default_status(info: AnimeInfoV) -> AnimeStatusV {
    AnimeStatusV {
        status: true,
        rule_name: Seq::empty(),
        anime_info: info,
        is_search: false,
        is_lock: false,
        progress: 0,
    }
}

/// One calendar snapshot folded into the statuses: a locked status is
/// left alone, an unlocked one gets only its `anime_info` replaced, and an
/// unknown id is inserted with the default tracking state.
pub open spec fn spec_overlay(ss: Seq<AnimeStatusV>, info: AnimeInfoV) -> Seq<AnimeStatusV> {
    match status_idx(ss, info.id, 0) {
        Some(i) => if ss[i].is_lock {
            ss
        } else {
            ss.update(i, AnimeStatusV { anime_info: info, ..ss[i] })
        },
        None => ss.push(spec_default_status(info)),
    }
}

/// The first `n` calendar snapshots folded in, in order.
pub open spec fn spec_overlay_upto(
    ss: Seq<AnimeStatusV>,
    infos: Seq<AnimeInfoV>,
    n: int,
) -> Seq<AnimeStatusV>
    decreases n,
{
    if n <= 0 {
        ss
    } else {
        spec_overlay(spec_overlay_upto(ss, infos, n - 1), infos[n - 1])
    }
}

/// A record added under its `(anime_id, info_hash)` key: nothing changes
/// when the key is already taken.
pub open spec fn spec_add_record(
    rs: Seq<(int, Seq<AnimeRssRecordV>)>,
    id: int,
    rv: AnimeRssRecordV,
) -> Seq<(int, Seq<AnimeRssRecordV>)> {
    match rec_idx(rs, id, 0) {
        Some(i) => if hash_idx(rs[i].1, rv.info_hash, 0) is Some {
            rs
        } else {
            rs.update(i, (id, rs[i].1.push(rv)))
        },
        None => rs.push((id, seq![rv])),
    }
}

/// Clones one series' record list, keeping its abstract value.
fn clone_record_list(list: &Vec<AnimeRssRecord>) -> (r: Vec<AnimeRssRecord>)
    ensures
        r.deep_view() == list.deep_view(),
{
    let mut r: Vec<AnimeRssRecord> = Vec::new();
    let mut j: usize = 0;
    while j < list.len()
        invariant
            j <= list@.len(),
            r@.len() == j,
            forall|t: int| 0 <= t < j ==> (#[trigger] r@[t])@ == list@[t]@,
        decreases list@.len() - j,
    {
        r.push(list[j].clone());
        j = j + 1;
    }
    proof {
        assert(r.deep_view() =~= list.deep_view());
    }
    r
}

/// What adding one record leaves behind: the key is recorded afterwards,
/// nothing else moved, and the uniqueness invariants survive.
pub proof fn lemma_add_record_props(
    rs: Seq<(int, Seq<AnimeRssRecordV>)>,
    id: int,
    rv: AnimeRssRecordV,
)
    requires
        records_wf(rs),
    ensures
        records_wf(spec_add_record(rs, id, rv)),
        rec_idx(spec_add_record(rs, id, rv), id, 0) is Some,
        hash_idx(
            spec_add_record(rs, id, rv)[rec_idx(spec_add_record(rs, id, rv), id, 0)->0].1,
            rv.info_hash,
            0,
        ) is Some,
{
    lemma_rec_idx(rs, id, 0);
    let rs1 = spec_add_record(rs, id, rv);
    match rec_idx(rs, id, 0) {
        Some(i) => {
            lemma_hash_idx(rs[i].1, rv.info_hash, 0);
            if hash_idx(rs[i].1, rv.info_hash, 0) is Some {
            } else {
                let l1 = rs[i].1.push(rv);
                assert(rs1 == rs.update(i, (id, l1)));
                lemma_rec_idx_first(rs1, id, i);
                lemma_hash_idx(l1, rv.info_hash, 0);
                assert(l1.last().info_hash == rv.info_hash);
                assert forall|a: int, b: int|
                    0 <= a < b < rs1.len() implies (#[trigger] rs1[a]).0 != (
                #[trigger] rs1[b]).0 by {
                    assert(rs[a].0 != rs[b].0);
                    assert(rs[i].0 == id);
                }
                assert forall|t: int, a: int, b: int|
                    #![trigger rs1[t].1[a], rs1[t].1[b]]
                    0 <= t < rs1.len() && 0 <= a < b < rs1[t].1.len() implies rs1[t].1[a].info_hash
                    != rs1[t].1[b].info_hash by {
                    if t == i {
                        if b < l1.len() - 1 {
                            assert(rs[t].1[a].info_hash != rs[t].1[b].info_hash);
                        } else {
                            assert(l1[b] == rv);
                            assert(rs[t].1[a].info_hash != rv.info_hash);
                        }
                    } else {
                        assert(rs[t].1[a].info_hash != rs[t].1[b].info_hash);
                    }
                }
            }
        },
        None => {
            assert(rs1 == rs.push((id, seq![rv])));
            assert(rs1[rs.len() as int].0 == id);
            lemma_rec_idx_first(rs1, id, rs.len() as int);
            assert(hash_idx(seq![rv], rv.info_hash, 0) == Some(0int));
            assert forall|a: int, b: int|
                0 <= a < b < rs1.len() implies (#[trigger] rs1[a]).0 != (#[trigger] rs1[b]).0 by {
                if b < rs.len() {
                    assert(rs[a].0 != rs[b].0);
                } else {
                    assert(rs[a].0 != id);
                }
            }
            assert forall|t: int, a: int, b: int|
                #![trigger rs1[t].1[a], rs1[t].1[b]]
                0 <= t < rs1.len() && 0 <= a < b < rs1[t].1.len() implies rs1[t].1[a].info_hash
                != rs1[t].1[b].info_hash by {
                if t < rs.len() {
                    assert(rs[t].1[a].info_hash != rs[t].1[b].info_hash);
                }
            }
        },
    }
}

/// The tracked state: statuses, records and the two configuration values.
pub struct Store {
    statuses: Vec<AnimeStatus>,
    records: Vec<AnimeRecords>,
    download_path: Option<String>,
    qbit: Option<QbitConfig>,
}

impl View for Store {
    type V = StoreV;

    closed spec fn view(&self) -> StoreV {
        StoreV {
            statuses: self.statuses.deep_view(),
            records: self.records.deep_view(),
            download_path: self.download_path.deep_view(),
            qbit: self.qbit.deep_view(),
        }
    }
}

impl Store {
    /// An empty store.
    pub fn new() -> (r: Store)
        ensures
            r@.statuses == Seq::<AnimeStatusV>::empty(),
            r@.records == Seq::<(int, Seq<AnimeRssRecordV>)>::empty(),
            r@.download_path is None,
            r@.qbit is None,
            r@.wf(),
    {
        let r = Store { statuses: Vec::new(), records: Vec::new(), download_path: None, qbit: None };
        proof {
            assert(r@.statuses =~= Seq::<AnimeStatusV>::empty());
            assert(r@.records =~= Seq::<(int, Seq<AnimeRssRecordV>)>::empty());
        }
        r
    }

    /// Finds the index of the status stored for `id`.
    fn status_pos(&self, id: i64) -> (r: Option<usize>)
        ensures
            match r {
                Some(i) => i < self.statuses@.len() && status_idx(self@.statuses, id as int, 0)
                    == Some(i as int),
                None => status_idx(self@.statuses, id as int, 0) is None,
            },
    {
        let mut i: usize = 0;
        while i < self.statuses.len()
            invariant
                i <= self.statuses@.len(),
                status_idx(self@.statuses, id as int, 0) == status_idx(
                    self@.statuses,
                    id as int,
                    i as int,
                ),
            decreases self.statuses@.len() - i,
        {
            if self.statuses[i].anime_info.id == id {
                proof {
                    assert(self@.statuses[i as int].anime_info.id == id as int);
                }
                return Some(i);
            }
            proof {
                assert(self@.statuses[i as int].anime_info.id != id as int);
            }
            i = i + 1;
        }
        None
    }

    /// The status stored for a series, as the repository hands it out.
    pub fn get_calender(&self, id: i64) -> (r: Option<AnimeStatus>)
        ensures
            r.deep_view() == self@.find_status(id as int),
    {
        match self.status_pos(id) {
            Some(i) => Some(self.statuses[i].clone()),
            None => None,
        }
    }

    /// Every status, in storage order.
    pub fn get_calenders(&self) -> (r: Vec<AnimeStatus>)
        ensures
            r.deep_view() == self@.statuses,
    {
        let mut r: Vec<AnimeStatus> = Vec::new();
        let mut i: usize = 0;
        while i < self.statuses.len()
            invariant
                i <= self.statuses@.len(),
                r@.len() == i,
                forall|j: int| 0 <= j < i ==> (#[trigger] r@[j])@ == self@.statuses[j],
            decreases self.statuses@.len() - i,
        {
            r.push(self.statuses[i].clone());
            i = i + 1;
        }
        proof {
            assert(r.deep_view() =~= self@.statuses);
        }
        r
    }

    /// Writes a status under its id, replacing what was there; the lock
    /// flag plays no part here — this is the write used for operator
    /// edits, the sticky rule and progress.
    pub fn set_calender(&mut self, anime: AnimeStatus)
        requires
            old(self)@.wf(),
        ensures
            final(self)@.wf(),
            final(self)@.statuses == spec_upsert_status(old(self)@.statuses, anime@),
            final(self)@.records == old(self)@.records,
            final(self)@.download_path == old(self)@.download_path,
            final(self)@.qbit == old(self)@.qbit,
    {
        proof {
            lemma_status_idx(self@.statuses, anime@.anime_info.id, 0);
        }
        let ghost ss0 = self@.statuses;
        match self.status_pos(anime.anime_info.id) {
            Some(i) => {
                self.statuses.set(i, anime);
                proof {
                    assert(self@.statuses =~= ss0.update(i as int, anime@));
                    assert(self@.statuses =~= spec_upsert_status(ss0, anime@));
                    assert forall|a: int, b: int|
                        0 <= a < b < self@.statuses.len() implies (
                    #[trigger] self@.statuses[a]).anime_info.id != (
                    #[trigger] self@.statuses[b]).anime_info.id by {
                        assert(old(self)@.statuses[a].anime_info.id != old(
                            self,
                        )@.statuses[b].anime_info.id);
                        assert(ss0[i as int].anime_info.id == anime@.anime_info.id);
                    }
                    assert(statuses_wf(self@.statuses));
                }
            },
            None => {
                self.statuses.push(anime);
                proof {
                    assert(self@.statuses =~= spec_upsert_status(ss0, anime@));
                    assert forall|a: int, b: int|
                        0 <= a < b < self@.statuses.len() implies (
                    #[trigger] self@.statuses[a]).anime_info.id != (
                    #[trigger] self@.statuses[b]).anime_info.id by {
                        if b < ss0.len() {
                            assert(old(self)@.statuses[a].anime_info.id != old(
                                self,
                            )@.statuses[b].anime_info.id);
                        } else {
                            assert(old(self)@.statuses[a].anime_info.id != anime@.anime_info.id);
                        }
                    }
                    assert(statuses_wf(self@.statuses));
                }
            },
        }
    }

    /// Folds a calendar of snapshots into the statuses, in order: locked
    /// statuses keep their `anime_info`, unlocked ones get it replaced,
    /// and new series are inserted with the default tracking state.
    pub fn set_calenders(&mut self, calendar: &Vec<AnimeInfo>)
        requires
            old(self)@.wf(),
        ensures
            final(self)@.wf(),
            final(self)@.statuses == spec_overlay_upto(
                old(self)@.statuses,
                calendar.deep_view(),
                calendar@.len() as int,
            ),
            final(self)@.records == old(self)@.records,
            final(self)@.download_path == old(self)@.download_path,
            final(self)@.qbit == old(self)@.qbit,
    {
        let ghost ss0 = self@.statuses;
        let ghost infos = calendar.deep_view();
        let mut n: usize = 0;
        while n < calendar.len()
            invariant
                infos == calendar.deep_view(),
                n <= calendar@.len(),
                self@.wf(),
                self@.statuses == spec_overlay_upto(ss0, infos, n as int),
                self@.records == old(self)@.records,
                self@.download_path == old(self)@.download_path,
                self@.qbit == old(self)@.qbit,
            decreases calendar@.len() - n,
        {
            let info = &calendar[n];
            proof {
                assert(infos[n as int] == info@);
                lemma_status_idx(self@.statuses, info@.id, 0);
            }
            let ghost before = self@.statuses;
            match self.status_pos(info.id) {
                Some(i) => {
                    if !self.statuses[i].is_lock {
                        let mut updated = self.statuses[i].clone();
                        updated.anime_info = info.clone();
                        self.statuses.set(i, updated);
                        proof {
                            assert(self@.statuses =~= before.update(i as int, updated@));
                            assert(updated@ == (AnimeStatusV {
                                anime_info: info@,
                                ..before[i as int]
                            }));
                            assert(self@.statuses =~= spec_overlay_upto(ss0, infos, n + 1));
                            assert forall|a: int, b: int|
                                0 <= a < b < self@.statuses.len() implies (
                            #[trigger] self@.statuses[a]).anime_info.id != (
                            #[trigger] self@.statuses[b]).anime_info.id by {
                                assert(before[a].anime_info.id != before[b].anime_info.id);
                                assert(before[i as int].anime_info.id == info@.id);
                            }
                        }
                    } else {
                        proof {
                            assert(self@.statuses =~= spec_overlay_upto(ss0, infos, n + 1));
                        }
                    }
                },
                None => {
                    let fresh = AnimeStatus {
                        status: true,
                        rule_name: String::new(),
                        anime_info: info.clone(),
                        is_search: false,
                        is_lock: false,
                        progress: 0,
                    };
                    self.statuses.push(fresh);
                    proof {
                        assert(fresh@ == spec_default_status(info@));
                        assert(self@.statuses =~= spec_overlay_upto(ss0, infos, n + 1));
                        assert forall|a: int, b: int|
                            0 <= a < b < self@.statuses.len() implies (
                        #[trigger] self@.statuses[a]).anime_info.id != (
                        #[trigger] self@.statuses[b]).anime_info.id by {
                            if b < before.len() {
                                assert(before[a].anime_info.id != before[b].anime_info.id);
                            } else {
                                assert(before[a].anime_info.id != info@.id);
                            }
                        }
                    }
                },
            }
            n = n + 1;
        }
    }

    /// Finds the index of the record list stored for `id`.
    fn rec_pos(&self, id: i64) -> (r: Option<usize>)
        ensures
            match r {
                Some(i) => i < self.records@.len() && rec_idx(self@.records, id as int, 0) == Some(
                    i as int,
                ),
                None => rec_idx(self@.records, id as int, 0) is None,
            },
    {
        let mut i: usize = 0;
        while i < self.records.len()
            invariant
                i <= self.records@.len(),
                rec_idx(self@.records, id as int, 0) == rec_idx(self@.records, id as int, i as int),
            decreases self.records@.len() - i,
        {
            if self.records[i].anime_id == id {
                proof {
                    assert(self@.records[i as int].0 == id as int);
                }
                return Some(i);
            }
            proof {
                assert(self@.records[i as int].0 != id as int);
            }
            i = i + 1;
        }
        None
    }

    /// Finds the index of the record with this hash in one series' list.
    fn hash_pos(list: &Vec<AnimeRssRecord>, hash: &str) -> (r: Option<usize>)
        ensures
            match r {
                Some(i) => i < list@.len() && hash_idx(list.deep_view(), hash@, 0) == Some(i as int),
                None => hash_idx(list.deep_view(), hash@, 0) is None,
            },
    {
        let mut i: usize = 0;
        while i < list.len()
            invariant
                i <= list@.len(),
                hash_idx(list.deep_view(), hash@, 0) == hash_idx(list.deep_view(), hash@, i as int),
            decreases list@.len() - i,
        {
            proof {
                assert(list.deep_view()[i as int] == list@[i as int]@);
            }
            if eq_str(list[i].info_hash.as_str(), hash) {
                proof {
                    assert(list.deep_view()[i as int].info_hash == hash@);
                }
                return Some(i);
            }
            proof {
                assert(list.deep_view()[i as int].info_hash != hash@);
            }
            i = i + 1;
        }
        None
    }

    /// The record stored under `(anime_id, info_hash)`, if any.
    pub fn get_anime_record(&self, anime_id: i64, info_hash: &str) -> (r: Option<AnimeRssRecord>)
        ensures
            r is Some <==> self@.has_record(anime_id as int, info_hash@),
            r is Some ==> {
                let l = self@.records_of(anime_id as int)->0;
                r.deep_view() == Some(l[hash_idx(l, info_hash@, 0)->0])
            },
    {
        match self.rec_pos(anime_id) {
            Some(i) => {
                match Self::hash_pos(&self.records[i].records, info_hash) {
                    Some(j) => Some(self.records[i].records[j].clone()),
                    None => None,
                }
            },
            None => None,
        }
    }

    /// All records stored for a series, in admission order.
    pub fn get_anime_rss_recodes(&self, anime_id: i64) -> (r: Option<Vec<AnimeRssRecord>>)
        ensures
            r.deep_view() == self@.records_of(anime_id as int),
    {
        match self.rec_pos(anime_id) {
            Some(i) => {
                let out = clone_record_list(&self.records[i].records);
                proof {
                    assert(self@.records[i as int].1 == self.records@[i as int].records.deep_view());
                }
                Some(out)
            },
            None => None,
        }
    }

    /// Writes a record under `(anime_id, record.info_hash)`. A key that is
    /// already taken leaves the store unchanged: the existing record wins,
    /// so one key never holds two records.
    pub fn set_anime_recode(&mut self, anime_id: i64, record: AnimeRssRecord)
        requires
            old(self)@.wf(),
        ensures
            final(self)@.wf(),
            final(self)@.records == spec_add_record(
                old(self)@.records,
                anime_id as int,
                record@,
            ),
            final(self)@.statuses == old(self)@.statuses,
            final(self)@.download_path == old(self)@.download_path,
            final(self)@.qbit == old(self)@.qbit,
            final(self)@.has_record(anime_id as int, record@.info_hash),
            old(self)@.has_record(anime_id as int, record@.info_hash) ==> final(self)@.records
                == old(self)@.records,
    {
        let ghost rs0 = self@.records;
        proof {
            lemma_rec_idx(rs0, anime_id as int, 0);
        }
        match self.rec_pos(anime_id) {
            Some(i) => {
                proof {
                    assert(self@.records[i as int].1 == self.records@[i as int].records.deep_view());
                    lemma_hash_idx(rs0[i as int].1, record@.info_hash, 0);
                }
                match Self::hash_pos(&self.records[i].records, record.info_hash.as_str()) {
                    Some(_) => {
                        proof {
                            assert(self@.has_record(anime_id as int, record@.info_hash));
                            assert(self@.records =~= spec_add_record(
                                rs0,
                                anime_id as int,
                                record@,
                            ));
                        }
                    },
                    None => {
                        let mut lst = clone_record_list(&self.records[i].records);
                        lst.push(record);
                        let fresh = AnimeRecords { anime_id, records: lst };
                        self.records.set(i, fresh);
                        proof {
                            let ghost rv = record@;
                            let ghost l1 = rs0[i as int].1.push(rv);
                            assert(fresh@ == (anime_id as int, l1));
                            assert(self@.records =~= rs0.update(i as int, fresh@));
                            assert(self@.records =~= spec_add_record(rs0, anime_id as int, rv));
                            // the same id sits at the same slot, so the new
                            // list is the one the lookup returns
                            lemma_rec_idx_first(self@.records, anime_id as int, i as int);
                            assert(self@.records_of(anime_id as int) == Some(l1));
                            lemma_hash_idx(l1, rv.info_hash, 0);
                            assert(l1.last().info_hash == rv.info_hash);
                            assert(self@.has_record(anime_id as int, rv.info_hash));
                            // uniqueness: ids unchanged, and the pushed hash
                            // was absent from the old list
                            assert forall|a: int, b: int|
                                0 <= a < b < self@.records.len() implies (
                            #[trigger] self@.records[a]).0 != (#[trigger] self@.records[b]).0 by {
                                assert(rs0[a].0 != rs0[b].0);
                                assert(rs0[i as int].0 == anime_id as int);
                            }
                            assert forall|t: int, a: int, b: int|
                                #![trigger self@.records[t].1[a], self@.records[t].1[b]]
                                0 <= t < self@.records.len() && 0 <= a < b < self@.records[t].1.len()
                                    implies self@.records[t].1[a].info_hash
                                    != self@.records[t].1[b].info_hash by {
                                if t == i as int {
                                    if b < l1.len() - 1 {
                                        assert(rs0[t].1[a].info_hash != rs0[t].1[b].info_hash);
                                    } else {
                                        assert(l1[b] == rv);
                                        assert(rs0[t].1[a].info_hash != rv.info_hash);
                                    }
                                } else {
                                    assert(rs0[t].1[a].info_hash != rs0[t].1[b].info_hash);
                                }
                            }
                        }
                    },
                }
            },
            None => {
                let fresh = AnimeRecords { anime_id, records: vec![record] };
                self.records.push(fresh);
                proof {
                    let ghost rv = record@;
                    assert(fresh@.1 =~= seq![rv]);
                    assert(self@.records =~= spec_add_record(rs0, anime_id as int, rv));
                    lemma_rec_idx_first(self@.records, anime_id as int, rs0.len() as int);
                    assert(self@.records_of(anime_id as int) == Some(fresh@.1));
                    assert(hash_idx(fresh@.1, rv.info_hash, 0) == Some(0int));
                    assert forall|a: int, b: int|
                        0 <= a < b < self@.records.len() implies (#[trigger] self@.records[a]).0
                        != (#[trigger] self@.records[b]).0 by {
                        if b < rs0.len() {
                            assert(rs0[a].0 != rs0[b].0);
                        } else {
                            assert(rs0[a].0 != anime_id as int);
                        }
                    }
                    assert forall|t: int, a: int, b: int|
                        #![trigger self@.records[t].1[a], self@.records[t].1[b]]
                        0 <= t < self@.records.len() && 0 <= a < b < self@.records[t].1.len()
                            implies self@.records[t].1[a].info_hash != self@.records[t].1[
                        b
                    ].info_hash by {
                        if t < rs0.len() {
                            assert(rs0[t].1[a].info_hash != rs0[t].1[b].info_hash);
                        }
                    }
                }
            },
        }
    }

    /// The configured download path.
    pub fn get_path(&self) -> (r: Option<String>)
        ensures
            r.deep_view() == self@.download_path,
    {
        match &self.download_path {
            Some(p) => Some(p.clone()),
            None => None,
        }
    }

    /// Sets the download path.
    pub fn set_path(&mut self, path: String)
        ensures
            final(self)@ == (StoreV { download_path: Some(path@), ..old(self)@ }),
    {
        self.download_path = Some(path);
    }

    /// The configured torrent-client settings.
    pub fn get_qbit(&self) -> (r: Option<QbitConfig>)
        ensures
            match r {
                Some(q) => self@.qbit == Some(q@),
                None => self@.qbit is None,
            },
    {
        match &self.qbit {
            Some(q) => Some(q.clone()),
            None => None,
        }
    }

    /// Sets the torrent-client settings.
    pub fn set_qbit(&mut self, config: QbitConfig)
        ensures
            final(self)@ == (StoreV { qbit: Some(config@), ..old(self)@ }),
    {
        self.qbit = Some(config);
    }
}

} // verus!
