//! The tracking engine: one sequential state machine over the store, the
//! rule cache and the set of live listeners.
//!
//! Every outside effect — a feed fetch, the torrent client's verdict, a
//! derived info hash — enters a step as a plain argument, and every
//! outward action leaves it as a plain result, so each step is verified
//! for every outcome of the world around it.

use vstd::prelude::*;
use crate::model::{
    AnimeInfo, AnimeInfoV, AnimeRssRecord, AnimeRssRecordV, AnimeStatus, AnimeStatusV, AnimeTask,
    AnimeTaskV, FeedItem, QbitConfig, RssItem, RssItemV, Rule,
};
use crate::rules::{
    cache_valid, cache_view, reconcile_rules, spec_reconcile, spec_tag_items, tag_feed_items,
    RuleRegex,
};
use crate::dates::spec_date_gate;
use crate::store::{
    lemma_status_idx, lemma_status_idx_first, spec_add_record, spec_default_status,
    spec_overlay_upto, spec_upsert_status, status_idx, statuses_wf, Store, StoreV,
};
use crate::strutil::{contains_sub, spec_contains};
use vstd::string::StringExecFns;

verus! {

/// Abstract value of a [`Tasker`]: the store, the rule cache reduced to
/// `(name, source)` pairs, and the live listeners' in-memory snapshots.
pub struct TaskerV {
    pub store: StoreV,
    pub cache: Seq<(Seq<char>, Seq<char>)>,
    pub listeners: Seq<AnimeStatusV>,
}

/// Every cache entry carries a valid pattern source.
pub open spec fn cache_srcs_valid(c: Seq<(Seq<char>, Seq<char>)>) -> bool {
    forall|i: int| 0 <= i < c.len() ==> crate::rules::regex_valid((#[trigger] c[i]).1)
}

impl TaskerV {
    /// Store invariants, unique listener ids, and a cache of valid
    /// pattern sources.
    pub open spec fn wf(self) -> bool {
        &&& self.store.wf()
        &&& statuses_wf(self.listeners)
        &&& cache_srcs_valid(self.cache)
    }

    /// Whether a listener for this series is live.
    pub open spec fn live(self, id: int) -> bool {
        status_idx(self.listeners, id, 0) is Some
    }
}

/// A listener started for a status: nothing happens when one is already
/// live for the same series.
pub open spec fn spec_start_listener(ls: Seq<AnimeStatusV>, sv: AnimeStatusV) -> Seq<AnimeStatusV> {
    if status_idx(ls, sv.anime_info.id, 0) is Some {
        ls
    } else {
        ls.push(sv)
    }
}

/// Listeners recovered from the first `n` stored statuses: one is started
/// for every status still marked watching.
pub open spec fn spec_init_upto(
    ls: Seq<AnimeStatusV>,
    ss: Seq<AnimeStatusV>,
    n: int,
) -> Seq<AnimeStatusV>
    decreases n,
{
    if n <= 0 {
        ls
    } else {
        let prev = spec_init_upto(ls, ss, n - 1);
        if ss[n - 1].status {
            spec_start_listener(prev, ss[n - 1])
        } else {
            prev
        }
    }
}

/// Listener start decided for one calendar entry: a series whose stored
/// status is no longer watching is skipped, every other entry gets a
/// listener with the default tracking snapshot.
pub open spec fn spec_sync_one(
    ls: Seq<AnimeStatusV>,
    store: StoreV,
    info: AnimeInfoV,
) -> Seq<AnimeStatusV> {
    match store.find_status(info.id) {
        Some(st) => if !st.status {
            ls
        } else {
            spec_start_listener(ls, spec_default_status(info))
        },
        None => spec_start_listener(ls, spec_default_status(info)),
    }
}

/// The listener starts decided for the first `n` calendar entries, all
/// against the store as it stood before the calendar was written back.
pub open spec fn spec_sync_upto(
    ls: Seq<AnimeStatusV>,
    store: StoreV,
    infos: Seq<AnimeInfoV>,
    n: int,
) -> Seq<AnimeStatusV>
    decreases n,
{
    if n <= 0 {
        ls
    } else {
        spec_sync_one(spec_sync_upto(ls, store, infos, n - 1), store, infos[n - 1])
    }
}

/// Fields other than the season snapshot agree.
pub open spec fn same_but_info(a: AnimeStatusV, b: AnimeStatusV) -> bool {
    &&& b.anime_info.id == a.anime_info.id
    &&& b.status == a.status
    &&& b.rule_name == a.rule_name
    &&& b.is_search == a.is_search
    &&& b.is_lock == a.is_lock
    &&& b.progress == a.progress
}

/// What folding a calendar over the statuses can and cannot change: an
/// existing status keeps its slot, its tracking fields and its id; a
/// locked one keeps its season snapshot too; uniqueness survives.
pub proof fn lemma_overlay_props(ss: Seq<AnimeStatusV>, infos: Seq<AnimeInfoV>, n: int)
    requires
        statuses_wf(ss),
        0 <= n <= infos.len(),
    ensures
        spec_overlay_upto(ss, infos, n).len() >= ss.len(),
        statuses_wf(spec_overlay_upto(ss, infos, n)),
        forall|i: int|
            0 <= i < ss.len() ==> same_but_info(ss[i], #[trigger] spec_overlay_upto(ss, infos, n)[i]),
        forall|i: int|
            0 <= i < ss.len() && ss[i].is_lock ==> (#[trigger] spec_overlay_upto(ss, infos, n)[i])
                == ss[i],
    decreases n,
{
    if n > 0 {
        lemma_overlay_props(ss, infos, n - 1);
        let prev = spec_overlay_upto(ss, infos, n - 1);
        let info = infos[n - 1];
        lemma_status_idx(prev, info.id, 0);
        let cur = spec_overlay_upto(ss, infos, n);
        match status_idx(prev, info.id, 0) {
            Some(i) => {
                if prev[i].is_lock {
                } else {
                    assert forall|a: int, b: int|
                        0 <= a < b < cur.len() implies (#[trigger] cur[a]).anime_info.id != (
                    #[trigger] cur[b]).anime_info.id by {
                        assert(prev[a].anime_info.id != prev[b].anime_info.id);
                    }
                }
            },
            None => {
                assert forall|a: int, b: int|
                    0 <= a < b < cur.len() implies (#[trigger] cur[a]).anime_info.id != (
                #[trigger] cur[b]).anime_info.id by {
                    if b < prev.len() {
                        assert(prev[a].anime_info.id != prev[b].anime_info.id);
                    } else {
                        assert(prev[a].anime_info.id != info.id);
                    }
                }
            },
        }
    }
}

/// Appending a listener for one series does not change where another
/// series' entry is found.
pub proof fn lemma_status_idx_push(ls: Seq<AnimeStatusV>, x: AnimeStatusV, id: int, from: int)
    requires
        0 <= from <= ls.len(),
        x.anime_info.id != id,
    ensures
        status_idx(ls.push(x), id, from) == status_idx(ls, id, from),
    decreases ls.len() - from,
{
    if from < ls.len() {
        assert(ls.push(x)[from] == ls[from]);
        if ls[from].anime_info.id != id {
            lemma_status_idx_push(ls, x, id, from + 1);
            assert(status_idx(ls.push(x), id, from) == status_idx(ls.push(x), id, from + 1));
            assert(status_idx(ls, id, from) == status_idx(ls, id, from + 1));
        } else {
            assert(status_idx(ls.push(x), id, from) == Some(from));
            assert(status_idx(ls, id, from) == Some(from));
        }
    } else {
        assert(ls.push(x)[from] == x);
        assert(status_idx(ls.push(x), id, from) == status_idx(ls.push(x), id, from + 1));
        assert(status_idx(ls.push(x), id, from + 1) is None);
        assert(status_idx(ls, id, from) is None);
    }
}

/// A series whose stored status is retired keeps exactly the listener
/// state it had through a whole calendar pass.
pub proof fn lemma_sync_keeps_retired(
    ls: Seq<AnimeStatusV>,
    store: StoreV,
    infos: Seq<AnimeInfoV>,
    n: int,
    id: int,
)
    requires
        0 <= n <= infos.len(),
        store.find_status(id) is Some,
        !store.find_status(id)->0.status,
    ensures
        status_idx(spec_sync_upto(ls, store, infos, n), id, 0) == status_idx(ls, id, 0),
    decreases n,
{
    if n > 0 {
        lemma_sync_keeps_retired(ls, store, infos, n - 1, id);
        let prev = spec_sync_upto(ls, store, infos, n - 1);
        let info = infos[n - 1];
        if info.id == id {
        } else {
            match store.find_status(info.id) {
                Some(st) => {
                    if !st.status {
                    } else {
                        if status_idx(prev, info.id, 0) is None {
                            lemma_status_idx_push(prev, spec_default_status(info), id, 0);
                        }
                    }
                },
                None => {
                    if status_idx(prev, info.id, 0) is None {
                        lemma_status_idx_push(prev, spec_default_status(info), id, 0);
                    }
                },
            }
        }
    }
}

/// A listener snapshot refreshed from the store: only the season
/// snapshot is taken over; the rule and progress already in memory stay.
pub open spec fn spec_refresh(l: AnimeStatusV, st: Option<AnimeStatusV>) -> AnimeStatusV {
    match st {
        Some(s) => AnimeStatusV { anime_info: s.anime_info, ..l },
        None => l,
    }
}

/// The name gate: some alias of the series occurs in the item's title.
pub open spec fn spec_named(info: AnimeInfoV, title: Seq<char>) -> bool {
    exists|j: int|
        0 <= j < info.aliases().len() && spec_contains(title, #[trigger] info.aliases()[j])
}

/// Whether one listener admits one tagged item: the listener is live, an
/// alias of the refreshed snapshot occurs in the title, the date gate
/// passes, and the sticky rule is either still open or agrees with the
/// item's tag.
pub open spec fn spec_admits(tv: TaskerV, id: int, item: RssItemV) -> bool {
    match status_idx(tv.listeners, id, 0) {
        None => false,
        Some(i) => {
            let l1 = spec_refresh(tv.listeners[i], tv.store.find_status(id));
            &&& spec_named(l1.anime_info, item.title)
            &&& spec_date_gate(item.pub_date, l1.anime_info.air_date)
            &&& (l1.rule_name.len() == 0 || l1.rule_name == item.rule_name)
        },
    }
}

/// The state after the listener has weighed one item: the snapshot is
/// refreshed either way, and when the item is admitted while the sticky
/// rule is still open, the item's rule is bound and persisted.
pub open spec fn spec_after_eval(tv: TaskerV, id: int, item: RssItemV) -> TaskerV {
    match status_idx(tv.listeners, id, 0) {
        None => tv,
        Some(i) => {
            let l1 = spec_refresh(tv.listeners[i], tv.store.find_status(id));
            if spec_admits(tv, id, item) && l1.rule_name.len() == 0 {
                let l2 = AnimeStatusV { rule_name: item.rule_name, ..l1 };
                TaskerV {
                    listeners: tv.listeners.update(i, l2),
                    store: StoreV {
                        statuses: spec_upsert_status(tv.store.statuses, l2),
                        ..tv.store
                    },
                    ..tv
                }
            } else {
                TaskerV { listeners: tv.listeners.update(i, l1), ..tv }
            }
        },
    }
}

/// A listener evicted after retirement; nothing happens when none is
/// live.
pub open spec fn spec_drop_listener(ls: Seq<AnimeStatusV>, id: int) -> Seq<AnimeStatusV> {
    match status_idx(ls, id, 0) {
        Some(i) => ls.remove(i),
        None => ls,
    }
}

/// The progress-and-retirement step the admitter runs after the record
/// write: the analyzer count of the stored records decides whether the
/// series retires (only ever with a declared episode count), advances its
/// progress, or stands.
pub open spec fn spec_progress_step(tv: TaskerV, id: int) -> (TaskerV, Option<AnimeTaskV>) {
    match tv.store.records_of(id) {
        None => (tv, None),
        Some(list) => {
            let p = crate::progress::spec_season_eps(list).len() as int;
            match tv.store.find_status(id) {
                None => (tv, None),
                Some(st) => {
                    if st.anime_info.eps > 0 && p >= st.anime_info.eps {
                        let st2 = AnimeStatusV { status: false, progress: p, ..st };
                        (
                            TaskerV {
                                store: StoreV {
                                    statuses: spec_upsert_status(tv.store.statuses, st2),
                                    ..tv.store
                                },
                                listeners: spec_drop_listener(tv.listeners, id),
                                ..tv
                            },
                            Some(AnimeTaskV { info: st.anime_info, cancel: true }),
                        )
                    } else if p > st.progress {
                        let st3 = AnimeStatusV { progress: p, ..st };
                        (
                            TaskerV {
                                store: StoreV {
                                    statuses: spec_upsert_status(tv.store.statuses, st3),
                                    ..tv.store
                                },
                                ..tv
                            },
                            None,
                        )
                    } else {
                        (tv, None)
                    }
                },
            }
        },
    }
}

/// The whole admitter step for one item whose info hash is `hash` and
/// whose dispatch verdict is `ok`: a fresh key needs both configuration
/// values and a verified dispatch before the record is written; a key
/// already taken skips the dispatch; either way the progress step then
/// runs over the stored records.
pub open spec fn spec_handle_rss(
    tv: TaskerV,
    id: int,
    item: RssItemV,
    hash: Seq<char>,
    ok: bool,
) -> (TaskerV, Option<AnimeTaskV>) {
    let had = tv.store.has_record(id, hash);
    let config_ok = tv.store.download_path is Some && tv.store.qbit is Some;
    if !had && !(config_ok && ok) {
        (tv, None)
    } else {
        let rec = AnimeRssRecordV {
            title: item.title,
            magnet: item.magnet,
            rule_name: item.rule_name,
            info_hash: hash,
        };
        let store1 = if had {
            tv.store
        } else {
            StoreV { records: spec_add_record(tv.store.records, id, rec), ..tv.store }
        };
        spec_progress_step(TaskerV { store: store1, ..tv }, id)
    }
}

/// Replacing a listener with one carrying the same id keeps the ids
/// unique.
proof fn lemma_update_same_id_wf(ls: Seq<AnimeStatusV>, i: int, x: AnimeStatusV)
    requires
        statuses_wf(ls),
        0 <= i < ls.len(),
        x.anime_info.id == ls[i].anime_info.id,
    ensures
        statuses_wf(ls.update(i, x)),
{
    let cur = ls.update(i, x);
    assert forall|a: int, b: int|
        0 <= a < b < cur.len() implies (#[trigger] cur[a]).anime_info.id != (
    #[trigger] cur[b]).anime_info.id by {
        assert(ls[a].anime_info.id != ls[b].anime_info.id);
    }
}

/// Evicting one listener keeps the ids unique.
proof fn lemma_remove_wf(ls: Seq<AnimeStatusV>, i: int)
    requires
        statuses_wf(ls),
        0 <= i < ls.len(),
    ensures
        statuses_wf(ls.remove(i)),
{
    let cur = ls.remove(i);
    assert forall|a: int, b: int|
        0 <= a < b < cur.len() implies (#[trigger] cur[a]).anime_info.id != (
    #[trigger] cur[b]).anime_info.id by {
        let a0 = if a < i { a } else { a + 1 };
        let b0 = if b < i { b } else { b + 1 };
        assert(cur[a] == ls[a0]);
        assert(cur[b] == ls[b0]);
        assert(ls[a0].anime_info.id != ls[b0].anime_info.id);
    }
}

/// One whole listener turn for one incoming item: nothing without a live
/// listener; the evaluation alone when the item is dropped or its info
/// hash could not be derived; evaluation plus admission otherwise.
pub open spec fn spec_listener_step(
    tv: TaskerV,
    id: int,
    item: RssItemV,
    hash: Option<Seq<char>>,
    ok: bool,
) -> (TaskerV, Option<AnimeTaskV>) {
    if !tv.live(id) {
        (tv, None)
    } else if !spec_admits(tv, id, item) {
        (spec_after_eval(tv, id, item), None)
    } else {
        match hash {
            None => (spec_after_eval(tv, id, item), None),
            Some(h) => spec_handle_rss(spec_after_eval(tv, id, item), id, item, h, ok),
        }
    }
}

/// When no slot at or after `from` carries the id, the scan finds none.
pub proof fn lemma_status_idx_absent(ls: Seq<AnimeStatusV>, id: int, from: int)
    requires
        0 <= from <= ls.len(),
        forall|j: int| from <= j < ls.len() ==> (#[trigger] ls[j]).anime_info.id != id,
    ensures
        status_idx(ls, id, from) is None,
    decreases ls.len() - from,
{
    if from < ls.len() {
        lemma_status_idx_absent(ls, id, from + 1);
    }
}

/// Two sequences with the same ids slot for slot are scanned alike.
pub proof fn lemma_status_idx_same_ids(
    a: Seq<AnimeStatusV>,
    b: Seq<AnimeStatusV>,
    id: int,
    from: int,
)
    requires
        a.len() == b.len(),
        forall|j: int|
            0 <= j < a.len() ==> (#[trigger] a[j]).anime_info.id == (#[trigger] b[j]).anime_info.id,
        0 <= from,
    ensures
        status_idx(a, id, from) == status_idx(b, id, from),
    decreases a.len() - from,
{
    if from < a.len() {
        lemma_status_idx_same_ids(a, b, id, from + 1);
    }
}

/// What writing one status leaves behind: that id now holds the written
/// value, and every other id reads exactly as before.
pub proof fn lemma_upsert_find(ss: Seq<AnimeStatusV>, sv: AnimeStatusV)
    requires
        statuses_wf(ss),
    ensures
        status_idx(spec_upsert_status(ss, sv), sv.anime_info.id, 0) is Some,
        spec_upsert_status(ss, sv)[status_idx(spec_upsert_status(ss, sv), sv.anime_info.id, 0)->0]
            == sv,
        forall|x: int|
            x != sv.anime_info.id && #[trigger] status_idx(spec_upsert_status(ss, sv), x, 0)
                is Some ==> status_idx(ss, x, 0) == status_idx(spec_upsert_status(ss, sv), x, 0)
                && spec_upsert_status(ss, sv)[status_idx(spec_upsert_status(ss, sv), x, 0)->0]
                == ss[status_idx(spec_upsert_status(ss, sv), x, 0)->0],
        forall|x: int|
            x != sv.anime_info.id && #[trigger] status_idx(spec_upsert_status(ss, sv), x, 0)
                is None ==> status_idx(ss, x, 0) is None,
        statuses_wf(spec_upsert_status(ss, sv)),
{
    let id = sv.anime_info.id;
    lemma_status_idx(ss, id, 0);
    let ss1 = spec_upsert_status(ss, sv);
    match status_idx(ss, id, 0) {
        Some(i) => {
            assert(ss1 == ss.update(i, sv));
            assert forall|x: int| true implies #[trigger] status_idx(ss1, x, 0) == status_idx(
                ss,
                x,
                0,
            ) by {
                lemma_status_idx_same_ids(ss1, ss, x, 0);
            }
            assert(status_idx(ss1, id, 0) == Some(i));
            assert(ss1[i] == sv);
            lemma_update_same_id_wf(ss, i, sv);
            assert forall|x: int|
                x != id && #[trigger] status_idx(ss1, x, 0) is Some implies status_idx(ss, x, 0)
                    == status_idx(ss1, x, 0) && ss1[status_idx(ss1, x, 0)->0] == ss[status_idx(
                    ss1,
                    x,
                    0,
                )->0] by {
                let j = status_idx(ss1, x, 0)->0;
                lemma_status_idx(ss, x, 0);
                assert(ss[j].anime_info.id == x);
                assert(j != i);
            }
        },
        None => {
            assert(ss1 == ss.push(sv));
            assert forall|x: int|
                x != id && #[trigger] status_idx(ss1, x, 0) is Some implies status_idx(ss, x, 0)
                    == status_idx(ss1, x, 0) && ss1[status_idx(ss1, x, 0)->0] == ss[status_idx(
                    ss1,
                    x,
                    0,
                )->0] by {
                lemma_status_idx_push(ss, sv, x, 0);
                lemma_status_idx(ss, x, 0);
            }
            assert forall|x: int|
                x != id && #[trigger] status_idx(ss1, x, 0) is None implies status_idx(
                    ss,
                    x,
                    0,
                ) is None by {
                lemma_status_idx_push(ss, sv, x, 0);
            }
            assert forall|a: int, b: int|
                0 <= a < b < ss1.len() implies (#[trigger] ss1[a]).anime_info.id != (
            #[trigger] ss1[b]).anime_info.id by {
                if b < ss.len() {
                    assert(ss[a].anime_info.id != ss[b].anime_info.id);
                } else {
                    assert(ss[a].anime_info.id != id);
                }
            }
            assert(ss1[ss.len() as int] == sv);
            lemma_status_idx_first(ss1, id, ss.len() as int);
        },
    }
}

/// After its eviction no listener for the series remains.
pub proof fn lemma_drop_listener_gone(ls: Seq<AnimeStatusV>, id: int)
    requires
        statuses_wf(ls),
    ensures
        status_idx(spec_drop_listener(ls, id), id, 0) is None,
{
    lemma_status_idx(ls, id, 0);
    match status_idx(ls, id, 0) {
        Some(i) => {
            let cur = ls.remove(i);
            assert forall|j: int| 0 <= j < cur.len() implies (#[trigger] cur[j]).anime_info.id
                != id by {
                let j0 = if j < i {
                    j
                } else {
                    j + 1
                };
                assert(cur[j] == ls[j0]);
                if j0 != i {
                    assert(ls[i].anime_info.id == id);
                }
            }
            lemma_status_idx_absent(cur, id, 0);
        },
        None => {},
    }
}

/// The save path handed to the torrent client:
/// `{root}/{name}/S{season:02}`, with no doubled separator when the root
/// already ends in one.
pub open spec fn spec_save_path(root: Seq<char>, name: Seq<char>, season: int) -> Seq<char> {
    let tail = name + "/S"@ + crate::strutil::spec_pad2(season);
    if root.len() > 0 && root.last() == '/' {
        root + tail
    } else if root.len() == 0 {
        tail
    } else {
        root + "/"@ + tail
    }
}

/// The tracking engine.
pub struct Tasker {
    store: Store,
    rules_re: Vec<RuleRegex>,
    listeners: Vec<AnimeStatus>,
}

impl View for Tasker {
    type V = TaskerV;

    closed spec fn view(&self) -> TaskerV {
        TaskerV {
            store: self.store@,
            cache: cache_view(self.rules_re@),
            listeners: self.listeners.deep_view(),
        }
    }
}

impl Tasker {
    /// A fresh engine: empty store, empty cache, no listeners.
    pub fn new() -> (r: Tasker)
        ensures
            r@.wf(),
            r@.store.statuses == Seq::<AnimeStatusV>::empty(),
            r@.store.records == Seq::<(int, Seq<AnimeRssRecordV>)>::empty(),
            r@.store.download_path is None,
            r@.store.qbit is None,
            r@.cache == Seq::<(Seq<char>, Seq<char>)>::empty(),
            r@.listeners == Seq::<AnimeStatusV>::empty(),
    {
        let r = Tasker { store: Store::new(), rules_re: Vec::new(), listeners: Vec::new() };
        proof {
            assert(r@.cache =~= Seq::<(Seq<char>, Seq<char>)>::empty());
            assert(r@.listeners =~= Seq::<AnimeStatusV>::empty());
        }
        r
    }

    /// The sorted, deduplicated episode numbers read out of a season's
    /// records, as [`crate::progress::spec_season_eps`] describes.
    pub fn get_season_eps(anime_list: Vec<AnimeRssRecord>) -> (r: Vec<i64>)
        ensures
            r@.map_values(|v: i64| v as int) == crate::progress::spec_season_eps(
                anime_list.deep_view(),
            ),
    {
        crate::progress::season_eps(&anime_list)
    }

    /// Finds the index of the live listener for `id`.
    fn listener_pos(&self, id: i64) -> (r: Option<usize>)
        ensures
            match r {
                Some(i) => i < self.listeners@.len() && status_idx(self@.listeners, id as int, 0)
                    == Some(i as int),
                None => status_idx(self@.listeners, id as int, 0) is None,
            },
    {
        let mut i: usize = 0;
        while i < self.listeners.len()
            invariant
                i <= self.listeners@.len(),
                status_idx(self@.listeners, id as int, 0) == status_idx(
                    self@.listeners,
                    id as int,
                    i as int,
                ),
            decreases self.listeners@.len() - i,
        {
            proof {
                assert(self@.listeners[i as int] == self.listeners@[i as int]@);
            }
            if self.listeners[i].anime_info.id == id {
                return Some(i);
            }
            i = i + 1;
        }
        None
    }

    /// Whether a listener for this series is live.
    pub fn is_listening(&self, id: i64) -> (b: bool)
        ensures
            b == self@.live(id as int),
    {
        match self.listener_pos(id) {
            Some(_) => true,
            None => false,
        }
    }

    /// Starts a listener with the given in-memory snapshot; idempotent on
    /// the series id.
    pub fn start_listener(&mut self, anime_status: AnimeStatus)
        requires
            old(self)@.wf(),
        ensures
            final(self)@.wf(),
            final(self)@.listeners == spec_start_listener(old(self)@.listeners, anime_status@),
            final(self)@.store == old(self)@.store,
            final(self)@.cache == old(self)@.cache,
    {
        proof {
            lemma_status_idx(self@.listeners, anime_status@.anime_info.id, 0);
        }
        let ghost ls0 = self@.listeners;
        match self.listener_pos(anime_status.anime_info.id) {
            Some(_) => {},
            None => {
                self.listeners.push(anime_status);
                proof {
                    assert(self@.listeners =~= ls0.push(anime_status@));
                    assert forall|a: int, b: int|
                        0 <= a < b < self@.listeners.len() implies (
                    #[trigger] self@.listeners[a]).anime_info.id != (
                    #[trigger] self@.listeners[b]).anime_info.id by {
                        if b < ls0.len() {
                            assert(old(self)@.listeners[a].anime_info.id != old(
                                self,
                            )@.listeners[b].anime_info.id);
                        } else {
                            assert(old(self)@.listeners[a].anime_info.id
                                != anime_status@.anime_info.id);
                        }
                    }
                    assert(statuses_wf(self@.listeners));
                }
            },
        }
    }

    /// Recovers the listeners on startup: one is started for every stored
    /// status still marked watching.
    pub fn init_anime_listener(&mut self)
        requires
            old(self)@.wf(),
        ensures
            final(self)@.wf(),
            final(self)@.listeners == spec_init_upto(
                old(self)@.listeners,
                old(self)@.store.statuses,
                old(self)@.store.statuses.len() as int,
            ),
            final(self)@.store == old(self)@.store,
            final(self)@.cache == old(self)@.cache,
    {
        let all = self.store.get_calenders();
        let mut n: usize = 0;
        while n < all.len()
            invariant
                all.deep_view() == old(self)@.store.statuses,
                n <= all@.len(),
                self@.wf(),
                self@.listeners == spec_init_upto(
                    old(self)@.listeners,
                    old(self)@.store.statuses,
                    n as int,
                ),
                self@.store == old(self)@.store,
                self@.cache == old(self)@.cache,
            decreases all@.len() - n,
        {
            proof {
                assert(all.deep_view()[n as int] == all@[n as int]@);
            }
            if all[n].status {
                self.start_listener(all[n].clone());
            }
            n = n + 1;
        }
    }

    /// One calendar-sync cycle: a listener is started for every entry not
    /// already retired in the store, and the snapshots are then folded
    /// into the store, honouring the lock flag. A status with
    /// `is_lock` keeps its `anime_info` untouched, and a retired series
    /// gets no listener back.
    pub fn sync_calender(&mut self, calendar: Vec<AnimeInfo>)
        requires
            old(self)@.wf(),
        ensures
            final(self)@.wf(),
            final(self)@.listeners == spec_sync_upto(
                old(self)@.listeners,
                old(self)@.store,
                calendar.deep_view(),
                calendar@.len() as int,
            ),
            final(self)@.store.statuses == spec_overlay_upto(
                old(self)@.store.statuses,
                calendar.deep_view(),
                calendar@.len() as int,
            ),
            final(self)@.store.records == old(self)@.store.records,
            final(self)@.store.download_path == old(self)@.store.download_path,
            final(self)@.store.qbit == old(self)@.store.qbit,
            final(self)@.cache == old(self)@.cache,
            forall|id: int|
                #![trigger old(self)@.store.find_status(id)]
                old(self)@.store.find_status(id) is Some && old(
                    self,
                )@.store.find_status(id)->0.is_lock ==> final(self)@.store.find_status(id) == old(
                    self,
                )@.store.find_status(id),
            forall|id: int|
                #![trigger old(self)@.store.find_status(id)]
                old(self)@.store.find_status(id) is Some && !old(
                    self,
                )@.store.find_status(id)->0.status ==> final(self)@.live(id) == old(self)@.live(id),
    {
        let ghost tv0 = self@;
        let ghost infos = calendar.deep_view();
        let mut n: usize = 0;
        while n < calendar.len()
            invariant
                infos == calendar.deep_view(),
                n <= calendar@.len(),
                self@.wf(),
                tv0.wf(),
                self@.listeners == spec_sync_upto(tv0.listeners, tv0.store, infos, n as int),
                self@.store == tv0.store,
                self@.cache == tv0.cache,
            decreases calendar@.len() - n,
        {
            let info = &calendar[n];
            proof {
                assert(infos[n as int] == info@);
            }
            let mut start = true;
            match self.store.get_calender(info.id) {
                Some(st) => {
                    if !st.status {
                        start = false;
                    }
                },
                None => {},
            }
            if start {
                let fresh = AnimeStatus {
                    status: true,
                    rule_name: String::new(),
                    anime_info: info.clone(),
                    is_search: false,
                    is_lock: false,
                    progress: 0,
                };
                proof {
                    assert(fresh@ == spec_default_status(info@));
                }
                self.start_listener(fresh);
            }
            proof {
                assert(self@.listeners == spec_sync_upto(tv0.listeners, tv0.store, infos, n + 1));
            }
            n = n + 1;
        }
        self.store.set_calenders(&calendar);
        proof {
            lemma_overlay_props(tv0.store.statuses, infos, infos.len() as int);
            assert forall|id: int|
                #![trigger tv0.store.find_status(id)]
                tv0.store.find_status(id) is Some && tv0.store.find_status(id)->0.is_lock implies
                self@.store.find_status(id) == tv0.store.find_status(id) by {
                lemma_status_idx(tv0.store.statuses, id, 0);
                let i = status_idx(tv0.store.statuses, id, 0)->0;
                let ov = spec_overlay_upto(tv0.store.statuses, infos, infos.len() as int);
                assert(ov[i] == tv0.store.statuses[i]);
                assert forall|j: int| 0 <= j < i implies ov[j].anime_info.id != id by {
                    assert(same_but_info(tv0.store.statuses[j], ov[j]));
                }
                crate::store::lemma_status_idx_first(ov, id, i);
            }
            assert forall|id: int|
                #![trigger tv0.store.find_status(id)]
                tv0.store.find_status(id) is Some && !tv0.store.find_status(id)->0.status implies
                self@.live(id) == tv0.live(id) by {
                lemma_sync_keeps_retired(tv0.listeners, tv0.store, infos, infos.len() as int, id);
            }
        }
    }

    /// Weighs one tagged item for one series, as [`spec_after_eval`]
    /// describes: the listener's snapshot is refreshed from the store,
    /// the name gate and the date gate are applied, and the first
    /// admitted item binds the sticky rule and persists it. Returns
    /// whether the item is to be admitted.
    pub fn check_anime_rules(&mut self, id: i64, msg: &RssItem) -> (admitted: bool)
        requires
            old(self)@.wf(),
        ensures
            final(self)@.wf(),
            admitted == spec_admits(old(self)@, id as int, msg@),
            final(self)@ == spec_after_eval(old(self)@, id as int, msg@),
    {
        let pos = match self.listener_pos(id) {
            Some(p) => p,
            None => {
                return false;
            },
        };
        let mut l = self.listeners[pos].clone();
        proof {
            assert(self@.listeners[pos as int] == self.listeners@[pos as int]@);
            assert(l@.anime_info.id == id as int) by {
                lemma_status_idx(self@.listeners, id as int, 0);
            }
        }
        match self.store.get_calender(id) {
            Some(st) => {
                l.anime_info = st.anime_info;
            },
            None => {},
        }
        let ghost l1 = spec_refresh(
            old(self)@.listeners[pos as int],
            old(self)@.store.find_status(id as int),
        );
        proof {
            assert(l@ == l1);
            assert(l1.anime_info.id == id as int) by {
                lemma_status_idx(old(self)@.store.statuses, id as int, 0);
            }
        }

        let aliases = l.anime_info.names();
        let ghost al = aliases.deep_view();
        let mut named = false;
        let mut j: usize = 0;
        while j < aliases.len()
            invariant
                al == aliases.deep_view(),
                j <= aliases@.len(),
                named == exists|k: int| 0 <= k < j && spec_contains(msg@.title, #[trigger] al[k]),
            decreases aliases@.len() - j,
        {
            proof {
                assert(al[j as int] == aliases@[j as int]@);
            }
            if contains_sub(msg.title.as_str(), aliases[j].as_str()) {
                named = true;
                proof {
                    assert(spec_contains(msg@.title, al[j as int]));
                }
            }
            j = j + 1;
        }
        proof {
            assert(named == spec_named(l1.anime_info, msg@.title));
        }

        let gate = crate::dates::date_gate_passes(&msg.pub_date, l.anime_info.air_date.as_str());

        if !named || !gate {
            self.listeners.set(pos, l);
            proof {
                assert(!spec_admits(old(self)@, id as int, msg@));
                assert(self@.listeners =~= old(self)@.listeners.update(pos as int, l1));
                assert(self@ == spec_after_eval(old(self)@, id as int, msg@));
                lemma_update_same_id_wf(old(self)@.listeners, pos as int, l1);
            }
            return false;
        }

        if l.rule_name.as_str().is_empty() {
            l.rule_name = msg.rule_name.clone();
            let ghost l2 = (AnimeStatusV { rule_name: msg@.rule_name, ..l1 });
            proof {
                assert(l@ == l2);
                assert(spec_admits(old(self)@, id as int, msg@));
            }
            self.store.set_calender(l.clone());
            self.listeners.set(pos, l);
            proof {
                assert(self@.listeners =~= old(self)@.listeners.update(pos as int, l2));
                assert(self@.store == (StoreV {
                    statuses: spec_upsert_status(old(self)@.store.statuses, l2),
                    ..old(self)@.store
                }));
                assert(self@ == spec_after_eval(old(self)@, id as int, msg@));
                lemma_update_same_id_wf(old(self)@.listeners, pos as int, l2);
            }
            true
        } else {
            let same = crate::strutil::eq_str(l.rule_name.as_str(), msg.rule_name.as_str());
            self.listeners.set(pos, l);
            proof {
                assert(same == spec_admits(old(self)@, id as int, msg@));
                assert(self@.listeners =~= old(self)@.listeners.update(pos as int, l1));
                assert(self@ == spec_after_eval(old(self)@, id as int, msg@));
                lemma_update_same_id_wf(old(self)@.listeners, pos as int, l1);
            }
            same
        }
    }

    /// Admits one item for one series, as [`spec_handle_rss`] describes:
    /// de-duplicates on the info hash, requires both configuration values
    /// and a verified dispatch before a fresh record is written, then
    /// recomputes the season progress and either retires the series,
    /// advances its progress, or leaves it standing. The returned task,
    /// when present, is the retirement signal for the supervisor.
    pub fn handle_rss(&mut self, id: i64, msg: &RssItem, info_hash: &str, dispatch_ok: bool) -> (task:
        Option<AnimeTask>)
        requires
            old(self)@.wf(),
        ensures
            final(self)@.wf(),
            final(self)@ == spec_handle_rss(old(self)@, id as int, msg@, info_hash@, dispatch_ok).0,
            match task {
                Some(t) => spec_handle_rss(old(self)@, id as int, msg@, info_hash@, dispatch_ok).1
                    == Some(t@),
                None => spec_handle_rss(old(self)@, id as int, msg@, info_hash@, dispatch_ok).1
                    is None,
            },
    {
        let had = match self.store.get_anime_record(id, info_hash) {
            Some(_) => true,
            None => false,
        };
        if !had {
            let config_ok = match (self.store.get_qbit(), self.store.get_path()) {
                (Some(_), Some(_)) => true,
                _ => false,
            };
            if !config_ok || !dispatch_ok {
                return None;
            }
            let record = AnimeRssRecord {
                title: msg.title.clone(),
                magnet: msg.magnet.clone(),
                rule_name: msg.rule_name.clone(),
                info_hash: String::from_str(info_hash),
            };
            self.store.set_anime_recode(id, record);
        }
        self.progress_step(id)
    }

    /// Recomputes the season progress out of the stored records and
    /// applies the outcome, as [`spec_progress_step`] describes.
    fn progress_step(&mut self, id: i64) -> (task: Option<AnimeTask>)
        requires
            old(self)@.wf(),
        ensures
            final(self)@.wf(),
            final(self)@ == spec_progress_step(old(self)@, id as int).0,
            match task {
                Some(t) => spec_progress_step(old(self)@, id as int).1 == Some(t@),
                None => spec_progress_step(old(self)@, id as int).1 is None,
            },
    {
        let list = match self.store.get_anime_rss_recodes(id) {
            Some(list) => list,
            None => {
                return None;
            },
        };
        let eps_found = crate::progress::season_eps(&list);
        let p = eps_found.len();
        proof {
            assert(p as int == crate::progress::spec_season_eps(
                self@.store.records_of(id as int)->0,
            ).len());
        }
        let st = match self.store.get_calender(id) {
            Some(st) => st,
            None => {
                return None;
            },
        };
        let ghost stv = old(self)@.store.find_status(id as int)->0;
        proof {
            assert(st@ == stv);
            assert(stv.anime_info.id == id as int) by {
                lemma_status_idx(old(self)@.store.statuses, id as int, 0);
            }
        }
        if st.anime_info.eps > 0 && (p as u64) >= (st.anime_info.eps as u64) {
            let mut st2 = st;
            st2.status = false;
            st2.progress = p;
            let task_info = st2.anime_info.clone();
            proof {
                assert(st2@ == (AnimeStatusV { status: false, progress: p as int, ..stv }));
            }
            self.store.set_calender(st2);
            match self.listener_pos(id) {
                Some(pos) => {
                    let ghost ls0 = self@.listeners;
                    self.listeners.remove(pos);
                    proof {
                        assert(self@.listeners =~= ls0.remove(pos as int));
                        assert(self@.listeners =~= spec_drop_listener(ls0, id as int));
                        lemma_remove_wf(ls0, pos as int);
                    }
                },
                None => {
                    proof {
                        assert(self@.listeners =~= spec_drop_listener(self@.listeners, id as int));
                    }
                },
            }
            Some(AnimeTask { info: task_info, cancel: true })
        } else if p > st.progress {
            let mut st3 = st;
            st3.progress = p;
            proof {
                assert(st3@ == (AnimeStatusV { progress: p as int, ..stv }));
            }
            self.store.set_calender(st3);
            None
        } else {
            None
        }
    }

    /// One whole listener turn, as [`spec_listener_step`] describes:
    /// `info_hash` is the derived hash of the item (`None` when the
    /// derivation failed) and `dispatch_ok` the torrent client's verdict.
    pub fn listener_step(
        &mut self,
        id: i64,
        msg: &RssItem,
        info_hash: Option<&String>,
        dispatch_ok: bool,
    ) -> (task: Option<AnimeTask>)
        requires
            old(self)@.wf(),
        ensures
            final(self)@.wf(),
            final(self)@ == spec_listener_step(
                old(self)@,
                id as int,
                msg@,
                info_hash.deep_view(),
                dispatch_ok,
            ).0,
            match task {
                Some(t) => spec_listener_step(
                    old(self)@,
                    id as int,
                    msg@,
                    info_hash.deep_view(),
                    dispatch_ok,
                ).1 == Some(t@),
                None => spec_listener_step(
                    old(self)@,
                    id as int,
                    msg@,
                    info_hash.deep_view(),
                    dispatch_ok,
                ).1 is None,
            },
    {
        if !self.is_listening(id) {
            return None;
        }
        let admitted = self.check_anime_rules(id, msg);
        if !admitted {
            return None;
        }
        match info_hash {
            None => None,
            Some(h) => self.handle_rss(id, msg, h.as_str(), dispatch_ok),
        }
    }

    /// What a dispatch to the torrent client needs: the configured client
    /// settings and the save path
    /// `{download_path}/{search_name}/S{season:02}`; `None` while either
    /// configuration value is missing, in which case nothing may be
    /// dispatched or recorded.
    pub fn qbit_request(&self, anime: &AnimeInfo) -> (r: Option<(QbitConfig, String)>)
        ensures
            r is Some <==> self@.store.qbit is Some && self@.store.download_path is Some,
            r is Some ==> ({
                let t = r->0;
                self@.store.qbit == Some(t.0@) && t.1@ == spec_save_path(
                    self@.store.download_path->0,
                    anime@.search_name,
                    anime@.season,
                )
            }),
    {
        let q = match self.store.get_qbit() {
            Some(q) => q,
            None => {
                return None;
            },
        };
        let root = match self.store.get_path() {
            Some(p) => p,
            None => {
                return None;
            },
        };
        let ghost rootv = root@;
        let mut path = root;
        let rl = path.as_str().unicode_len();
        let sep_needed = if rl == 0 {
            false
        } else {
            path.as_str().get_char(rl - 1) != '/'
        };
        if sep_needed {
            path.append("/");
        }
        path.append(anime.search_name.as_str());
        path.append("/S");
        let pad = crate::strutil::i64_to_pad2(anime.season);
        path.append(pad.as_str());
        proof {
            reveal_strlit("/");
            reveal_strlit("/S");
            assert(path@ =~= spec_save_path(rootv, anime@.search_name, anime@.season));
        }
        Some((q, path))
    }

    /// The status stored for a series, as the repository hands it out.
    pub fn get_calender(&self, id: i64) -> (r: Option<AnimeStatus>)
        ensures
            r.deep_view() == self@.store.find_status(id as int),
    {
        self.store.get_calender(id)
    }

    /// Every stored status, in storage order.
    pub fn get_calenders(&self) -> (r: Vec<AnimeStatus>)
        ensures
            r.deep_view() == self@.store.statuses,
    {
        self.store.get_calenders()
    }

    /// Writes a status under its id — the operator-edit write, which
    /// ignores the lock flag.
    pub fn set_calender(&mut self, anime: AnimeStatus)
        requires
            old(self)@.wf(),
        ensures
            final(self)@.wf(),
            final(self)@.store.statuses == spec_upsert_status(old(self)@.store.statuses, anime@),
            final(self)@.store.records == old(self)@.store.records,
            final(self)@.store.download_path == old(self)@.store.download_path,
            final(self)@.store.qbit == old(self)@.store.qbit,
            final(self)@.cache == old(self)@.cache,
            final(self)@.listeners == old(self)@.listeners,
    {
        self.store.set_calender(anime);
    }

    /// The record stored under `(anime_id, info_hash)`, if any.
    pub fn get_anime_record(&self, anime_id: i64, info_hash: &str) -> (r: Option<AnimeRssRecord>)
        ensures
            r is Some <==> self@.store.has_record(anime_id as int, info_hash@),
    {
        self.store.get_anime_record(anime_id, info_hash)
    }

    /// All records stored for a series, in admission order.
    pub fn get_anime_rss_recodes(&self, anime_id: i64) -> (r: Option<Vec<AnimeRssRecord>>)
        ensures
            r.deep_view() == self@.store.records_of(anime_id as int),
    {
        self.store.get_anime_rss_recodes(anime_id)
    }

    /// Sets the download path.
    pub fn set_path(&mut self, path: String)
        requires
            old(self)@.wf(),
        ensures
            final(self)@.wf(),
            final(self)@.store.download_path == Some(path@),
            final(self)@.store.statuses == old(self)@.store.statuses,
            final(self)@.store.records == old(self)@.store.records,
            final(self)@.store.qbit == old(self)@.store.qbit,
            final(self)@.cache == old(self)@.cache,
            final(self)@.listeners == old(self)@.listeners,
    {
        self.store.set_path(path);
    }

    /// Sets the torrent-client settings.
    pub fn set_qbit(&mut self, config: QbitConfig)
        requires
            old(self)@.wf(),
        ensures
            final(self)@.wf(),
            final(self)@.store.qbit == Some(config@),
            final(self)@.store.statuses == old(self)@.store.statuses,
            final(self)@.store.records == old(self)@.store.records,
            final(self)@.store.download_path == old(self)@.store.download_path,
            final(self)@.cache == old(self)@.cache,
            final(self)@.listeners == old(self)@.listeners,
    {
        self.store.set_qbit(config);
    }

    /// The targeted search fetches for one feed template, as
    /// [`spec_search_targets`] describes: a `(series id, url)` pair per
    /// accepted alias of every status marked for search whose listener is
    /// live. The caller fetches each url and sends the tagged items to
    /// that series alone.
    pub fn search_targets(&self, search_url: &str) -> (r: Vec<(i64, String)>)
        ensures
            r@.map_values(|p: (i64, String)| (p.0 as int, p.1@)) == spec_search_targets(
                self@,
                search_url@,
                self@.store.statuses.len() as int,
            ),
    {
        let all = self.store.get_calenders();
        let mut r: Vec<(i64, String)> = Vec::new();
        let mut n: usize = 0;
        while n < all.len()
            invariant
                all.deep_view() == self@.store.statuses,
                n <= all@.len(),
                r@.map_values(|p: (i64, String)| (p.0 as int, p.1@)) == spec_search_targets(
                    self@,
                    search_url@,
                    n as int,
                ),
            decreases all@.len() - n,
        {
            let st = &all[n];
            proof {
                assert(all.deep_view()[n as int] == st@);
            }
            if st.is_search && self.is_listening(st.anime_info.id) {
                let aliases = st.anime_info.names();
                let ghost al = aliases.deep_view();
                let mut j: usize = 0;
                while j < aliases.len()
                    invariant
                        al == aliases.deep_view(),
                        al == self@.store.statuses[n as int].anime_info.aliases(),
                        n < all@.len(),
                        all.deep_view() == self@.store.statuses,
                        (st.anime_info.id as int) == self@.store.statuses[n as int].anime_info.id,
                        j <= aliases@.len(),
                        r@.map_values(|p: (i64, String)| (p.0 as int, p.1@)) == spec_search_targets(
                            self@,
                            search_url@,
                            n as int,
                        ) + spec_alias_urls(search_url@, al, j as int).map_values(
                            |u: Seq<char>| (self@.store.statuses[n as int].anime_info.id, u),
                        ),
                    decreases aliases@.len() - j,
                {
                    proof {
                        assert(al[j as int] == aliases@[j as int]@);
                    }
                    let ghost rmap0 = r@.map_values(|p: (i64, String)| (p.0 as int, p.1@));
                    match format_search_url(search_url, aliases[j].as_str()) {
                        Some(url) => {
                            proof {
                                assert(formatx_one(search_url@, al[j as int]) == Some(url@));
                                assert(spec_alias_urls(search_url@, al, j + 1)
                                    == spec_alias_urls(search_url@, al, j as int).push(url@));
                            }
                            let pair = (st.anime_info.id, url);
                            let ghost pv = (pair.0 as int, pair.1@);
                            r.push(pair);
                            proof {
                                assert(r@.map_values(|p: (i64, String)| (p.0 as int, p.1@))
                                    =~= rmap0.push(pv));
                            }
                        },
                        None => {
                            proof {
                                assert(formatx_one(search_url@, al[j as int]) is None);
                                assert(spec_alias_urls(search_url@, al, j + 1)
                                    == spec_alias_urls(search_url@, al, j as int));
                            }
                        },
                    }
                    proof {
                        assert(r@.map_values(|p: (i64, String)| (p.0 as int, p.1@))
                            =~= spec_search_targets(self@, search_url@, n as int)
                            + spec_alias_urls(search_url@, al, j + 1).map_values(
                            |u: Seq<char>| (self@.store.statuses[n as int].anime_info.id, u),
                        ));
                    }
                    j = j + 1;
                }
                proof {
                    assert(r@.map_values(|p: (i64, String)| (p.0 as int, p.1@))
                        =~= spec_search_targets(self@, search_url@, n + 1));
                }
            } else {
                proof {
                    assert(r@.map_values(|p: (i64, String)| (p.0 as int, p.1@))
                        =~= spec_search_targets(self@, search_url@, n + 1));
                }
            }
            n = n + 1;
        }
        r
    }

    /// Reconciles the rule cache against the rule repository, as
    /// [`spec_reconcile`] describes: dropped rules leave, unchanged ones
    /// stay, changed sources are recompiled, new ones are appended, and a
    /// source that does not compile is skipped without disturbing the
    /// rest.
    pub fn check_update_rules(&mut self, rules: &Vec<Rule>)
        requires
            old(self)@.wf(),
        ensures
            final(self)@.wf(),
            final(self)@.cache == spec_reconcile(old(self)@.cache, rules.deep_view()),
            final(self)@.store == old(self)@.store,
            final(self)@.listeners == old(self)@.listeners,
    {
        proof {
            assert(cache_valid(self.rules_re@)) by {
                assert forall|i: int| 0 <= i < self.rules_re@.len() implies crate::rules::regex_valid(
                    (#[trigger] self.rules_re@[i]).src_v(),
                ) by {
                    assert(self@.cache[i] == (self.rules_re@[i].name_v(), self.rules_re@[i].src_v()));
                }
            }
        }
        reconcile_rules(&mut self.rules_re, rules);
        proof {
            assert(cache_srcs_valid(self@.cache)) by {
                assert forall|i: int| 0 <= i < self@.cache.len() implies crate::rules::regex_valid(
                    (#[trigger] self@.cache[i]).1,
                ) by {
                    assert(self@.cache[i] == (self.rules_re@[i].name_v(), self.rules_re@[i].src_v()));
                }
            }
        }
    }

    /// Filters and tags one fetched channel's entries against the cache,
    /// ready for the broadcast, as [`spec_tag_items`] describes.
    pub fn tag_channel(&self, items: &Vec<FeedItem>) -> (r: Vec<RssItem>)
        ensures
            r.deep_view() == spec_tag_items(self@.cache, items.deep_view(), items@.len() as int),
    {
        tag_feed_items(&self.rules_re, items)
    }

}

/// What formatting a template against one positional argument returns.
pub uninterp spec fn formatx_one(tmpl: Seq<char>, arg: Seq<char>) -> Option<Seq<char>>;

/// Relies on formatx (`Template::new`, `render`, `arg`, `finish`): formats
/// a template against one positional argument; the result depends on the
/// template and the argument alone; `None` when the template does not
/// parse or wants other arguments.
#[verifier::external_body]
fn format_search_url(tmpl: &str, name: &str) -> (r: Option<String>)
    ensures
        r.deep_view() == formatx_one(tmpl@, name@),
{
    let template = match formatx::Template::new(tmpl) {
        Ok(t) => t,
        Err(_) => return None,
    };
    template.render().arg(&name).finish().ok()
}

/// The search urls one series contributes under one template: one per
/// alias that the template accepts, in alias order.
pub open spec fn spec_alias_urls(tmpl: Seq<char>, aliases: Seq<Seq<char>>, n: int) -> Seq<Seq<char>>
    decreases n,
{
    if n <= 0 {
        Seq::empty()
    } else {
        let rest = spec_alias_urls(tmpl, aliases, n - 1);
        match formatx_one(tmpl, aliases[n - 1]) {
            Some(u) => rest.push(u),
            None => rest,
        }
    }
}

/// The targeted search fetches one poll cycle performs for one template:
/// for every stored status that is marked for search and has a live
/// listener, one url per accepted alias, paired with the series id.
pub open spec fn spec_search_targets(tv: TaskerV, tmpl: Seq<char>, n: int) -> Seq<(int, Seq<char>)>
    decreases n,
{
    if n <= 0 {
        Seq::empty()
    } else {
        let prev = spec_search_targets(tv, tmpl, n - 1);
        let st = tv.store.statuses[n - 1];
        if st.is_search && tv.live(st.anime_info.id) {
            let urls = spec_alias_urls(
                tmpl,
                st.anime_info.aliases(),
                st.anime_info.aliases().len() as int,
            );
            prev + urls.map_values(|u: Seq<char>| (st.anime_info.id, u))
        } else {
            prev
        }
    }
}

/// Single dispatch, first half: an item whose `(series, info hash)` key
/// is already recorded leaves the records untouched, however often it is
/// received.
pub proof fn lemma_single_dispatch(tv: TaskerV, id: int, item: RssItemV, hash: Seq<char>, ok: bool)
    requires
        tv.wf(),
        tv.store.has_record(id, hash),
    ensures
        spec_handle_rss(tv, id, item, hash, ok).0.store.records == tv.store.records,
{
}

/// Single dispatch, second half: a well-formed store never holds two
/// records under one `(series, info hash)` key.
pub proof fn lemma_at_most_one_record(s: StoreV, id: int, a: int, b: int)
    requires
        s.wf(),
        s.records_of(id) is Some,
        0 <= a < s.records_of(id)->0.len(),
        0 <= b < s.records_of(id)->0.len(),
        s.records_of(id)->0[a].info_hash == s.records_of(id)->0[b].info_hash,
    ensures
        a == b,
{
    crate::store::lemma_rec_idx(s.records, id, 0);
    let i = crate::store::rec_idx(s.records, id, 0)->0;
    if a != b {
        if a < b {
            assert(s.records[i].1[a].info_hash != s.records[i].1[b].info_hash);
        } else {
            assert(s.records[i].1[b].info_hash != s.records[i].1[a].info_hash);
        }
    }
}

/// The sticky rule: once a listener's rule name is bound, every admitted
/// item carries exactly that rule.
pub proof fn lemma_sticky_rule(tv: TaskerV, id: int, item: RssItemV)
    requires
        spec_admits(tv, id, item),
        tv.listeners[status_idx(tv.listeners, id, 0)->0].rule_name.len() > 0,
    ensures
        item.rule_name == tv.listeners[status_idx(tv.listeners, id, 0)->0].rule_name,
{
}

/// The name gate: every admitted item carries some alias of the series
/// as a substring of its title.
pub proof fn lemma_name_gate(tv: TaskerV, id: int, item: RssItemV)
    requires
        spec_admits(tv, id, item),
    ensures
        ({
            let l1 = spec_refresh(
                tv.listeners[status_idx(tv.listeners, id, 0)->0],
                tv.store.find_status(id),
            );
            spec_named(l1.anime_info, item.title)
        }),
{
}

/// The date gate: when both dates parse, every admitted item was
/// published no more than eight days before the season start.
pub proof fn lemma_date_gate(tv: TaskerV, id: int, item: RssItemV)
    requires
        spec_admits(tv, id, item),
        item.pub_date is Some,
        crate::dates::rfc2822_day(item.pub_date->0) is Some,
        ({
            let l1 = spec_refresh(
                tv.listeners[status_idx(tv.listeners, id, 0)->0],
                tv.store.find_status(id),
            );
            crate::dates::iso_date(l1.anime_info.air_date) is Some
        }),
    ensures
        ({
            let l1 = spec_refresh(
                tv.listeners[status_idx(tv.listeners, id, 0)->0],
                tv.store.find_status(id),
            );
            let parsed = crate::dates::iso_date(l1.anime_info.air_date)->0;
            crate::dates::rfc2822_day(item.pub_date->0)->0 + 8 >= parsed.0
        }),
{
}

/// The retirement latch, first half: a series without a live listener is
/// never touched by a listener turn — no record, no status write, no
/// signal.
pub proof fn lemma_retirement_latch(
    tv: TaskerV,
    id: int,
    item: RssItemV,
    hash: Option<Seq<char>>,
    ok: bool,
)
    requires
        !tv.live(id),
    ensures
        spec_listener_step(tv, id, item, hash, ok).0 == tv,
        spec_listener_step(tv, id, item, hash, ok).1 is None,
{
}

/// The retirement latch, second half: the step that retires a series
/// marks its stored status retired, records the analyzer count as its
/// progress, evicts its listener, and only ever fires for a declared
/// episode count.
pub proof fn lemma_retire_evicts(tv: TaskerV, id: int)
    requires
        tv.wf(),
        spec_progress_step(tv, id).1 is Some,
    ensures
        !spec_progress_step(tv, id).0.live(id),
        tv.store.find_status(id) is Some,
        tv.store.find_status(id)->0.anime_info.eps > 0,
        spec_progress_step(tv, id).0.store.find_status(id) is Some,
        !spec_progress_step(tv, id).0.store.find_status(id)->0.status,
{
    let st = tv.store.find_status(id)->0;
    lemma_status_idx(tv.store.statuses, id, 0);
    let list = tv.store.records_of(id)->0;
    let p = crate::progress::spec_season_eps(list).len() as int;
    let st2 = AnimeStatusV { status: false, progress: p, ..st };
    lemma_upsert_find(tv.store.statuses, st2);
    lemma_drop_listener_gone(tv.listeners, id);
}

/// No retirement without a declared episode count: a series whose
/// snapshot says `eps == 0` waits indefinitely.
pub proof fn lemma_no_retire_without_eps(tv: TaskerV, id: int)
    ensures
        spec_progress_step(tv, id).1 is Some ==> tv.store.find_status(id) is Some
            && tv.store.find_status(id)->0.anime_info.eps > 0,
{
}

/// What one evaluation turn can and cannot change: records, cache and
/// configuration stand; the listener stays live; well-formedness
/// survives; and weighing the very same item again decides the same way.
pub proof fn lemma_after_eval_facts(tv: TaskerV, id: int, item: RssItemV)
    requires
        tv.wf(),
        tv.live(id),
    ensures
        ({
            let e = spec_after_eval(tv, id, item);
            &&& e.wf()
            &&& e.live(id)
            &&& e.store.records == tv.store.records
            &&& e.store.download_path == tv.store.download_path
            &&& e.store.qbit == tv.store.qbit
            &&& e.cache == tv.cache
            &&& spec_admits(e, id, item) == spec_admits(tv, id, item)
        }),
{
    let i = status_idx(tv.listeners, id, 0)->0;
    lemma_status_idx(tv.listeners, id, 0);
    let l = tv.listeners[i];
    let stf = tv.store.find_status(id);
    if stf is Some {
        lemma_status_idx(tv.store.statuses, id, 0);
    }
    let l1 = spec_refresh(l, stf);
    assert(l1.anime_info.id == id);
    let e = spec_after_eval(tv, id, item);
    if spec_admits(tv, id, item) && l1.rule_name.len() == 0 {
        let l2 = AnimeStatusV { rule_name: item.rule_name, ..l1 };
        assert(e.listeners == tv.listeners.update(i, l2));
        assert forall|j: int|
            0 <= j < e.listeners.len() implies (#[trigger] e.listeners[j]).anime_info.id == (
        #[trigger] tv.listeners[j]).anime_info.id by {}
        lemma_status_idx_same_ids(e.listeners, tv.listeners, id, 0);
        lemma_update_same_id_wf(tv.listeners, i, l2);
        lemma_upsert_find(tv.store.statuses, l2);
        assert(e.store.find_status(id) == Some(l2));
        assert(e.listeners[i] == l2);
        let l1e = spec_refresh(l2, Some(l2));
        assert(l1e == l2);
        assert(l2.anime_info == l1.anime_info);
        assert(spec_admits(e, id, item));
    } else {
        assert(e.listeners == tv.listeners.update(i, l1));
        assert forall|j: int|
            0 <= j < e.listeners.len() implies (#[trigger] e.listeners[j]).anime_info.id == (
        #[trigger] tv.listeners[j]).anime_info.id by {}
        lemma_status_idx_same_ids(e.listeners, tv.listeners, id, 0);
        lemma_update_same_id_wf(tv.listeners, i, l1);
        assert(e.store == tv.store);
        assert(e.listeners[i] == l1);
        let l1e = spec_refresh(l1, stf);
        assert(l1e == l1);
        assert(spec_admits(e, id, item) == spec_admits(tv, id, item));
    }
}

/// What one admission turn can and cannot change: cache and configuration
/// stand; a recorded key stays recorded and is never written twice; a
/// successful fresh dispatch records its key; a blocked dispatch changes
/// nothing at all; retirement evicts the listener; well-formedness
/// survives.
pub proof fn lemma_handle_facts(tv: TaskerV, id: int, item: RssItemV, hash: Seq<char>, ok: bool)
    requires
        tv.wf(),
    ensures
        ({
            let s = spec_handle_rss(tv, id, item, hash, ok).0;
            let t = spec_handle_rss(tv, id, item, hash, ok).1;
            let config_ok = tv.store.download_path is Some && tv.store.qbit is Some;
            &&& s.wf()
            &&& s.cache == tv.cache
            &&& s.store.download_path == tv.store.download_path
            &&& s.store.qbit == tv.store.qbit
            &&& (t is Some ==> !s.live(id))
            &&& (t is None ==> s.listeners == tv.listeners)
            &&& (tv.store.has_record(id, hash) ==> s.store.records == tv.store.records)
            &&& (tv.store.has_record(id, hash) || (config_ok && ok) ==> s.store.has_record(
                id,
                hash,
            ))
            &&& (!tv.store.has_record(id, hash) && !(config_ok && ok) ==> s == tv && t is None)
        }),
{
    let s = spec_handle_rss(tv, id, item, hash, ok).0;
    let t = spec_handle_rss(tv, id, item, hash, ok).1;
    let had = tv.store.has_record(id, hash);
    let config_ok = tv.store.download_path is Some && tv.store.qbit is Some;
    if !had && !(config_ok && ok) {
    } else {
        let rec = AnimeRssRecordV {
            title: item.title,
            magnet: item.magnet,
            rule_name: item.rule_name,
            info_hash: hash,
        };
        let store1 = if had {
            tv.store
        } else {
            StoreV { records: spec_add_record(tv.store.records, id, rec), ..tv.store }
        };
        if !had {
            crate::store::lemma_add_record_props(tv.store.records, id, rec);
            assert(store1.has_record(id, hash));
        }
        assert(store1.has_record(id, hash));
        let tv1 = TaskerV { store: store1, ..tv };
        let stepped = spec_progress_step(tv1, id);
        assert(s == stepped.0 && t == stepped.1);
        match tv1.store.records_of(id) {
            None => {},
            Some(list) => {
                let p = crate::progress::spec_season_eps(list).len() as int;
                match tv1.store.find_status(id) {
                    None => {},
                    Some(st) => {
                        lemma_status_idx(tv1.store.statuses, id, 0);
                        if st.anime_info.eps > 0 && p >= st.anime_info.eps {
                            let st2 = AnimeStatusV { status: false, progress: p, ..st };
                            lemma_upsert_find(tv1.store.statuses, st2);
                            lemma_drop_listener_gone(tv1.listeners, id);
                            lemma_status_idx(tv1.listeners, id, 0);
                            match status_idx(tv1.listeners, id, 0) {
                                Some(li) => {
                                    lemma_remove_wf(tv1.listeners, li);
                                },
                                None => {},
                            }
                        } else if p > st.progress {
                            let st3 = AnimeStatusV { progress: p, ..st };
                            lemma_upsert_find(tv1.store.statuses, st3);
                        }
                    },
                }
            },
        }
    }
}

/// Polling unchanged feeds against unchanged rules a second time writes
/// no further records: taking the very same listener turn again, with the
/// same derived hash and the same dispatch verdict, leaves the records
/// exactly as the first turn left them.
pub proof fn lemma_recheck_adds_nothing(
    tv: TaskerV,
    id: int,
    item: RssItemV,
    hash: Option<Seq<char>>,
    ok: bool,
)
    requires
        tv.wf(),
    ensures
        ({
            let s1 = spec_listener_step(tv, id, item, hash, ok).0;
            let s2 = spec_listener_step(s1, id, item, hash, ok).0;
            s2.store.records == s1.store.records
        }),
{
    let s1 = spec_listener_step(tv, id, item, hash, ok).0;
    if !tv.live(id) {
        assert(s1 == tv);
    } else {
        lemma_after_eval_facts(tv, id, item);
        let e = spec_after_eval(tv, id, item);
        if !spec_admits(tv, id, item) {
            assert(s1 == e);
            assert(!spec_admits(s1, id, item));
            lemma_after_eval_facts(s1, id, item);
        } else {
            match hash {
                None => {
                    assert(s1 == e);
                    lemma_after_eval_facts(s1, id, item);
                },
                Some(h) => {
                    lemma_handle_facts(e, id, item, h, ok);
                    let t1 = spec_handle_rss(e, id, item, h, ok).1;
                    assert(s1 == spec_handle_rss(e, id, item, h, ok).0);
                    if t1 is Some {
                        assert(!s1.live(id));
                    } else {
                        assert(s1.listeners == e.listeners);
                        assert(s1.live(id));
                        lemma_after_eval_facts(s1, id, item);
                        if !spec_admits(s1, id, item) {
                        } else {
                            let e2 = spec_after_eval(s1, id, item);
                            let config_ok = e.store.download_path is Some && e.store.qbit is Some;
                            if e.store.has_record(id, h) || (config_ok && ok) {
                                assert(s1.store.has_record(id, h));
                                assert(e2.store.has_record(id, h)) by {
                                    assert(e2.store.records == s1.store.records);
                                }
                                lemma_handle_facts(e2, id, item, h, ok);
                            } else {
                                assert(s1 == e);
                                assert(!e2.store.has_record(id, h)) by {
                                    assert(e2.store.records == s1.store.records);
                                }
                                assert(e2.store.download_path == s1.store.download_path);
                                assert(e2.store.qbit == s1.store.qbit);
                                lemma_handle_facts(e2, id, item, h, ok);
                                assert(spec_handle_rss(e2, id, item, h, ok).0 == e2);
                            }
                        }
                    }
                },
            }
        }
    }
}

/// Progress is monotone across the persists of one status lifetime: no
/// progress-step outcome lowers any stored progress, as long as a
/// retirement's analyzer count is no smaller than the progress already
/// stored.
pub proof fn lemma_progress_monotone(tv: TaskerV, id: int)
    requires
        tv.wf(),
        spec_progress_step(tv, id).1 is Some ==> ({
            let list = tv.store.records_of(id)->0;
            crate::progress::spec_season_eps(list).len() as int
                >= tv.store.find_status(id)->0.progress
        }),
    ensures
        forall|x: int|
            tv.store.find_status(x) is Some && #[trigger] spec_progress_step(
                tv,
                id,
            ).0.store.find_status(x) is Some ==> spec_progress_step(
                tv,
                id,
            ).0.store.find_status(x)->0.progress >= tv.store.find_status(x)->0.progress,
{
    let after = spec_progress_step(tv, id).0;
    match tv.store.records_of(id) {
        None => {},
        Some(list) => {
            let p = crate::progress::spec_season_eps(list).len() as int;
            match tv.store.find_status(id) {
                None => {},
                Some(st) => {
                    lemma_status_idx(tv.store.statuses, id, 0);
                    if st.anime_info.eps > 0 && p >= st.anime_info.eps {
                        let st2 = AnimeStatusV { status: false, progress: p, ..st };
                        lemma_upsert_find(tv.store.statuses, st2);
                        assert forall|x: int|
                            tv.store.find_status(x) is Some && #[trigger] after.store.find_status(
                                x,
                            ) is Some implies after.store.find_status(x)->0.progress
                            >= tv.store.find_status(x)->0.progress by {
                            if x != id {
                                lemma_status_idx(after.store.statuses, x, 0);
                            }
                        }
                    } else if p > st.progress {
                        let st3 = AnimeStatusV { progress: p, ..st };
                        lemma_upsert_find(tv.store.statuses, st3);
                        assert forall|x: int|
                            tv.store.find_status(x) is Some && #[trigger] after.store.find_status(
                                x,
                            ) is Some implies after.store.find_status(x)->0.progress
                            >= tv.store.find_status(x)->0.progress by {
                            if x != id {
                                lemma_status_idx(after.store.statuses, x, 0);
                            }
                        }
                    }
                },
            }
        },
    }
}

} // verus!
