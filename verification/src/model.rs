//! Domain types of the tracker and their mathematical views.
//!
//! Every executable type here carries a `View` into a plain record over
//! `int`, `bool`, `Seq<char>` and `Option`, and all contracts in this crate
//! speak of those views.

use vstd::prelude::*;

verus! {

/// Abstract value of an [`AnimeInfo`].
pub struct AnimeInfoV {
    pub id: int,
    pub name: Seq<char>,
    pub weekday: int,
    pub eps: int,
    pub air_date: Seq<char>,
    pub name_tw: Seq<char>,
    pub name_cn: Seq<char>,
    pub season: int,
    pub search_name: Seq<char>,
    pub alternative_titles: Option<Seq<Seq<char>>>,
}

impl AnimeInfoV {
    /// The alias set of the series: the alternative titles when present,
    /// otherwise the non-empty primary titles in order.
    pub open spec fn aliases(self) -> Seq<Seq<char>> {
        match self.alternative_titles {
            Some(ts) => ts,
            None => {
                let s0 = Seq::<Seq<char>>::empty();
                let s1 = if self.name.len() > 0 {
                    s0.push(self.name)
                } else {
                    s0
                };
                let s2 = if self.name_tw.len() > 0 {
                    s1.push(self.name_tw)
                } else {
                    s1
                };
                if self.name_cn.len() > 0 {
                    s2.push(self.name_cn)
                } else {
                    s2
                }
            },
        }
    }
}

/// Immutable snapshot of one series at one season, as minted by calendar
/// synchronisation.
#[derive(Debug)]
pub struct AnimeInfo {
    pub id: i64,
    pub name: String,
    pub weekday: i64,
    pub eps: i64,
    pub air_date: String,
    pub name_tw: String,
    pub name_cn: String,
    pub season: i64,
    pub search_name: String,
    pub alternative_titles: Option<Vec<String>>,
}

impl View for AnimeInfo {
    type V = AnimeInfoV;

    open spec fn view(&self) -> AnimeInfoV {
        AnimeInfoV {
            id: self.id as int,
            name: self.name@,
            weekday: self.weekday as int,
            eps: self.eps as int,
            air_date: self.air_date@,
            name_tw: self.name_tw@,
            name_cn: self.name_cn@,
            season: self.season as int,
            search_name: self.search_name@,
            alternative_titles: self.alternative_titles.deep_view(),
        }
    }
}

impl Clone for AnimeInfo {
    fn clone(&self) -> (r: Self)
        ensures
            r@ == self@,
    {
        AnimeInfo {
            id: self.id,
            name: self.name.clone(),
            weekday: self.weekday,
            eps: self.eps,
            air_date: self.air_date.clone(),
            name_tw: self.name_tw.clone(),
            name_cn: self.name_cn.clone(),
            season: self.season,
            search_name: self.search_name.clone(),
            alternative_titles: clone_opt_strings(&self.alternative_titles),
        }
    }
}

impl AnimeInfo {
    /// The alias list used for title matching: `alternative_titles` when
    /// present, otherwise the non-empty primary titles.
    pub fn names(&self) -> (r: Vec<String>)
        ensures
            r.deep_view() == self@.aliases(),
    {
        match &self.alternative_titles {
            Some(titles) => {
                let r = clone_strings(titles);
                assert(r.deep_view() =~= self@.aliases());
                r
            },
            None => {
                let mut r: Vec<String> = Vec::new();
                if !self.name.as_str().is_empty() {
                    r.push(self.name.clone());
                }
                if !self.name_tw.as_str().is_empty() {
                    r.push(self.name_tw.clone());
                }
                if !self.name_cn.as_str().is_empty() {
                    r.push(self.name_cn.clone());
                }
                assert(r.deep_view() =~= self@.aliases());
                r
            },
        }
    }
}

/// Clones a vector of strings, keeping its abstract value.
pub fn clone_strings(v: &Vec<String>) -> (r: Vec<String>)
    ensures
        r.deep_view() == v.deep_view(),
{
    let mut r: Vec<String> = Vec::new();
    let mut i: usize = 0;
    while i < v.len()
        invariant
            i <= v.len(),
            r@.len() == i,
            forall|j: int| 0 <= j < i ==> r@[j]@ == v@[j]@,
        decreases v.len() - i,
    {
        r.push(v[i].clone());
        i = i + 1;
    }
    assert(r.deep_view() =~= v.deep_view());
    r
}

/// Clones an optional vector of strings, keeping its abstract value.
pub fn clone_opt_strings(v: &Option<Vec<String>>) -> (r: Option<Vec<String>>)
    ensures
        r.deep_view() == v.deep_view(),
{
    match v {
        Some(ts) => Some(clone_strings(ts)),
        None => None,
    }
}

/// Abstract value of an [`AnimeStatus`].
pub struct AnimeStatusV {
    pub status: bool,
    pub rule_name: Seq<char>,
    pub anime_info: AnimeInfoV,
    pub is_search: bool,
    pub is_lock: bool,
    pub progress: int,
}

/// Mutable tracking record of one series; `status` is `true` while the
/// series is watched and `false` once it is retired.
#[derive(Debug)]
pub struct AnimeStatus {
    pub status: bool,
    pub rule_name: String,
    pub anime_info: AnimeInfo,
    pub is_search: bool,
    pub is_lock: bool,
    pub progress: usize,
}

impl View for AnimeStatus {
    type V = AnimeStatusV;

    open spec fn view(&self) -> AnimeStatusV {
        AnimeStatusV {
            status: self.status,
            rule_name: self.rule_name@,
            anime_info: self.anime_info@,
            is_search: self.is_search,
            is_lock: self.is_lock,
            progress: self.progress as int,
        }
    }
}

impl Clone for AnimeStatus {
    fn clone(&self) -> (r: Self)
        ensures
            r@ == self@,
    {
        AnimeStatus {
            status: self.status,
            rule_name: self.rule_name.clone(),
            anime_info: self.anime_info.clone(),
            is_search: self.is_search,
            is_lock: self.is_lock,
            progress: self.progress,
        }
    }
}

/// Abstract value of an [`AnimeRssRecord`].
pub struct AnimeRssRecordV {
    pub title: Seq<char>,
    pub magnet: Seq<char>,
    pub rule_name: Seq<char>,
    pub info_hash: Seq<char>,
}

/// One admitted episode download; immutable once written, unique per
/// `(anime_id, info_hash)`.
#[derive(Debug)]
pub struct AnimeRssRecord {
    pub title: String,
    pub magnet: String,
    pub rule_name: String,
    pub info_hash: String,
}

impl View for AnimeRssRecord {
    type V = AnimeRssRecordV;

    open spec fn view(&self) -> AnimeRssRecordV {
        AnimeRssRecordV {
            title: self.title@,
            magnet: self.magnet@,
            rule_name: self.rule_name@,
            info_hash: self.info_hash@,
        }
    }
}

impl Clone for AnimeRssRecord {
    fn clone(&self) -> (r: Self)
        ensures
            r@ == self@,
    {
        AnimeRssRecord {
            title: self.title.clone(),
            magnet: self.magnet.clone(),
            rule_name: self.rule_name.clone(),
            info_hash: self.info_hash.clone(),
        }
    }
}

/// Abstract value of an [`RssItem`].
pub struct RssItemV {
    pub title: Seq<char>,
    pub magnet: Seq<char>,
    pub pub_date: Option<Seq<char>>,
    pub rule_name: Seq<char>,
}

/// One item taken from a feed, tagged with the first matching rule before
/// it is handed to the listeners.
#[derive(Debug)]
pub struct RssItem {
    pub title: String,
    pub magnet: String,
    pub pub_date: Option<String>,
    pub rule_name: String,
}

impl View for RssItem {
    type V = RssItemV;

    open spec fn view(&self) -> RssItemV {
        RssItemV {
            title: self.title@,
            magnet: self.magnet@,
            pub_date: self.pub_date.deep_view(),
            rule_name: self.rule_name@,
        }
    }
}

impl Clone for RssItem {
    fn clone(&self) -> (r: Self)
        ensures
            r@ == self@,
    {
        RssItem {
            title: self.title.clone(),
            magnet: self.magnet.clone(),
            pub_date: match &self.pub_date {
                Some(d) => Some(d.clone()),
                None => None,
            },
            rule_name: self.rule_name.clone(),
        }
    }
}

/// Abstract value of a [`Rule`].
pub struct RuleV {
    pub name: Seq<char>,
    pub cost: int,
    pub re: Seq<char>,
}

/// A named tagging rule: a regular-expression source and an ordering cost
/// (lower cost first on ties).
#[derive(Debug)]
pub struct Rule {
    pub name: String,
    pub cost: usize,
    pub re: String,
}

impl View for Rule {
    type V = RuleV;

    open spec fn view(&self) -> RuleV {
        RuleV { name: self.name@, cost: self.cost as int, re: self.re@ }
    }
}

impl Clone for Rule {
    fn clone(&self) -> (r: Self)
        ensures
            r@ == self@,
    {
        Rule { name: self.name.clone(), cost: self.cost, re: self.re.clone() }
    }
}

/// Abstract value of an [`RSS`] feed.
pub struct RssFeedV {
    pub id: Seq<char>,
    pub url: Option<Seq<char>>,
    pub title: Seq<char>,
    pub search_url: Option<Seq<char>>,
}

/// One configured feed: an optional whole-site url and an optional search
/// template with one `{}` placeholder for a series alias.
#[derive(Debug)]
pub struct RSS {
    pub id: String,
    pub url: Option<String>,
    pub title: String,
    pub search_url: Option<String>,
}

impl View for RSS {
    type V = RssFeedV;

    open spec fn view(&self) -> RssFeedV {
        RssFeedV {
            id: self.id@,
            url: self.url.deep_view(),
            title: self.title@,
            search_url: self.search_url.deep_view(),
        }
    }
}

impl Clone for RSS {
    fn clone(&self) -> (r: Self)
        ensures
            r@ == self@,
    {
        RSS {
            id: self.id.clone(),
            url: match &self.url {
                Some(u) => Some(u.clone()),
                None => None,
            },
            title: self.title.clone(),
            search_url: match &self.search_url {
                Some(u) => Some(u.clone()),
                None => None,
            },
        }
    }
}

/// Abstract value of an [`AnimeTask`].
pub struct AnimeTaskV {
    pub info: AnimeInfoV,
    pub cancel: bool,
}

/// Retirement signal sent on the supervision bus when a series finishes.
#[derive(Debug)]
pub struct AnimeTask {
    pub info: AnimeInfo,
    pub cancel: bool,
}

impl View for AnimeTask {
    type V = AnimeTaskV;

    open spec fn view(&self) -> AnimeTaskV {
        AnimeTaskV { info: self.info@, cancel: self.cancel }
    }
}

impl Clone for AnimeTask {
    fn clone(&self) -> (r: Self)
        ensures
            r@ == self@,
    {
        AnimeTask { info: self.info.clone(), cancel: self.cancel }
    }
}

/// Abstract value of a [`QbitConfig`].
pub struct QbitConfigV {
    pub url: Seq<char>,
    pub username: Seq<char>,
    pub password: Seq<char>,
}

/// Connection settings of the torrent client.
#[derive(Debug)]
pub struct QbitConfig {
    pub url: String,
    pub username: String,
    pub password: String,
}

impl View for QbitConfig {
    type V = QbitConfigV;

    open spec fn view(&self) -> QbitConfigV {
        QbitConfigV { url: self.url@, username: self.username@, password: self.password@ }
    }
}

impl Clone for QbitConfig {
    fn clone(&self) -> (r: Self)
        ensures
            r@ == self@,
    {
        QbitConfig {
            url: self.url.clone(),
            username: self.username.clone(),
            password: self.password.clone(),
        }
    }
}

/// Abstract value of a [`FeedItem`].
pub struct FeedItemV {
    pub title: Option<Seq<char>>,
    pub enclosure_url: Option<Seq<char>>,
    pub link: Option<Seq<char>>,
    pub pub_date: Option<Seq<char>>,
}

/// One raw entry of a fetched RSS channel, reduced to the fields the engine
/// reads: title, enclosure url, link and publication date.
#[derive(Debug)]
pub struct FeedItem {
    pub title: Option<String>,
    pub enclosure_url: Option<String>,
    pub link: Option<String>,
    pub pub_date: Option<String>,
}

impl View for FeedItem {
    type V = FeedItemV;

    open spec fn view(&self) -> FeedItemV {
        FeedItemV {
            title: self.title.deep_view(),
            enclosure_url: self.enclosure_url.deep_view(),
            link: self.link.deep_view(),
            pub_date: self.pub_date.deep_view(),
        }
    }
}

impl DeepView for AnimeInfo {
    type V = AnimeInfoV;

    open spec fn deep_view(&self) -> AnimeInfoV {
        self.view()
    }
}

impl DeepView for AnimeStatus {
    type V = AnimeStatusV;

    open spec fn deep_view(&self) -> AnimeStatusV {
        self.view()
    }
}

impl DeepView for AnimeRssRecord {
    type V = AnimeRssRecordV;

    open spec fn deep_view(&self) -> AnimeRssRecordV {
        self.view()
    }
}

impl DeepView for RssItem {
    type V = RssItemV;

    open spec fn deep_view(&self) -> RssItemV {
        self.view()
    }
}

impl DeepView for Rule {
    type V = RuleV;

    open spec fn deep_view(&self) -> RuleV {
        self.view()
    }
}

impl DeepView for RSS {
    type V = RssFeedV;

    open spec fn deep_view(&self) -> RssFeedV {
        self.view()
    }
}

impl DeepView for FeedItem {
    type V = FeedItemV;

    open spec fn deep_view(&self) -> FeedItemV {
        self.view()
    }
}

impl DeepView for QbitConfig {
    type V = QbitConfigV;

    open spec fn deep_view(&self) -> QbitConfigV {
        self.view()
    }
}

/// A request for one series' records.
#[derive(Debug)]
pub struct AnimeRecordReq {
    pub name_id: i64,
}

/// A request to create or change a feed.
#[derive(Debug)]
pub struct RSSReq {
    pub id: Option<String>,
    pub url: Option<String>,
    pub title: Option<String>,
    pub search_url: Option<String>,
}

/// A request to delete a feed.
#[derive(Debug)]
pub struct DelRSS {
    pub id: String,
}

/// A request to delete a rule.
#[derive(Debug)]
pub struct DelRule {
    pub name: String,
}

} // verus!
