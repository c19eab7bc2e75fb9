//! Calendar enrichment: the decisions that turn one broadcast-calendar
//! entry plus the metadata provider's answers into a final series
//! snapshot.
//!
//! The season suffixes are stripped off a name before it is searched:
//! a `第N期` marker is cut out, and the name is truncated at the first
//! digit run that a `Season` word follows and at the first `Season` word
//! itself, trimming after each step. A search result is picked by the
//! year and month of its first air date, with the first result as the
//! fallback, and only a Japanese original survives. The last listed
//! season is accepted, the declared episode count falls back to that
//! season's, and the alias set is the union of the alternative titles and
//! the three names, first occurrence first.

use vstd::prelude::*;
use vstd::string::StrSliceExecFns;
use vstd::string::StringExecFns;
use crate::dates::{iso_date, parse_iso_date};
use crate::model::{AnimeInfo, AnimeInfoV};
use crate::progress::{digit_run_end, digit_run_len, is_digit, is_digit_char, lemma_digit_run_len};
use crate::strutil::eq_str;

verus! {

/// One entry of the broadcast calendar, reduced to what tracking needs.
#[derive(Debug)]
pub struct CalenderAnime {
    pub id: i64,
    pub name: String,
    pub weekday: i64,
    pub eps: i64,
    pub air_date: String,
}

/// Abstract value of a [`CalenderAnime`].
pub struct CalenderAnimeV {
    pub id: int,
    pub name: Seq<char>,
    pub weekday: int,
    pub eps: int,
    pub air_date: Seq<char>,
}

impl View for CalenderAnime {
    type V = CalenderAnimeV;

    open spec fn view(&self) -> CalenderAnimeV {
        CalenderAnimeV {
            id: self.id as int,
            name: self.name@,
            weekday: self.weekday as int,
            eps: self.eps as int,
            air_date: self.air_date@,
        }
    }
}

/// The weekday labels of the broadcast calendar.
#[derive(Debug)]
pub struct Weekday {
    pub en: String,
    pub cn: String,
    pub ja: String,
    pub id: i64,
}

/// One subject of the broadcast calendar.
#[derive(Debug)]
pub struct Item {
    pub id: i64,
    pub type_field: i64,
    pub name: String,
    pub name_cn: String,
    pub summary: String,
    pub eps: Option<i64>,
    pub air_date: Option<String>,
}

/// One weekday's worth of the broadcast calendar.
#[derive(Debug)]
pub struct BgmCalender {
    pub weekday: Weekday,
    pub items: Vec<Item>,
}

/// The search modes of the metadata provider.
#[derive(Debug)]
pub enum SearchEnum {
    Multi,
    TV,
    Movie,
}

impl SearchEnum {
    /// The path segment of a search mode.
    pub fn as_str(&self) -> (r: &'static str)
        ensures
            match self {
                SearchEnum::TV => r@ == "tv"@,
                SearchEnum::Multi => r@ == "multi"@,
                SearchEnum::Movie => r@ == "movie"@,
            },
    {
        match self {
            SearchEnum::TV => "tv",
            SearchEnum::Multi => "multi",
            SearchEnum::Movie => "movie",
        }
    }
}

/// One search result of the metadata provider, reduced to what the
/// enrichment reads.
#[derive(Debug)]
pub struct SearchEntry {
    pub adult: bool,
    pub id: i64,
    pub name: Option<String>,
    pub original_language: Option<String>,
    pub first_air_date: Option<String>,
}

/// Abstract value of a [`SearchEntry`].
pub struct SearchEntryV {
    pub adult: bool,
    pub id: int,
    pub name: Option<Seq<char>>,
    pub original_language: Option<Seq<char>>,
    pub first_air_date: Option<Seq<char>>,
}

impl View for SearchEntry {
    type V = SearchEntryV;

    open spec fn view(&self) -> SearchEntryV {
        SearchEntryV {
            adult: self.adult,
            id: self.id as int,
            name: self.name.deep_view(),
            original_language: self.original_language.deep_view(),
            first_air_date: self.first_air_date.deep_view(),
        }
    }
}

impl DeepView for SearchEntry {
    type V = SearchEntryV;

    open spec fn deep_view(&self) -> SearchEntryV {
        self.view()
    }
}

impl Clone for SearchEntry {
    fn clone(&self) -> (r: Self)
        ensures
            r@ == self@,
    {
        SearchEntry {
            adult: self.adult,
            id: self.id,
            name: clone_opt_string(&self.name),
            original_language: clone_opt_string(&self.original_language),
            first_air_date: clone_opt_string(&self.first_air_date),
        }
    }
}

/// Clones an optional string, keeping its abstract value.
fn clone_opt_string(v: &Option<String>) -> (r: Option<String>)
    ensures
        r.deep_view() == v.deep_view(),
{
    match v {
        Some(s) => Some(s.clone()),
        None => None,
    }
}

/// One listed season of a series.
#[derive(Debug)]
pub struct Season {
    pub air_date: Option<String>,
    pub episode_count: i64,
    pub id: i64,
    pub name: Option<String>,
    pub season_number: i64,
}

/// Abstract value of a [`Season`].
pub struct SeasonV {
    pub air_date: Option<Seq<char>>,
    pub episode_count: int,
    pub id: int,
    pub name: Option<Seq<char>>,
    pub season_number: int,
}

impl View for Season {
    type V = SeasonV;

    open spec fn view(&self) -> SeasonV {
        SeasonV {
            air_date: self.air_date.deep_view(),
            episode_count: self.episode_count as int,
            id: self.id as int,
            name: self.name.deep_view(),
            season_number: self.season_number as int,
        }
    }
}

impl DeepView for Season {
    type V = SeasonV;

    open spec fn deep_view(&self) -> SeasonV {
        self.view()
    }
}

impl Clone for Season {
    fn clone(&self) -> (r: Self)
        ensures
            r@ == self@,
    {
        Season {
            air_date: clone_opt_string(&self.air_date),
            episode_count: self.episode_count,
            id: self.id,
            name: clone_opt_string(&self.name),
            season_number: self.season_number,
        }
    }
}

/// The details of one series: its provider name and its listed seasons.
#[derive(Debug)]
pub struct SeriesResult {
    pub adult: bool,
    pub name: Option<String>,
    pub seasons: Vec<Season>,
}

/// One listed episode of a season.
#[derive(Debug)]
pub struct Episode {
    pub episode_number: i64,
    pub name: String,
    pub season_number: i64,
}

/// The episodes of one season.
#[derive(Debug)]
pub struct SeasonResult {
    pub episodes: Vec<Episode>,
}

/// A spoken language of a series.
#[derive(Debug)]
pub struct SpokenLanguage {
    pub english_name: Option<String>,
    pub iso_639_1: Option<String>,
    pub name: Option<String>,
}

/// A production company of a series.
#[derive(Debug)]
pub struct ProductionCompany {
    pub id: i64,
    pub logo_path: Option<String>,
    pub name: Option<String>,
    pub origin_country: Option<String>,
}

/// A production country of a series.
#[derive(Debug)]
pub struct ProductionCountry {
    pub iso_3166_1: Option<String>,
    pub name: Option<String>,
}

/// The calendar entry one broadcast subject yields: it must declare a
/// positive episode count, and its air date falls back to the calendar's
/// own when the subject carries none; a subject with neither is dropped.
pub open spec fn spec_calendar_entry(
    subject: crate::enrich::ItemV,
    list_air_date: Option<Seq<char>>,
    weekday: int,
) -> Option<CalenderAnimeV> {
    match subject.eps {
        None => None,
        Some(eps) => if eps <= 0 {
            None
        } else {
            let air = match subject.air_date {
                Some(d) => Some(d),
                None => list_air_date,
            };
            match air {
                None => None,
                Some(d) => Some(
                    CalenderAnimeV {
                        id: subject.id,
                        name: subject.name,
                        weekday: weekday,
                        eps: eps,
                        air_date: d,
                    },
                ),
            }
        },
    }
}

/// Abstract value of an [`Item`].
pub struct ItemV {
    pub id: int,
    pub type_field: int,
    pub name: Seq<char>,
    pub name_cn: Seq<char>,
    pub summary: Seq<char>,
    pub eps: Option<int>,
    pub air_date: Option<Seq<char>>,
}

impl View for Item {
    type V = ItemV;

    open spec fn view(&self) -> ItemV {
        ItemV {
            id: self.id as int,
            type_field: self.type_field as int,
            name: self.name@,
            name_cn: self.name_cn@,
            summary: self.summary@,
            eps: match self.eps {
                Some(e) => Some(e as int),
                None => None,
            },
            air_date: self.air_date.deep_view(),
        }
    }
}

/// Decides the calendar entry for one broadcast subject, as
/// [`spec_calendar_entry`] describes.
pub fn calendar_entry(subject: &Item, list_air_date: &Option<String>, weekday: i64) -> (r: Option<
    CalenderAnime,
>)
    ensures
        match r {
            Some(c) => spec_calendar_entry(subject@, list_air_date.deep_view(), weekday as int)
                == Some(c@),
            None => spec_calendar_entry(subject@, list_air_date.deep_view(), weekday as int)
                is None,
        },
{
    let eps = match subject.eps {
        Some(e) => e,
        None => {
            return None;
        },
    };
    if eps <= 0 {
        return None;
    }
    let air: Option<String> = match &subject.air_date {
        Some(d) => Some(d.clone()),
        None => match list_air_date {
            Some(d) => Some(d.clone()),
            None => None,
        },
    };
    match air {
        None => None,
        Some(d) => Some(
            CalenderAnime {
                id: subject.id,
                name: subject.name.clone(),
                weekday,
                eps,
                air_date: d,
            },
        ),
    }
}

// --- name sanitation -------------------------------------------------

/// The whitespace the sanitation trims.
pub open spec fn is_space(c: char) -> bool {
    c == ' ' || c == '\t' || c == '\r' || c == '\n'
}

/// Count of leading whitespace characters from position `i` on.
pub open spec fn leading_spaces(s: Seq<char>, i: int) -> int
    decreases s.len() - i,
{
    if i < 0 || i >= s.len() || !is_space(s[i]) {
        0
    } else {
        1 + leading_spaces(s, i + 1)
    }
}

/// Count of trailing whitespace characters.
pub open spec fn trailing_spaces(s: Seq<char>) -> int
    decreases s.len(),
{
    if s.len() == 0 || !is_space(s.last()) {
        0
    } else {
        1 + trailing_spaces(s.drop_last())
    }
}

/// The string with its leading and trailing whitespace removed.
pub open spec fn spec_trim(s: Seq<char>) -> Seq<char> {
    let a = leading_spaces(s, 0);
    let b = s.len() - trailing_spaces(s);
    if a <= b {
        s.subrange(a, b)
    } else {
        Seq::empty()
    }
}

proof fn lemma_leading_spaces(s: Seq<char>, i: int)
    requires
        0 <= i <= s.len(),
    ensures
        0 <= leading_spaces(s, i),
        i + leading_spaces(s, i) <= s.len(),
        forall|k: int| i <= k < i + leading_spaces(s, i) ==> is_space(#[trigger] s[k]),
        i + leading_spaces(s, i) < s.len() ==> !is_space(s[i + leading_spaces(s, i)]),
    decreases s.len() - i,
{
    if !(i < 0 || i >= s.len() || !is_space(s[i])) {
        lemma_leading_spaces(s, i + 1);
    }
}

proof fn lemma_trailing_spaces_at(s: Seq<char>, b: int)
    requires
        0 <= b <= s.len(),
        forall|k: int| b <= k < s.len() ==> is_space(#[trigger] s[k]),
        b > 0 ==> !is_space(s[b - 1]),
    ensures
        trailing_spaces(s) == s.len() - b,
    decreases s.len(),
{
    if s.len() == 0 {
    } else if b == s.len() {
        if b > 0 {
            assert(!is_space(s.last()));
        }
    } else {
        assert(is_space(s.last()));
        lemma_trailing_spaces_at(s.drop_last(), b);
    }
}

/// Removes leading and trailing whitespace, as [`spec_trim`] describes.
pub fn trim_str(s: &str) -> (r: String)
    ensures
        r@ == spec_trim(s@),
{
    let len = s.unicode_len();
    let mut a: usize = 0;
    while a < len && is_space_char(s.get_char(a))
        invariant
            len == s@.len(),
            a <= len,
            leading_spaces(s@, 0) == a + leading_spaces(s@, a as int),
        decreases len - a,
    {
        proof {
            assert(leading_spaces(s@, a as int) == 1 + leading_spaces(s@, a + 1));
        }
        a = a + 1;
    }
    proof {
        assert(leading_spaces(s@, a as int) == 0);
        assert(leading_spaces(s@, 0) == a);
    }
    if a == len {
        proof {
            assert(forall|k: int| 0 <= k < s@.len() ==> is_space(#[trigger] s@[k])) by {
                lemma_leading_spaces(s@, 0);
            }
            lemma_trailing_spaces_at(s@, 0);
        }
        let r = String::new();
        proof {
            assert(spec_trim(s@) =~= Seq::<char>::empty());
        }
        return r;
    }
    let mut b: usize = len;
    while b > a && is_space_char(s.get_char(b - 1))
        invariant
            len == s@.len(),
            a <= b <= len,
            a < len,
            !is_space(s@[a as int]),
            forall|k: int| b <= k < len ==> is_space(#[trigger] s@[k]),
        decreases b,
    {
        b = b - 1;
    }
    proof {
        assert(b > a);
        assert(!is_space(s@[b - 1]));
        lemma_trailing_spaces_at(s@, b as int);
    }
    let piece = s.substring_char(a, b);
    let r = String::from_str(piece);
    proof {
        assert(r@ =~= spec_trim(s@));
    }
    r
}

/// Decides whether `c` is whitespace the sanitation trims.
fn is_space_char(c: char) -> (b: bool)
    ensures
        b == is_space(c),
{
    c == ' ' || c == '\t' || c == '\r' || c == '\n'
}

/// The first position of a `第N期` marker at or after `i`: the marker
/// character, at least one digit, and the closing character.
pub open spec fn cn_marker(s: Seq<char>, i: int) -> Option<int>
    decreases s.len() - i,
{
    if i < 0 || i >= s.len() {
        None
    } else if s[i] == '第' && digit_run_len(s, i + 1) >= 1 && i + 1 + digit_run_len(s, i + 1)
        < s.len() && s[i + 1 + digit_run_len(s, i + 1)] == '期' {
        Some(i)
    } else {
        cn_marker(s, i + 1)
    }
}

/// The name with its first `第N期` marker cut out.
pub open spec fn spec_strip_cn(s: Seq<char>) -> Seq<char> {
    match cn_marker(s, 0) {
        Some(i) => {
            let d = digit_run_len(s, i + 1);
            s.subrange(0, i) + s.subrange(i + 1 + d + 1, s.len() as int)
        },
        None => s,
    }
}

/// Cuts the first `第N期` marker out of the name.
pub fn strip_cn_marker(s: &str) -> (r: String)
    ensures
        r@ == spec_strip_cn(s@),
{
    let len = s.unicode_len();
    let mut i: usize = 0;
    while i < len
        invariant
            len == s@.len(),
            i <= len,
            cn_marker(s@, 0) == cn_marker(s@, i as int),
        decreases len - i,
    {
        if s.get_char(i) == '第' {
            let e = digit_run_end(s, len, i + 1);
            proof {
                lemma_digit_run_len(s@, i + 1);
            }
            if e > i + 1 && e < len && s.get_char(e) == '期' {
                let head = s.substring_char(0, i);
                let tail = s.substring_char(e + 1, len);
                let r = crate::strutil::concat_str(head, tail);
                proof {
                    assert(cn_marker(s@, i as int) == Some(i as int));
                    assert(r@ =~= spec_strip_cn(s@));
                }
                return r;
            }
        }
        proof {
            assert(cn_marker(s@, i as int) == cn_marker(s@, i + 1));
        }
        i = i + 1;
    }
    proof {
        assert(cn_marker(s@, i as int) is None);
    }
    String::from_str(s)
}

/// A `Season` word (either capitalisation) stands at `j`.
pub open spec fn season_at(s: Seq<char>, j: int) -> bool {
    0 <= j && j + 6 <= s.len() && (s[j] == 'S' || s[j] == 's') && s.subrange(j + 1, j + 6)
        == "eason"@
}

/// The first `Season` word at or after `j`.
pub open spec fn first_season(s: Seq<char>, j: int) -> Option<int>
    decreases s.len() - j,
{
    if j < 0 || j >= s.len() {
        None
    } else if season_at(s, j) {
        Some(j)
    } else {
        first_season(s, j + 1)
    }
}

/// The first digit at or after `i` that some `Season` word follows.
pub open spec fn first_digit_then_season(s: Seq<char>, i: int) -> Option<int>
    decreases s.len() - i,
{
    if i < 0 || i >= s.len() {
        None
    } else if is_digit(s[i]) && first_season(s, i + 1) is Some {
        Some(i)
    } else {
        first_digit_then_season(s, i + 1)
    }
}

/// The name truncated at the first digit that a `Season` word follows.
pub open spec fn spec_strip_digit_season(s: Seq<char>) -> Seq<char> {
    match first_digit_then_season(s, 0) {
        Some(i) => s.subrange(0, i),
        None => s,
    }
}

/// The name truncated at the first `Season` word.
pub open spec fn spec_strip_season(s: Seq<char>) -> Seq<char> {
    match first_season(s, 0) {
        Some(j) => s.subrange(0, j),
        None => s,
    }
}

/// Finds the first `Season` word at or after `j`.
fn find_season_from(s: &str, len: usize, j: usize) -> (r: Option<usize>)
    requires
        len == s@.len(),
        j <= len,
    ensures
        match r {
            Some(p) => first_season(s@, j as int) == Some(p as int) && p < len,
            None => first_season(s@, j as int) is None,
        },
{
    let mut p = j;
    while p < len
        invariant
            len == s@.len(),
            j <= p <= len,
            first_season(s@, j as int) == first_season(s@, p as int),
        decreases len - p,
    {
        if len - p >= 6 && (s.get_char(p) == 'S' || s.get_char(p) == 's') {
            let word = s.substring_char(p + 1, p + 6);
            proof {
                reveal_strlit("eason");
            }
            if eq_str(word, "eason") {
                proof {
                    assert(season_at(s@, p as int));
                }
                return Some(p);
            }
        }
        proof {
            assert(!season_at(s@, p as int));
            assert(first_season(s@, p as int) == first_season(s@, p + 1));
        }
        p = p + 1;
    }
    None
}

/// Truncates the name at the first digit that a `Season` word follows, as
/// [`spec_strip_digit_season`] describes.
pub fn strip_digit_season(s: &str) -> (r: String)
    ensures
        r@ == spec_strip_digit_season(s@),
{
    let len = s.unicode_len();
    let mut i: usize = 0;
    while i < len
        invariant
            len == s@.len(),
            i <= len,
            first_digit_then_season(s@, 0) == first_digit_then_season(s@, i as int),
        decreases len - i,
    {
        if is_digit_char(s.get_char(i)) {
            match find_season_from(s, len, i + 1) {
                Some(_) => {
                    proof {
                        assert(first_digit_then_season(s@, i as int) == Some(i as int));
                    }
                    let piece = s.substring_char(0, i);
                    return String::from_str(piece);
                },
                None => {
                    proof {
                        assert(first_digit_then_season(s@, i as int) == first_digit_then_season(
                            s@,
                            i + 1,
                        ));
                    }
                },
            }
        } else {
            proof {
                assert(first_digit_then_season(s@, i as int) == first_digit_then_season(
                    s@,
                    i + 1,
                ));
            }
        }
        i = i + 1;
    }
    String::from_str(s)
}

/// Truncates the name at the first `Season` word, as
/// [`spec_strip_season`] describes.
pub fn strip_season(s: &str) -> (r: String)
    ensures
        r@ == spec_strip_season(s@),
{
    let len = s.unicode_len();
    match find_season_from(s, len, 0) {
        Some(j) => {
            let piece = s.substring_char(0, j);
            String::from_str(piece)
        },
        None => String::from_str(s),
    }
}

/// Count of trailing digits.
pub open spec fn trailing_digits(s: Seq<char>) -> int
    decreases s.len(),
{
    if s.len() == 0 || !is_digit(s.last()) {
        0
    } else {
        1 + trailing_digits(s.drop_last())
    }
}

/// The name with its trailing digits removed.
pub open spec fn spec_strip_end_digits(s: Seq<char>) -> Seq<char> {
    s.subrange(0, s.len() - trailing_digits(s))
}

proof fn lemma_trailing_digits_at(s: Seq<char>, b: int)
    requires
        0 <= b <= s.len(),
        forall|k: int| b <= k < s.len() ==> is_digit(#[trigger] s[k]),
        b > 0 ==> !is_digit(s[b - 1]),
    ensures
        trailing_digits(s) == s.len() - b,
    decreases s.len(),
{
    if s.len() == 0 {
    } else if b == s.len() {
        if b > 0 {
            assert(!is_digit(s.last()));
        }
    } else {
        assert(is_digit(s.last()));
        lemma_trailing_digits_at(s.drop_last(), b);
    }
}

/// Removes the trailing digits, as [`spec_strip_end_digits`] describes.
pub fn strip_end_digits(s: &str) -> (r: String)
    ensures
        r@ == spec_strip_end_digits(s@),
{
    let len = s.unicode_len();
    let mut b: usize = len;
    while b > 0 && is_digit_char(s.get_char(b - 1))
        invariant
            len == s@.len(),
            b <= len,
            forall|k: int| b <= k < len ==> is_digit(#[trigger] s@[k]),
        decreases b,
    {
        b = b - 1;
    }
    proof {
        lemma_trailing_digits_at(s@, b as int);
    }
    let piece = s.substring_char(0, b);
    String::from_str(piece)
}

/// The sanitized search name: the `第N期` marker cut out, the name
/// truncated at a digit-before-`Season` and at `Season` itself, trimmed
/// after every step.
pub open spec fn spec_sanitize(s: Seq<char>) -> Seq<char> {
    spec_trim(spec_strip_season(spec_trim(spec_strip_digit_season(spec_trim(spec_strip_cn(s))))))
}

/// Sanitizes a series name for search and path composition, as
/// [`spec_sanitize`] describes.
pub fn sanitize_search_name(name: &str) -> (r: String)
    ensures
        r@ == spec_sanitize(name@),
{
    let t1 = trim_str(strip_cn_marker(name).as_str());
    let t2 = trim_str(strip_digit_season(t1.as_str()).as_str());
    let t3 = trim_str(strip_season(t2.as_str()).as_str());
    t3
}

/// The fallback query when a search came back empty: the sanitized name
/// with its trailing digits removed, trimmed.
pub fn search_retry_name(sanitized: &str) -> (r: String)
    ensures
        r@ == spec_trim(spec_strip_end_digits(sanitized@)),
{
    trim_str(strip_end_digits(sanitized).as_str())
}

// --- picking the provider result --------------------------------------

/// Whether a search result's first air date parses and falls in the given
/// year and month.
pub open spec fn entry_date_match(e: SearchEntryV, y: int, m: int) -> bool {
    match e.first_air_date {
        Some(d) => match iso_date(d) {
            Some(t) => t.1 == y && t.2 == m,
            None => false,
        },
        None => false,
    }
}

/// The first result whose first air date falls in the given year and
/// month.
pub open spec fn first_date_match(rs: Seq<SearchEntryV>, y: int, m: int, i: int) -> Option<int>
    decreases rs.len() - i,
{
    if i < 0 || i >= rs.len() {
        None
    } else if entry_date_match(rs[i], y, m) {
        Some(i)
    } else {
        first_date_match(rs, y, m, i + 1)
    }
}

/// The result the enrichment settles on: the first whose first air date
/// shares year and month with the calendar's air date, else the first
/// result; and only a Japanese original survives.
pub open spec fn spec_pick_result(rs: Seq<SearchEntryV>, bgm_air: Seq<char>) -> Option<
    SearchEntryV,
> {
    if rs.len() == 0 {
        None
    } else {
        let chosen = match iso_date(bgm_air) {
            Some(t) => match first_date_match(rs, t.1, t.2, 0) {
                Some(i) => rs[i],
                None => rs[0],
            },
            None => rs[0],
        };
        if chosen.original_language == Some("ja"@) {
            Some(chosen)
        } else {
            None
        }
    }
}

/// Picks the search result for one calendar entry, as
/// [`spec_pick_result`] describes.
pub fn pick_search_result(results: &Vec<SearchEntry>, bgm_air_date: &str) -> (r: Option<
    SearchEntry,
>)
    ensures
        match r {
            Some(e) => spec_pick_result(results.deep_view(), bgm_air_date@) == Some(e@),
            None => spec_pick_result(results.deep_view(), bgm_air_date@) is None,
        },
{
    let ghost rv = results.deep_view();
    if results.len() == 0 {
        return None;
    }
    let mut pick: usize = 0;
    match parse_iso_date(bgm_air_date) {
        Some(t) => {
            let mut i: usize = 0;
            let mut found = false;
            while i < results.len() && !found
                invariant
                    rv == results.deep_view(),
                    i <= results@.len(),
                    !found ==> first_date_match(rv, t.year as int, t.month as int, 0)
                        == first_date_match(rv, t.year as int, t.month as int, i as int),
                    found ==> i < results@.len() && first_date_match(
                        rv,
                        t.year as int,
                        t.month as int,
                        0,
                    ) == Some(i as int),
                decreases results@.len() - i, (if found { 0int } else { 1int }),
            {
                proof {
                    assert(rv[i as int] == results@[i as int]@);
                }
                let matched = match &results[i].first_air_date {
                    Some(d) => match parse_iso_date(d.as_str()) {
                        Some(dt) => dt.year == t.year && dt.month == t.month,
                        None => false,
                    },
                    None => false,
                };
                proof {
                    assert(matched == entry_date_match(rv[i as int], t.year as int, t.month as int));
                }
                if matched {
                    found = true;
                } else {
                    proof {
                        assert(first_date_match(rv, t.year as int, t.month as int, i as int)
                            == first_date_match(rv, t.year as int, t.month as int, i + 1));
                    }
                    i = i + 1;
                }
            }
            if found {
                pick = i;
            } else {
                proof {
                    assert(first_date_match(rv, t.year as int, t.month as int, i as int) is None);
                }
                pick = 0;
            }
        },
        None => {
            pick = 0;
        },
    }
    proof {
        assert(rv[pick as int] == results@[pick as int]@);
    }
    let chosen = &results[pick];
    let ja = match &chosen.original_language {
        Some(lang) => {
            proof {
                reveal_strlit("ja");
            }
            eq_str(lang.as_str(), "ja")
        },
        None => false,
    };
    proof {
        reveal_strlit("ja");
        assert(ja == (rv[pick as int].original_language == Some("ja"@)));
    }
    if ja {
        Some(chosen.clone())
    } else {
        None
    }
}

/// The season the enrichment accepts: the last listed one, provided its
/// number is positive.
pub open spec fn spec_pick_season(ss: Seq<SeasonV>) -> Option<SeasonV> {
    if ss.len() == 0 {
        None
    } else if ss.last().season_number > 0 {
        Some(ss.last())
    } else {
        None
    }
}

/// Picks the season out of the series details, as [`spec_pick_season`]
/// describes.
pub fn pick_season(seasons: &Vec<Season>) -> (r: Option<Season>)
    ensures
        match r {
            Some(se) => spec_pick_season(seasons.deep_view()) == Some(se@),
            None => spec_pick_season(seasons.deep_view()) is None,
        },
{
    if seasons.len() == 0 {
        return None;
    }
    let last = &seasons[seasons.len() - 1];
    proof {
        assert(seasons.deep_view()[seasons@.len() - 1] == last@);
        assert(seasons.deep_view().last() == last@);
    }
    if last.season_number > 0 {
        Some(last.clone())
    } else {
        None
    }
}

/// The episode count the snapshot gets: the calendar's when positive,
/// else the season's when positive, else nothing usable.
pub open spec fn spec_final_eps(bgm_eps: int, season_eps: int) -> Option<int> {
    if bgm_eps > 0 {
        Some(bgm_eps)
    } else if season_eps > 0 {
        Some(season_eps)
    } else {
        None
    }
}

/// Settles the episode count, as [`spec_final_eps`] describes.
pub fn final_eps(bgm_eps: i64, season_eps: i64) -> (r: Option<i64>)
    ensures
        match r {
            Some(e) => spec_final_eps(bgm_eps as int, season_eps as int) == Some(e as int),
            None => spec_final_eps(bgm_eps as int, season_eps as int) is None,
        },
{
    if bgm_eps > 0 {
        Some(bgm_eps)
    } else if season_eps > 0 {
        Some(season_eps)
    } else {
        None
    }
}

/// A title appended unless it is already listed.
pub open spec fn spec_push_unique(acc: Seq<Seq<char>>, x: Seq<char>) -> Seq<Seq<char>> {
    if acc.contains(x) {
        acc
    } else {
        acc.push(x)
    }
}

/// The first `n` titles folded in, first occurrence first.
pub open spec fn spec_unique_upto(xs: Seq<Seq<char>>, n: int) -> Seq<Seq<char>>
    decreases n,
{
    if n <= 0 {
        Seq::empty()
    } else {
        spec_push_unique(spec_unique_upto(xs, n - 1), xs[n - 1])
    }
}

/// The alias set of a snapshot: the alternative titles in order, then the
/// calendar name and the two provider names, each kept once.
pub open spec fn spec_alias_set(
    alt: Seq<Seq<char>>,
    bgm_name: Seq<char>,
    name_cn: Seq<char>,
    name_tw: Seq<char>,
) -> Seq<Seq<char>> {
    spec_push_unique(
        spec_push_unique(
            spec_push_unique(spec_unique_upto(alt, alt.len() as int), bgm_name),
            name_cn,
        ),
        name_tw,
    )
}

/// Whether a title is already listed.
fn contains_title(acc: &Vec<String>, x: &str) -> (b: bool)
    ensures
        b == acc.deep_view().contains(x@),
{
    let mut i: usize = 0;
    while i < acc.len()
        invariant
            i <= acc@.len(),
            forall|j: int| 0 <= j < i ==> acc.deep_view()[j] != x@,
        decreases acc@.len() - i,
    {
        proof {
            assert(acc.deep_view()[i as int] == acc@[i as int]@);
        }
        if eq_str(acc[i].as_str(), x) {
            proof {
                assert(acc.deep_view()[i as int] == x@);
            }
            return true;
        }
        i = i + 1;
    }
    proof {
        assert forall|j: int| 0 <= j < acc.deep_view().len() implies acc.deep_view()[j] != x@ by {}
        assert(!acc.deep_view().contains(x@));
    }
    false
}

/// Appends a title unless it is already listed.
fn push_unique(acc: &mut Vec<String>, x: &str)
    ensures
        final(acc).deep_view() == spec_push_unique(old(acc).deep_view(), x@),
{
    if !contains_title(acc, x) {
        acc.push(String::from_str(x));
        proof {
            assert(acc.deep_view() =~= old(acc).deep_view().push(x@));
        }
    }
}

/// Collects the alias set, as [`spec_alias_set`] describes.
pub fn collect_alias_titles(
    alt: &Vec<String>,
    bgm_name: &str,
    name_cn: &str,
    name_tw: &str,
) -> (r: Vec<String>)
    ensures
        r.deep_view() == spec_alias_set(alt.deep_view(), bgm_name@, name_cn@, name_tw@),
{
    let mut r: Vec<String> = Vec::new();
    let mut n: usize = 0;
    proof {
        assert(r.deep_view() =~= spec_unique_upto(alt.deep_view(), 0));
    }
    while n < alt.len()
        invariant
            n <= alt@.len(),
            r.deep_view() == spec_unique_upto(alt.deep_view(), n as int),
        decreases alt@.len() - n,
    {
        proof {
            assert(alt.deep_view()[n as int] == alt@[n as int]@);
        }
        push_unique(&mut r, alt[n].as_str());
        n = n + 1;
    }
    push_unique(&mut r, bgm_name);
    push_unique(&mut r, name_cn);
    push_unique(&mut r, name_tw);
    r
}

/// The final snapshot one enriched calendar entry yields: the picked
/// result must carry a name, the series details must carry one too and a
/// season with a positive number, and a usable episode count must remain.
pub open spec fn spec_enrich(
    bgm: CalenderAnimeV,
    picked: SearchEntryV,
    series_name: Option<Seq<char>>,
    seasons: Seq<SeasonV>,
    alt: Seq<Seq<char>>,
    search_name: Seq<char>,
) -> Option<AnimeInfoV> {
    match (series_name, picked.name, spec_pick_season(seasons)) {
        (Some(cn), Some(tw), Some(season)) => match spec_final_eps(
            bgm.eps,
            season.episode_count,
        ) {
            Some(eps) => Some(
                AnimeInfoV {
                    id: bgm.id,
                    name: bgm.name,
                    weekday: bgm.weekday,
                    eps: eps,
                    air_date: bgm.air_date,
                    name_tw: tw,
                    name_cn: cn,
                    season: season.season_number,
                    search_name: search_name,
                    alternative_titles: Some(spec_alias_set(alt, bgm.name, cn, tw)),
                },
            ),
            None => None,
        },
        _ => None,
    }
}

/// Builds the final snapshot for one calendar entry out of the picked
/// search result, the series details and the alternative titles, as
/// [`spec_enrich`] describes.
pub fn enrich_entry(
    bgm: &CalenderAnime,
    picked: &SearchEntry,
    series: &SeriesResult,
    alt_titles: &Vec<String>,
    search_name: &str,
) -> (r: Option<AnimeInfo>)
    ensures
        match r {
            Some(info) => spec_enrich(
                bgm@,
                picked@,
                series.name.deep_view(),
                series.seasons.deep_view(),
                alt_titles.deep_view(),
                search_name@,
            ) == Some(info@),
            None => spec_enrich(
                bgm@,
                picked@,
                series.name.deep_view(),
                series.seasons.deep_view(),
                alt_titles.deep_view(),
                search_name@,
            ) is None,
        },
{
    let name_cn = match &series.name {
        Some(n) => n.clone(),
        None => {
            return None;
        },
    };
    let name_tw = match &picked.name {
        Some(n) => n.clone(),
        None => {
            return None;
        },
    };
    let season = match pick_season(&series.seasons) {
        Some(se) => se,
        None => {
            return None;
        },
    };
    let eps = match final_eps(bgm.eps, season.episode_count) {
        Some(e) => e,
        None => {
            return None;
        },
    };
    let aliases = collect_alias_titles(
        alt_titles,
        bgm.name.as_str(),
        name_cn.as_str(),
        name_tw.as_str(),
    );
    Some(
        AnimeInfo {
            id: bgm.id,
            name: bgm.name.clone(),
            weekday: bgm.weekday,
            eps,
            air_date: bgm.air_date.clone(),
            name_tw,
            name_cn,
            season: season.season_number,
            search_name: String::from_str(search_name),
            alternative_titles: Some(aliases),
        },
    )
}

} // verus!
