//! The rule cache: named regular expressions compiled once, reconciled
//! against the rule repository each poll cycle, and used to tag feed items
//! with the first matching rule in cache order.

use vstd::prelude::*;
use crate::model::{FeedItem, FeedItemV, RssItem, Rule, RuleV};
use crate::strutil::eq_str;

verus! {

/// Whether `src` is a valid pattern for the regex engine.
pub uninterp spec fn regex_valid(src: Seq<char>) -> bool;

/// Whether the expression compiled from `src` matches somewhere in `text`;
/// meaningful when `regex_valid(src)` holds.
pub uninterp spec fn regex_match(src: Seq<char>, text: Seq<char>) -> bool;

#[verifier::external_type_specification]
#[verifier::external_body]
pub struct ExRegex(regex::Regex);

/// One cache entry: a rule name together with the pattern source and the
/// expression compiled from it. The fields are private and the only
/// constructor is [`RuleRegex::compile`], so the compiled expression always
/// belongs to the stored source.
pub struct RuleRegex {
    name: String,
    re_str: String,
    re: regex::Regex,
}

impl RuleRegex {
    /// The rule name.
    pub closed spec fn name_v(self) -> Seq<char> {
        self.name@
    }

    /// The pattern source the expression was compiled from.
    pub closed spec fn src_v(self) -> Seq<char> {
        self.re_str@
    }

    /// Relies on `regex::Regex::new`: compiling succeeds exactly for valid
    /// pattern sources, and the entry then stores the given name and source.
    #[verifier::external_body]
    pub fn compile(name: &str, src: &str) -> (r: Option<RuleRegex>)
        ensures
            r is Some <==> regex_valid(src@),
            r is Some ==> r->0.name_v() == name@ && r->0.src_v() == src@,
    {
        match regex::Regex::new(src) {
            Ok(re) => Some(RuleRegex { name: name.to_owned(), re_str: src.to_owned(), re }),
            Err(_) => None,
        }
    }

    /// Relies on `regex::Regex::is_match` of the expression compiled from
    /// `src_v()`: the result depends on the pattern source and the text
    /// alone.
    #[verifier::external_body]
    pub fn is_match(&self, text: &str) -> (b: bool)
        ensures
            b == regex_match(self.src_v(), text@),
    {
        self.re.is_match(text)
    }

    /// The rule name, as stored.
    pub fn name_str(&self) -> (r: &str)
        ensures
            r@ == self.name_v(),
    {
        self.name.as_str()
    }

    /// The pattern source, as stored.
    pub fn src_str(&self) -> (r: &str)
        ensures
            r@ == self.src_v(),
    {
        self.re_str.as_str()
    }
}

/// The cache reduced to its abstract content: a sequence of
/// `(name, pattern source)` pairs in cache order.
pub open spec fn cache_view(c: Seq<RuleRegex>) -> Seq<(Seq<char>, Seq<char>)> {
    c.map_values(|r: RuleRegex| (r.name_v(), r.src_v()))
}

/// All entries of the cache hold valid pattern sources.
pub open spec fn cache_valid(c: Seq<RuleRegex>) -> bool {
    forall|i: int| 0 <= i < c.len() ==> regex_valid(#[trigger] c[i].src_v())
}

/// An entry survives reconciliation when the repository still holds a rule
/// with the same name and the same source.
pub open spec fn spec_keep_entry(e: (Seq<char>, Seq<char>), rules: Seq<RuleV>) -> bool {
    exists|i: int| 0 <= i < rules.len() && (#[trigger] rules[i]).name == e.0 && rules[i].re == e.1
}

/// The first `n` cache entries, kept when the repository still holds them.
pub open spec fn spec_retain_upto(
    c: Seq<(Seq<char>, Seq<char>)>,
    rules: Seq<RuleV>,
    n: int,
) -> Seq<(Seq<char>, Seq<char>)>
    decreases n,
{
    if n <= 0 {
        Seq::empty()
    } else {
        let rest = spec_retain_upto(c, rules, n - 1);
        if spec_keep_entry(c[n - 1], rules) {
            rest.push(c[n - 1])
        } else {
            rest
        }
    }
}

/// The index of the first cache entry with the given name.
pub open spec fn spec_find_name(
    c: Seq<(Seq<char>, Seq<char>)>,
    name: Seq<char>,
    from: int,
) -> Option<int>
    decreases c.len() - from,
{
    if from < 0 || from >= c.len() {
        None
    } else if c[from].0 == name {
        Some(from)
    } else {
        spec_find_name(c, name, from + 1)
    }
}

/// One repository rule folded into the cache: an entry of the same name is
/// recompiled in place when its source changed, a new name is compiled and
/// appended, and a source that does not compile leaves the cache as it was.
pub open spec fn spec_apply_rule(
    c: Seq<(Seq<char>, Seq<char>)>,
    r: RuleV,
) -> Seq<(Seq<char>, Seq<char>)> {
    match spec_find_name(c, r.name, 0) {
        Some(i) => if c[i].1 != r.re && regex_valid(r.re) {
            c.update(i, (r.name, r.re))
        } else {
            c
        },
        None => if regex_valid(r.re) {
            c.push((r.name, r.re))
        } else {
            c
        },
    }
}

/// The first `n` repository rules folded into the cache in order.
pub open spec fn spec_apply_rules_upto(
    c: Seq<(Seq<char>, Seq<char>)>,
    rules: Seq<RuleV>,
    n: int,
) -> Seq<(Seq<char>, Seq<char>)>
    decreases n,
{
    if n <= 0 {
        c
    } else {
        spec_apply_rule(spec_apply_rules_upto(c, rules, n - 1), rules[n - 1])
    }
}

/// The reconciliation of the cache against the repository: entries no
/// longer in the repository are dropped, unchanged entries are kept,
/// changed sources are recompiled in place, new rules are appended, and
/// invalid sources are skipped.
pub open spec fn spec_reconcile(
    c: Seq<(Seq<char>, Seq<char>)>,
    rules: Seq<RuleV>,
) -> Seq<(Seq<char>, Seq<char>)> {
    spec_apply_rules_upto(spec_retain_upto(c, rules, c.len() as int), rules, rules.len() as int)
}

/// Does the repository still hold a rule with this entry's name and source?
fn entry_still_listed(e: &RuleRegex, rules: &Vec<Rule>) -> (b: bool)
    ensures
        b == spec_keep_entry((e.name_v(), e.src_v()), rules.deep_view()),
{
    let mut i: usize = 0;
    while i < rules.len()
        invariant
            i <= rules.len(),
            forall|j: int|
                0 <= j < i ==> !((#[trigger] rules.deep_view()[j]).name == e.name_v()
                    && rules.deep_view()[j].re == e.src_v()),
        decreases rules.len() - i,
    {
        if eq_str(rules[i].name.as_str(), e.name_str()) && eq_str(rules[i].re.as_str(), e.src_str()) {
            assert(rules.deep_view()[i as int].name == e.name_v());
            return true;
        }
        i = i + 1;
    }
    false
}

/// The index of the first cache entry carrying this rule name.
fn find_entry_by_name(cache: &Vec<RuleRegex>, name: &str) -> (r: Option<usize>)
    ensures
        match r {
            Some(i) => i < cache@.len() && spec_find_name(cache_view(cache@), name@, 0) == Some(
                i as int,
            ),
            None => spec_find_name(cache_view(cache@), name@, 0) is None,
        },
{
    let mut i: usize = 0;
    while i < cache.len()
        invariant
            i <= cache.len(),
            spec_find_name(cache_view(cache@), name@, 0) == spec_find_name(
                cache_view(cache@),
                name@,
                i as int,
            ),
        decreases cache.len() - i,
    {
        if eq_str(cache[i].name_str(), name) {
            assert(cache_view(cache@)[i as int].0 == name@);
            return Some(i);
        }
        assert(cache_view(cache@)[i as int].0 != name@);
        i = i + 1;
    }
    None
}

/// Reconciles the compiled cache against the current rule repository, as
/// [`spec_reconcile`] describes. A rule whose source does not compile is
/// skipped and the other rules are unaffected.
pub fn reconcile_rules(cache: &mut Vec<RuleRegex>, rules: &Vec<Rule>)
    ensures
        cache_view(final(cache)@) == spec_reconcile(cache_view(old(cache)@), rules.deep_view()),
        cache_valid(old(cache)@) ==> cache_valid(final(cache)@),
{
    let ghost c0 = cache_view(cache@);
    let ghost rv = rules.deep_view();
    let ghost valid0 = cache_valid(cache@);

    // Drop the entries that the repository no longer lists.
    let mut kept: Vec<RuleRegex> = Vec::new();
    let ghost mut consumed: int = 0;
    while cache.len() > 0
        invariant
            rv == rules.deep_view(),
            0 <= consumed <= c0.len(),
            cache@.len() == c0.len() - consumed,
            forall|j: int|
                0 <= j < cache@.len() ==> ((#[trigger] cache@[j]).name_v(), cache@[j].src_v())
                    == c0[consumed + j],
            cache_view(kept@) == spec_retain_upto(c0, rv, consumed),
            valid0 ==> cache_valid(kept@),
            valid0 ==> cache_valid(cache@),
        decreases cache@.len(),
    {
        let ghost pre = cache@;
        let ghost keptpre = cache_view(kept@);
        let e = cache.remove(0);
        proof {
            assert((e.name_v(), e.src_v()) == c0[consumed]);
            assert forall|j: int| 0 <= j < cache@.len() implies ((#[trigger] cache@[j]).name_v(),
                cache@[j].src_v(),
            ) == c0[consumed + 1 + j] by {
                assert(cache@[j] == pre[j + 1]);
            }
        }
        if entry_still_listed(&e, rules) {
            kept.push(e);
            proof {
                assert(spec_keep_entry(c0[consumed], rv));
                assert(cache_view(kept@) =~= keptpre.push(c0[consumed]));
                assert(cache_view(kept@) == spec_retain_upto(c0, rv, consumed + 1));
            }
        } else {
            proof {
                assert(!spec_keep_entry(c0[consumed], rv));
                assert(cache_view(kept@) == spec_retain_upto(c0, rv, consumed + 1));
            }
        }
        proof {
            consumed = consumed + 1;
        }
    }
    proof {
        assert(consumed == c0.len());
    }
    let mut next = kept;

    // Fold the repository rules in, in repository order.
    let mut r: usize = 0;
    while r < rules.len()
        invariant
            r <= rules.len(),
            rv == rules.deep_view(),
            cache_view(next@) == spec_apply_rules_upto(spec_retain_upto(c0, rv, c0.len() as int), rv, r as int),
            valid0 ==> cache_valid(next@),
        decreases rules.len() - r,
    {
        let rule = &rules[r];
        proof {
            assert(rules.deep_view()[r as int] == rule@);
        }
        match find_entry_by_name(&next, rule.name.as_str()) {
            Some(i) => {
                if !eq_str(next[i].src_str(), rule.re.as_str()) {
                    match RuleRegex::compile(rule.name.as_str(), rule.re.as_str()) {
                        Some(fresh) => {
                            let ghost before = cache_view(next@);
                            next.set(i, fresh);
                            proof {
                                assert(cache_view(next@) =~= spec_apply_rule(before, rule@));
                            }
                        },
                        None => {
                            proof {
                                assert(cache_view(next@) =~= spec_apply_rule(cache_view(next@), rule@));
                            }
                        },
                    }
                } else {
                    proof {
                        assert(cache_view(next@) =~= spec_apply_rule(cache_view(next@), rule@));
                    }
                }
            },
            None => {
                match RuleRegex::compile(rule.name.as_str(), rule.re.as_str()) {
                    Some(fresh) => {
                        let ghost before = cache_view(next@);
                        next.push(fresh);
                        proof {
                            assert(cache_view(next@) =~= spec_apply_rule(before, rule@));
                        }
                    },
                    None => {
                        proof {
                            assert(cache_view(next@) =~= spec_apply_rule(cache_view(next@), rule@));
                        }
                    },
                }
            },
        }
        r = r + 1;
    }
    *cache = next;
}

/// The name of the first cache entry whose expression matches the title,
/// in cache order; `None` when no entry matches.
pub open spec fn spec_first_match(
    c: Seq<(Seq<char>, Seq<char>)>,
    title: Seq<char>,
    from: int,
) -> Option<Seq<char>>
    decreases c.len() - from,
{
    if from < 0 || from >= c.len() {
        None
    } else if regex_match(c[from].1, title) {
        Some(c[from].0)
    } else {
        spec_first_match(c, title, from + 1)
    }
}

/// Tags a title with the first matching rule of the cache, in cache order.
pub fn first_match_name(cache: &Vec<RuleRegex>, title: &str) -> (r: Option<String>)
    ensures
        r.deep_view() == spec_first_match(cache_view(cache@), title@, 0),
{
    let mut i: usize = 0;
    while i < cache.len()
        invariant
            i <= cache.len(),
            spec_first_match(cache_view(cache@), title@, 0) == spec_first_match(
                cache_view(cache@),
                title@,
                i as int,
            ),
        decreases cache.len() - i,
    {
        if cache[i].is_match(title) {
            assert(regex_match(cache_view(cache@)[i as int].1, title@));
            let name = String::from_str(cache[i].name_str());
            return Some(name);
        }
        assert(!regex_match(cache_view(cache@)[i as int].1, title@));
        i = i + 1;
    }
    None
}

/// The usable core of a raw feed entry: its title, its download url
/// (enclosure preferred, else link) and its publication date. An entry
/// with an empty or missing title, no url at all, or no publication date
/// is dropped.
pub open spec fn spec_usable_item(fi: FeedItemV) -> Option<(Seq<char>, Seq<char>, Seq<char>)> {
    match fi.title {
        None => None,
        Some(t) => if t.len() == 0 {
            None
        } else {
            let url = match fi.enclosure_url {
                Some(e) => Some(e),
                None => fi.link,
            };
            match (url, fi.pub_date) {
                (Some(u), Some(p)) => Some((t, u, p)),
                _ => None,
            }
        },
    }
}

/// The items of a fetched channel that survive the usability filter and
/// match some rule, tagged with the first matching rule, in feed order.
pub open spec fn spec_tag_items(
    c: Seq<(Seq<char>, Seq<char>)>,
    items: Seq<FeedItemV>,
    n: int,
) -> Seq<crate::model::RssItemV>
    decreases n,
{
    if n <= 0 {
        Seq::empty()
    } else {
        let rest = spec_tag_items(c, items, n - 1);
        match spec_usable_item(items[n - 1]) {
            None => rest,
            Some((t, u, p)) => match spec_first_match(c, t, 0) {
                None => rest,
                Some(name) => rest.push(
                    crate::model::RssItemV { title: t, magnet: u, pub_date: Some(p), rule_name: name },
                ),
            },
        }
    }
}

/// Filters and tags the entries of a fetched channel: an entry must have a
/// non-empty title, a url and a publication date, and is tagged with the
/// first rule of the cache that matches its title; everything else is
/// dropped silently.
pub fn tag_feed_items(cache: &Vec<RuleRegex>, items: &Vec<FeedItem>) -> (r: Vec<RssItem>)
    ensures
        r.deep_view() == spec_tag_items(cache_view(cache@), items.deep_view(), items@.len() as int),
{
    let mut r: Vec<RssItem> = Vec::new();
    let mut i: usize = 0;
    while i < items.len()
        invariant
            i <= items.len(),
            r.deep_view() =~= spec_tag_items(
                cache_view(cache@),
                items.deep_view(),
                i as int,
            ),
        decreases items.len() - i,
    {
        let item = &items[i];
        proof {
            assert(items.deep_view()[i as int] == item@);
        }
        let mut usable: Option<(String, String, String)> = None;
        match &item.title {
            None => {},
            Some(t) => {
                if !t.as_str().is_empty() {
                    let url: Option<&String> = match &item.enclosure_url {
                        Some(e) => Some(e),
                        None => match &item.link {
                            Some(l) => Some(l),
                            None => None,
                        },
                    };
                    match (url, &item.pub_date) {
                        (Some(u), Some(p)) => {
                            usable = Some((t.clone(), u.clone(), p.clone()));
                        },
                        _ => {},
                    }
                }
            },
        }
        match usable {
            None => {
                proof {
                    assert(spec_usable_item(item@) is None);
                }
            },
            Some((t, u, p)) => {
                proof {
                    assert(spec_usable_item(item@) == Some((t@, u@, p@)));
                }
                match first_match_name(cache, t.as_str()) {
                    None => {},
                    Some(name) => {
                        r.push(RssItem { title: t, magnet: u, pub_date: Some(p), rule_name: name });
                    },
                }
            },
        }
        proof {
            assert(r.deep_view() =~= spec_tag_items(
                cache_view(cache@),
                items.deep_view(),
                i + 1,
            ));
        }
        i = i + 1;
    }
    proof {
        assert(r.deep_view() =~= spec_tag_items(
            cache_view(cache@),
            items.deep_view(),
            items@.len() as int,
        ));
    }
    r
}

/// Insertion of one rule into a cost-sorted sequence, after every rule of
/// the same cost that is already there.
pub open spec fn spec_insert_rule(s: Seq<RuleV>, r: RuleV) -> Seq<RuleV>
    decreases s.len(),
{
    if s.len() == 0 {
        seq![r]
    } else if s.last().cost > r.cost {
        spec_insert_rule(s.drop_last(), r).push(s.last())
    } else {
        s.push(r)
    }
}

/// The stable sort of a rule sequence by ascending cost.
pub open spec fn spec_sort_rules(s: Seq<RuleV>) -> Seq<RuleV>
    decreases s.len(),
{
    if s.len() == 0 {
        Seq::empty()
    } else {
        spec_insert_rule(spec_sort_rules(s.drop_last()), s.last())
    }
}

/// Sorts rules by ascending cost; rules of equal cost keep their order.
pub fn sort_rules_by_cost(rules: Vec<Rule>) -> (r: Vec<Rule>)
    ensures
        r.deep_view() == spec_sort_rules(rules.deep_view()),
{
    let mut rest = rules;
    let mut sorted: Vec<Rule> = Vec::new();
    let ghost input = rest.deep_view();
    let ghost mut taken: int = 0;
    while rest.len() > 0
        invariant
            0 <= taken <= input.len(),
            rest@.len() == input.len() - taken,
            forall|j: int|
                0 <= j < rest@.len() ==> (#[trigger] rest@[j])@ == input[taken + j],
            sorted.deep_view() == spec_sort_rules(input.subrange(0, taken)),
        decreases rest@.len(),
    {
        let ghost pre = rest@;
        let rule = rest.remove(0);
        proof {
            assert(rule@ == input[taken]);
            assert forall|j: int| 0 <= j < rest@.len() implies (#[trigger] rest@[j])@ == input[
                taken + 1 + j
            ] by {
                assert(rest@[j] == pre[j + 1]);
            }
        }
        let mut j: usize = sorted.len();
        while j > 0 && sorted[j - 1].cost > rule.cost
            invariant
                j <= sorted.len(),
                forall|k: int|
                    j <= k < sorted@.len() ==> (#[trigger] sorted@[k])@.cost > rule@.cost,
            decreases j,
        {
            proof {
                assert(sorted@[j - 1]@.cost > rule@.cost);
            }
            j = j - 1;
        }
        let ghost before = sorted.deep_view();
        proof {
            assert forall|k: int| j <= k < before.len() implies (#[trigger] before[k]).cost
                > rule@.cost by {
                assert(before[k] == sorted@[k]@);
            }
        }
        sorted.insert(j, rule);
        proof {
            lemma_insert_rule_at(before, rule@, j as int);
            assert(sorted.deep_view() =~= before.insert(j as int, rule@));
            assert(input.subrange(0, taken + 1).drop_last() =~= input.subrange(0, taken));
            assert(input.subrange(0, taken + 1).last() == input[taken]);
            taken = taken + 1;
        }
    }
    proof {
        assert(input.subrange(0, input.len() as int) =~= input);
    }
    sorted
}

/// Inserting at the first position from the right whose cost is not above
/// the new rule's matches [`spec_insert_rule`].
proof fn lemma_insert_rule_at(s: Seq<RuleV>, r: RuleV, j: int)
    requires
        0 <= j <= s.len(),
        forall|k: int| j <= k < s.len() ==> (#[trigger] s[k]).cost > r.cost,
        j > 0 ==> s[j - 1].cost <= r.cost,
    ensures
        spec_insert_rule(s, r) == s.insert(j, r),
    decreases s.len(),
{
    if s.len() == 0 {
        assert(spec_insert_rule(s, r) =~= s.insert(0, r));
    } else if j == s.len() {
        assert(spec_insert_rule(s, r) =~= s.insert(j, r));
    } else {
        assert(s.last().cost > r.cost);
        lemma_insert_rule_at(s.drop_last(), r, j);
        assert(spec_insert_rule(s.drop_last(), r).push(s.last()) =~= s.drop_last().insert(j, r).push(
            s.last(),
        ));
        assert(s.drop_last().insert(j, r).push(s.last()) =~= s.insert(j, r));
    }
}

} // verus!
