//! Season progress out of record titles.
//!
//! Every decimal number is read out of each admitted title; a column of
//! these per-title numbers is the episode column when no value in it
//! repeats three times (a value repeated that often is a resolution, a
//! year or a release tag); the progress of a season is the count of
//! distinct episode numbers in that column.

use vstd::prelude::*;
use vstd::string::StrSliceExecFns;
use crate::model::{AnimeRssRecord, AnimeRssRecordV};

verus! {

/// Decimal digit.
pub open spec fn is_digit(c: char) -> bool {
    '0' <= c && c <= '9'
}

/// Numeric value of a decimal digit character.
pub open spec fn digit_val(c: char) -> int {
    c as int - '0' as int
}

/// Length of the run of digits that starts at `i`.
pub open spec fn digit_run_len(s: Seq<char>, i: int) -> int
    decreases s.len() - i,
{
    if i < 0 || i >= s.len() || !is_digit(s[i]) {
        0
    } else {
        1 + digit_run_len(s, i + 1)
    }
}

/// A digit run is non-negative and stays inside the string.
pub proof fn lemma_digit_run_len(s: Seq<char>, i: int)
    ensures
        digit_run_len(s, i) >= 0,
        0 <= i <= s.len() ==> i + digit_run_len(s, i) <= s.len(),
        i + digit_run_len(s, i) < s.len() ==> !is_digit(s[i + digit_run_len(s, i)]) || i < 0,
    decreases s.len() - i,
{
    if i < 0 || i >= s.len() || !is_digit(s[i]) {
    } else {
        lemma_digit_run_len(s, i + 1);
    }
}

/// Value of the digits `s[i..j)` read in base ten.
pub open spec fn digits_value(s: Seq<char>, i: int, j: int) -> int
    decreases j - i,
{
    if j <= i {
        0
    } else {
        digits_value(s, i, j - 1) * 10 + digit_val(s[j - 1])
    }
}

/// The value, clamped into a signed 64-bit integer as a saturating
/// conversion clamps it.
pub open spec fn sat64(v: int) -> int {
    if v > i64::MAX as int {
        i64::MAX as int
    } else {
        v
    }
}

/// All characters of `s[i..j)` are `'0'`.
pub open spec fn all_zeros(s: Seq<char>, i: int, j: int) -> bool {
    forall|k: int| i <= k < j ==> s[k] == '0'
}

#[via_fn]
proof fn title_nums_from_decreases(s: Seq<char>, i: int) {
    lemma_digit_run_len(s, i);
    if !(i < 0 || i >= s.len()) && is_digit(s[i]) {
        let d = digit_run_len(s, i);
        lemma_digit_run_len(s, i + d + 1);
    }
}

/// The numbers read out of `s` from position `i` on: every maximal digit
/// run, optionally followed by a dot and a fraction run, yields its
/// integer value; a number with a non-zero fraction is dropped; scanning
/// continues after the token.
pub open spec fn title_nums_from(s: Seq<char>, i: int) -> Seq<int>
    decreases s.len() - i,
        via title_nums_from_decreases
{
    if i < 0 || i >= s.len() {
        Seq::empty()
    } else if !is_digit(s[i]) {
        title_nums_from(s, i + 1)
    } else {
        let d = digit_run_len(s, i);
        let v = sat64(digits_value(s, i, i + d));
        if i + d < s.len() && s[i + d] == '.' && digit_run_len(s, i + d + 1) >= 1 {
            let f = digit_run_len(s, i + d + 1);
            let rest = title_nums_from(s, i + d + 1 + f);
            if all_zeros(s, i + d + 1, i + d + 1 + f) {
                seq![v] + rest
            } else {
                rest
            }
        } else {
            seq![v] + title_nums_from(s, i + d)
        }
    }
}

/// Decides whether `c` is a decimal digit.
pub(crate) fn is_digit_char(c: char) -> (b: bool)
    ensures
        b == is_digit(c),
{
    '0' <= c && c <= '9'
}

/// Finds the end of the digit run that starts at `i`.
pub(crate) fn digit_run_end(s: &str, len: usize, i: usize) -> (e: usize)
    requires
        len == s@.len(),
        i <= len,
    ensures
        i <= e <= len,
        e - i == digit_run_len(s@, i as int),
{
    let mut j = i;
    while j < len && is_digit_char(s.get_char(j))
        invariant
            len == s@.len(),
            i <= j <= len,
            digit_run_len(s@, i as int) == j - i + digit_run_len(s@, j as int),
        decreases len - j,
    {
        proof {
            assert(digit_run_len(s@, j as int) == 1 + digit_run_len(s@, j + 1));
        }
        j = j + 1;
    }
    proof {
        assert(digit_run_len(s@, j as int) == 0);
    }
    j
}

/// Reads the value of the digits `s[i..j)` with 64-bit saturation.
fn digits_to_i64(s: &str, len: usize, i: usize, j: usize) -> (v: i64)
    requires
        len == s@.len(),
        i <= j <= len,
        forall|k: int| i <= k < j ==> is_digit(s@[k]),
    ensures
        v as int == sat64(digits_value(s@, i as int, j as int)),
        v >= 0,
{
    let mut v: i64 = 0;
    let mut k = i;
    while k < j
        invariant
            len == s@.len(),
            i <= k <= j <= len,
            forall|t: int| i <= t < j ==> is_digit(s@[t]),
            v as int == sat64(digits_value(s@, i as int, k as int)),
            v >= 0,
            digits_value(s@, i as int, k as int) >= 0,
        decreases j - k,
    {
        let c = s.get_char(k);
        let d = (c as u32 as i64) - ('0' as u32 as i64);
        proof {
            assert(is_digit(s@[k as int]));
            assert(0 <= d <= 9);
            assert(d == digit_val(s@[k as int]));
        }
        let ghost ev = digits_value(s@, i as int, k as int);
        let ghost ev1 = digits_value(s@, i as int, k + 1);
        proof {
            assert(ev1 == ev * 10 + digit_val(s@[k as int]));
            assert(ev1 >= ev) by (nonlinear_arith)
                requires
                    ev >= 0,
                    ev1 == ev * 10 + digit_val(s@[k as int]),
                    0 <= digit_val(s@[k as int]),
            ;
        }
        if v > (i64::MAX - d) / 10 {
            proof {
                if ev <= i64::MAX as int {
                    assert(v as int == ev);
                    assert(ev * 10 + d > i64::MAX as int) by (nonlinear_arith)
                        requires
                            ev > (i64::MAX as int - d) / 10,
                            0 <= d <= 9,
                            ev >= 0,
                    ;
                } else {
                    assert(v as int == i64::MAX as int);
                    assert(ev1 > i64::MAX as int) by (nonlinear_arith)
                        requires
                            ev > i64::MAX as int,
                            ev1 == ev * 10 + digit_val(s@[k as int]),
                            digit_val(s@[k as int]) >= 0,
                    ;
                }
            }
            v = i64::MAX;
        } else {
            proof {
                assert(ev <= i64::MAX as int) by {
                    if ev > i64::MAX as int {
                        assert(v as int == i64::MAX as int);
                        assert(i64::MAX as int > (i64::MAX as int - d) / 10) by (nonlinear_arith)
                            requires
                                0 <= d <= 9,
                        ;
                    }
                }
                assert(v as int == ev);
                assert(ev * 10 + d <= i64::MAX as int) by (nonlinear_arith)
                    requires
                        ev <= (i64::MAX as int - d) / 10,
                        0 <= d <= 9,
                        ev >= 0,
                ;
            }
            v = v * 10 + d;
        }
        k = k + 1;
    }
    v
}

/// Reads every decimal number out of one title: each digit run, optionally
/// followed by a dot and a fraction, yields its 64-bit value unless the
/// fraction is non-zero.
pub fn title_nums(title: &str) -> (r: Vec<i64>)
    ensures
        r@.map_values(|x: i64| x as int) == title_nums_from(title@, 0),
{
    let len = title.unicode_len();
    let mut r: Vec<i64> = Vec::new();
    let mut i: usize = 0;
    while i < len
        invariant
            len == title@.len(),
            i <= len,
            r@.map_values(|x: i64| x as int) + title_nums_from(title@, i as int)
                =~= title_nums_from(title@, 0),
        decreases len - i,
    {
        let c = title.get_char(i);
        if !is_digit_char(c) {
            proof {
                assert(title_nums_from(title@, i as int) == title_nums_from(title@, i + 1));
            }
            i = i + 1;
        } else {
            let e = digit_run_end(title, len, i);
            proof {
                lemma_digit_run_len(title@, i as int);
                assert forall|k: int| i <= k < e implies is_digit(title@[k]) by {
                    lemma_digit_run_in(title@, i as int, k);
                }
            }
            let v = digits_to_i64(title, len, i, e);
            let mut token_end = e;
            let mut keep = true;
            if e < len && title.get_char(e) == '.' {
                let f_end = digit_run_end(title, len, e + 1);
                if f_end > e + 1 {
                    token_end = f_end;
                    let mut z = e + 1;
                    keep = true;
                    while z < f_end && keep
                        invariant
                            len == title@.len(),
                            e + 1 <= z <= f_end <= len,
                            keep ==> forall|k: int| e + 1 <= k < z ==> title@[k] == '0',
                            !keep ==> !all_zeros(title@, e + 1, f_end as int),
                            keep ==> z < f_end || all_zeros(title@, e + 1, f_end as int),
                        decreases (if keep { 1int } else { 0int }), f_end - z,
                    {
                        if title.get_char(z) != '0' {
                            keep = false;
                        } else {
                            z = z + 1;
                        }
                    }
                }
            }
            proof {
                let ghost d = digit_run_len(title@, i as int);
                assert(e == i + d);
                if e < title@.len() && title@[e as int] == '.' && digit_run_len(title@, e + 1) >= 1 {
                    let ghost f = digit_run_len(title@, e + 1);
                    lemma_digit_run_len(title@, e + 1);
                    assert(token_end == e + 1 + f);
                    if all_zeros(title@, e + 1, e + 1 + f) {
                        assert(keep);
                        assert(title_nums_from(title@, i as int) == seq![v as int]
                            + title_nums_from(title@, token_end as int));
                    } else {
                        assert(!keep);
                        assert(title_nums_from(title@, i as int) == title_nums_from(
                            title@,
                            token_end as int,
                        ));
                    }
                } else {
                    assert(token_end == e);
                    assert(keep);
                    assert(title_nums_from(title@, i as int) == seq![v as int]
                        + title_nums_from(title@, token_end as int));
                }
            }
            if keep {
                r.push(v);
                proof {
                    assert(r@.map_values(|x: i64| x as int) =~= r@.drop_last().map_values(
                        |x: i64| x as int,
                    ).push(v as int));
                }
            }
            proof {
                assert(r@.map_values(|x: i64| x as int) + title_nums_from(title@, token_end as int)
                    =~= title_nums_from(title@, 0));
            }
            i = token_end;
        }
    }
    proof {
        assert(title_nums_from(title@, len as int) == Seq::<int>::empty());
        assert(r@.map_values(|x: i64| x as int) =~= title_nums_from(title@, 0));
    }
    r
}

/// How often `x` occurs in `col`.
pub open spec fn spec_count(col: Seq<int>, x: int) -> int
    decreases col.len(),
{
    if col.len() == 0 {
        0
    } else {
        spec_count(col.drop_last(), x) + if col.last() == x {
            1int
        } else {
            0int
        }
    }
}

/// A column is acceptable as the episode column when no value occurs
/// three times in it.
pub open spec fn col_ok(col: Seq<int>) -> bool {
    forall|x: int| #[trigger] spec_count(col, x) <= 2
}

/// A value that occurs at all occurs at some index.
proof fn lemma_count_witness(col: Seq<int>, x: int)
    requires
        spec_count(col, x) >= 1,
    ensures
        exists|a: int| 0 <= a < col.len() && col[a] == x,
    decreases col.len(),
{
    if col.len() > 0 {
        if col.last() == x {
            assert(col[col.len() - 1] == x);
        } else {
            lemma_count_witness(col.drop_last(), x);
            let a = choose|a: int| 0 <= a < col.drop_last().len() && col.drop_last()[a] == x;
            assert(col[a] == x);
        }
    }
}

proof fn lemma_count_nonneg(col: Seq<int>, x: int)
    ensures
        spec_count(col, x) >= 0,
    decreases col.len(),
{
    if col.len() > 0 {
        lemma_count_nonneg(col.drop_last(), x);
    }
}

/// Counts how often `x` occurs in `col`.
fn count_in(col: &Vec<i64>, x: i64) -> (n: usize)
    ensures
        n as int == spec_count(col@.map_values(|v: i64| v as int), x as int),
{
    let ghost cv = col@.map_values(|v: i64| v as int);
    let mut n: usize = 0;
    let mut t: usize = 0;
    while t < col.len()
        invariant
            cv == col@.map_values(|v: i64| v as int),
            t <= col@.len(),
            n <= t,
            n as int == spec_count(cv.subrange(0, t as int), x as int),
        decreases col@.len() - t,
    {
        proof {
            assert(cv.subrange(0, t + 1).drop_last() =~= cv.subrange(0, t as int));
            assert(cv.subrange(0, t + 1).last() == cv[t as int]);
            lemma_count_nonneg(cv.subrange(0, t as int), x as int);
        }
        if col[t] == x {
            n = n + 1;
        }
        t = t + 1;
    }
    proof {
        assert(cv.subrange(0, cv.len() as int) =~= cv);
    }
    n
}

/// Decides whether a column is acceptable: no value occurs three times.
fn col_ok_exec(col: &Vec<i64>) -> (b: bool)
    ensures
        b == col_ok(col@.map_values(|v: i64| v as int)),
{
    let ghost cv = col@.map_values(|v: i64| v as int);
    let mut a: usize = 0;
    while a < col.len()
        invariant
            cv == col@.map_values(|v: i64| v as int),
            a <= col@.len(),
            forall|t: int| 0 <= t < a ==> #[trigger] spec_count(cv, cv[t]) <= 2,
        decreases col@.len() - a,
    {
        let n = count_in(col, col[a]);
        if n >= 3 {
            proof {
                assert(spec_count(cv, cv[a as int]) >= 3);
            }
            return false;
        }
        a = a + 1;
    }
    proof {
        assert forall|x: int| #[trigger] spec_count(cv, x) <= 2 by {
            lemma_count_nonneg(cv, x);
            if spec_count(cv, x) >= 1 {
                lemma_count_witness(cv, x);
                let w = choose|w: int| 0 <= w < cv.len() && cv[w] == x;
                assert(spec_count(cv, cv[w]) <= 2);
            }
        }
    }
    true
}

/// The least vector length among the first `n` vectors.
pub open spec fn spec_min_len_upto(vs: Seq<Seq<int>>, n: int) -> int
    decreases n,
{
    if n <= 1 {
        vs[0].len() as int
    } else if vs[n - 1].len() < spec_min_len_upto(vs, n - 1) {
        vs[n - 1].len() as int
    } else {
        spec_min_len_upto(vs, n - 1)
    }
}

/// The values at index `c` of each vector, in order.
pub open spec fn spec_column(vs: Seq<Seq<int>>, c: int) -> Seq<int> {
    vs.map_values(|v: Seq<int>| v[c])
}

/// The first acceptable column index at or after `c`, short of `k`.
pub open spec fn spec_chosen(vs: Seq<Seq<int>>, k: int, c: int) -> Option<int>
    decreases k - c,
{
    if c < 0 || c >= k {
        None
    } else if col_ok(spec_column(vs, c)) {
        Some(c)
    } else {
        spec_chosen(vs, k, c + 1)
    }
}

/// `x` inserted into an ascending duplicate-free sequence: already-present
/// values leave the sequence as it was.
pub open spec fn spec_insert_sd(s: Seq<int>, x: int) -> Seq<int>
    decreases s.len(),
{
    if s.len() == 0 {
        seq![x]
    } else if s.last() == x {
        s
    } else if s.last() > x {
        spec_insert_sd(s.drop_last(), x).push(s.last())
    } else {
        s.push(x)
    }
}

/// The first `n` values of `col`, sorted ascending with duplicates
/// removed.
pub open spec fn spec_sorted_dedup(col: Seq<int>, n: int) -> Seq<int>
    decreases n,
{
    if n <= 0 {
        Seq::empty()
    } else {
        spec_insert_sd(spec_sorted_dedup(col, n - 1), col[n - 1])
    }
}

/// Strictly ascending order.
pub open spec fn strictly_incr(s: Seq<int>) -> bool {
    forall|a: int, b: int| 0 <= a < b < s.len() ==> s[a] < s[b]
}

/// Inserting at the scan position matches [`spec_insert_sd`], and keeps
/// the sequence strictly ascending.
proof fn lemma_insert_sd_at(s: Seq<int>, x: int, j: int)
    requires
        strictly_incr(s),
        0 <= j <= s.len(),
        forall|k: int| j <= k < s.len() ==> s[k] > x,
        j > 0 ==> s[j - 1] <= x,
    ensures
        j > 0 && s[j - 1] == x ==> spec_insert_sd(s, x) == s,
        !(j > 0 && s[j - 1] == x) ==> spec_insert_sd(s, x) == s.insert(j, x),
        strictly_incr(spec_insert_sd(s, x)),
    decreases s.len(),
{
    if s.len() == 0 {
        assert(spec_insert_sd(s, x) =~= s.insert(0, x));
    } else if j == s.len() {
        if s.last() == x {
            assert(s[j - 1] == x);
        } else {
            assert(s.last() < x);
            assert(spec_insert_sd(s, x) =~= s.insert(j, x));
            assert forall|a: int, b: int| 0 <= a < b < s.insert(j, x).len() implies s.insert(
                j,
                x,
            )[a] < s.insert(j, x)[b] by {
                if b < j {
                    assert(s[a] < s[b]);
                } else {
                    if a < j {
                        assert(s.insert(j, x)[a] == s[a]);
                    }
                }
            }
        }
    } else {
        assert(s.last() > x);
        let t = s.drop_last();
        assert(strictly_incr(t)) by {
            assert forall|a: int, b: int| 0 <= a < b < t.len() implies t[a] < t[b] by {
                assert(s[a] < s[b]);
            }
        }
        lemma_insert_sd_at(t, x, j);
        if j > 0 && t[j - 1] == x {
            assert(s[j - 1] == x);
            assert(spec_insert_sd(s, x) == spec_insert_sd(t, x).push(s.last()));
            assert(spec_insert_sd(s, x) =~= s);
        } else {
            assert(spec_insert_sd(s, x) == spec_insert_sd(t, x).push(s.last()));
            assert(spec_insert_sd(s, x) =~= s.insert(j, x));
            assert forall|a: int, b: int| 0 <= a < b < spec_insert_sd(s, x).len() implies
                spec_insert_sd(s, x)[a] < spec_insert_sd(s, x)[b] by {
                let u = spec_insert_sd(t, x);
                if b == spec_insert_sd(s, x).len() - 1 {
                    assert(spec_insert_sd(s, x)[b] == s.last());
                    if a < u.len() {
                        assert(u[a] < s.last()) by {
                            if a < j {
                                assert(u[a] == t[a]);
                                assert(t[a] < s.last());
                            } else if a == j {
                                assert(u[a] == x);
                            } else {
                                assert(u[a] == t[a - 1]);
                                assert(t[a - 1] < s.last());
                            }
                        }
                    }
                }
            }
        }
    }
}

/// Sorts the column ascending and removes duplicates.
fn sorted_dedup(col: &Vec<i64>) -> (r: Vec<i64>)
    ensures
        r@.map_values(|v: i64| v as int) == spec_sorted_dedup(
            col@.map_values(|v: i64| v as int),
            col@.len() as int,
        ),
        strictly_incr(r@.map_values(|v: i64| v as int)),
{
    let ghost cv = col@.map_values(|v: i64| v as int);
    let mut r: Vec<i64> = Vec::new();
    let mut t: usize = 0;
    while t < col.len()
        invariant
            cv == col@.map_values(|v: i64| v as int),
            t <= col@.len(),
            r@.map_values(|v: i64| v as int) == spec_sorted_dedup(cv, t as int),
            strictly_incr(r@.map_values(|v: i64| v as int)),
        decreases col@.len() - t,
    {
        let x = col[t];
        let ghost rv = r@.map_values(|v: i64| v as int);
        let mut j: usize = r.len();
        while j > 0 && r[j - 1] > x
            invariant
                rv == r@.map_values(|v: i64| v as int),
                j <= r@.len(),
                forall|k: int| j <= k < r@.len() ==> rv[k] > x as int,
            decreases j,
        {
            proof {
                assert(rv[j - 1] == r@[j - 1] as int);
            }
            j = j - 1;
        }
        proof {
            lemma_insert_sd_at(rv, x as int, j as int);
        }
        if j > 0 && r[j - 1] == x {
            proof {
                assert(rv[j - 1] == x as int);
                assert(spec_insert_sd(rv, x as int) == rv);
                assert(spec_sorted_dedup(cv, t + 1) == spec_insert_sd(rv, cv[t as int]));
            }
        } else {
            proof {
                assert(j > 0 ==> rv[j - 1] != x as int);
            }
            r.insert(j, x);
            proof {
                assert(r@.map_values(|v: i64| v as int) =~= rv.insert(j as int, x as int));
                assert(spec_sorted_dedup(cv, t + 1) == spec_insert_sd(rv, cv[t as int]));
            }
        }
        t = t + 1;
    }
    proof {
        assert(cv.len() == col@.len());
    }
    r
}

/// The least column count is no larger than any vector's length.
proof fn lemma_min_len_le(vs: Seq<Seq<int>>, n: int, j: int)
    requires
        1 <= n,
        0 <= j < n,
    ensures
        spec_min_len_upto(vs, n) <= vs[j].len(),
    decreases n,
{
    if n > 1 && j < n - 1 {
        lemma_min_len_le(vs, n - 1, j);
    }
}

/// The episode numbers detected for a season: the values of the first
/// acceptable column of the per-title numbers, sorted and deduplicated.
/// Fewer than three records are not enough signal and give the empty
/// sequence, as does a season where every column is rejected.
pub open spec fn spec_season_eps(records: Seq<AnimeRssRecordV>) -> Seq<int> {
    if records.len() <= 2 {
        Seq::empty()
    } else {
        let vs = records.map_values(|r: AnimeRssRecordV| title_nums_from(r.title, 0));
        let k = spec_min_len_upto(vs, vs.len() as int);
        match spec_chosen(vs, k, 0) {
            None => Seq::empty(),
            Some(c) => spec_sorted_dedup(spec_column(vs, c), vs.len() as int),
        }
    }
}

/// Computes the sorted, deduplicated episode numbers of a season out of
/// its admitted record titles, as [`spec_season_eps`] describes.
pub fn season_eps(records: &Vec<AnimeRssRecord>) -> (r: Vec<i64>)
    ensures
        r@.map_values(|v: i64| v as int) == spec_season_eps(records.deep_view()),
{
    let ghost rv = records.deep_view();
    if records.len() <= 2 {
        let r: Vec<i64> = Vec::new();
        assert(r@.map_values(|v: i64| v as int) =~= spec_season_eps(rv));
        return r;
    }
    let ghost vsv = rv.map_values(|rec: AnimeRssRecordV| title_nums_from(rec.title, 0));

    let mut vs: Vec<Vec<i64>> = Vec::new();
    let mut t: usize = 0;
    while t < records.len()
        invariant
            rv == records.deep_view(),
            vsv == rv.map_values(|rec: AnimeRssRecordV| title_nums_from(rec.title, 0)),
            t <= records@.len(),
            vs@.len() == t,
            forall|j: int|
                0 <= j < t ==> (#[trigger] vs@[j])@.map_values(|v: i64| v as int) == vsv[j],
        decreases records@.len() - t,
    {
        let nums = title_nums(records[t].title.as_str());
        proof {
            assert(records@[t as int].title@ == rv[t as int].title);
            assert(vsv[t as int] == title_nums_from(rv[t as int].title, 0));
        }
        vs.push(nums);
        t = t + 1;
    }
    proof {
        assert(vs@.len() == vsv.len());
        assert(vsv.len() >= 3);
        assert forall|j: int| 0 <= j < vs@.len() implies (#[trigger] vs@[j])@.len() == vsv[
            j
        ].len() by {
            assert(vs@[j]@.map_values(|v: i64| v as int).len() == vs@[j]@.len());
        }
    }

    let mut k: usize = vs[0].len();
    let mut m: usize = 1;
    while m < vs.len()
        invariant
            vsv == rv.map_values(|rec: AnimeRssRecordV| title_nums_from(rec.title, 0)),
            vs@.len() == vsv.len(),
            forall|j: int|
                0 <= j < vs@.len() ==> (#[trigger] vs@[j])@.map_values(|v: i64| v as int) == vsv[j],
            forall|j: int| 0 <= j < vs@.len() ==> (#[trigger] vs@[j])@.len() == vsv[j].len(),
            1 <= m <= vs@.len(),
            k as int == spec_min_len_upto(vsv, m as int),
        decreases vs@.len() - m,
    {
        if vs[m].len() < k {
            k = vs[m].len();
        }
        m = m + 1;
    }
    let ghost kk = k as int;
    proof {
        assert(kk == spec_min_len_upto(vsv, vsv.len() as int));
    }

    let mut c: usize = 0;
    while c < k
        invariant
            vsv == rv.map_values(|rec: AnimeRssRecordV| title_nums_from(rec.title, 0)),
            vs@.len() == vsv.len(),
            vsv.len() >= 3,
            forall|j: int|
                0 <= j < vs@.len() ==> (#[trigger] vs@[j])@.map_values(|v: i64| v as int) == vsv[j],
            forall|j: int| 0 <= j < vs@.len() ==> (#[trigger] vs@[j])@.len() == vsv[j].len(),
            c <= k,
            kk == k as int,
            kk == spec_min_len_upto(vsv, vsv.len() as int),
            spec_chosen(vsv, kk, 0) == spec_chosen(vsv, kk, c as int),
            rv == records.deep_view(),
        decreases k - c,
    {
        let mut col: Vec<i64> = Vec::new();
        let mut j: usize = 0;
        while j < vs.len()
            invariant
                vs@.len() == vsv.len(),
                forall|jj: int|
                    0 <= jj < vs@.len() ==> (#[trigger] vs@[jj])@.map_values(|v: i64| v as int)
                        == vsv[jj],
                forall|jj: int| 0 <= jj < vs@.len() ==> (#[trigger] vs@[jj])@.len() == vsv[jj].len(),
                kk == spec_min_len_upto(vsv, vsv.len() as int),
                c < kk,
                j <= vs@.len(),
                col@.len() == j,
                forall|jj: int|
                    0 <= jj < j ==> (#[trigger] col@[jj]) as int == vsv[jj][c as int],
            decreases vs@.len() - j,
        {
            proof {
                lemma_min_len_le(vsv, vsv.len() as int, j as int);
                assert(vs@[j as int]@.map_values(|v: i64| v as int)[c as int] == vsv[j as int][c as int]);
            }
            let x = vs[j][c];
            col.push(x);
            j = j + 1;
        }
        proof {
            assert(col@.map_values(|v: i64| v as int) =~= spec_column(vsv, c as int));
        }
        if col_ok_exec(&col) {
            let r = sorted_dedup(&col);
            proof {
                assert(spec_chosen(vsv, kk, c as int) == Some(c as int));
                assert(col@.len() == vsv.len());
            }
            return r;
        }
        proof {
            assert(!col_ok(spec_column(vsv, c as int)));
            assert(spec_chosen(vsv, kk, c as int) == spec_chosen(vsv, kk, c as int + 1));
        }
        c = c + 1;
    }
    proof {
        assert(spec_chosen(vsv, kk, c as int) is None);
    }
    let r: Vec<i64> = Vec::new();
    assert(r@.map_values(|v: i64| v as int) =~= spec_season_eps(rv));
    r
}

/// Every character of a digit run is a digit.
proof fn lemma_digit_run_in(s: Seq<char>, i: int, k: int)
    requires
        0 <= i <= k,
        k < i + digit_run_len(s, i),
    ensures
        is_digit(s[k]),
    decreases k - i,
{
    lemma_digit_run_len(s, i);
    if k == i {
        assert(digit_run_len(s, i) >= 1);
        assert(is_digit(s[i]));
    } else {
        assert(is_digit(s[i]));
        lemma_digit_run_in(s, i + 1, k);
    }
}

} // verus!
