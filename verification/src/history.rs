use vstd::prelude::*;

use crate::types::CommitInfo;

verus! {

/// The summary the history reader prints beside a chain: its length, the
/// span of its timestamps, and the distinct author names in order of first
/// appearance.
#[derive(Debug)]
pub struct HistoryStats {
    pub total_commits: usize,
    /// Seconds since the Unix epoch.
    pub earliest: Option<i64>,
    pub latest: Option<i64>,
    /// Whole days between the earliest and latest commit.
    pub span_days: i64,
    pub authors: Vec<String>,
}

/// Whether `name` appears among the author names of `commits`.
pub open spec fn is_author_of(commits: Seq<CommitInfo>, name: Seq<char>) -> bool {
    exists|k: int| 0 <= k < commits.len() && #[trigger] commits[k].author_name@ == name
}

/// Whether `name` appears in a list of names.
pub open spec fn appears_in(names: Seq<String>, name: Seq<char>) -> bool {
    exists|i: int| 0 <= i < names.len() && #[trigger] names[i]@ == name
}

/// The position of the first commit authored by `name`, or `-1`.
pub open spec fn first_author_index(commits: Seq<CommitInfo>, name: Seq<char>) -> int
    decreases commits.len(),
{
    if commits.len() == 0 {
        -1
    } else if commits.first().author_name@ == name {
        0
    } else {
        let r = first_author_index(commits.drop_first(), name);
        if r < 0 {
            -1
        } else {
            r + 1
        }
    }
}

proof fn lemma_first_author_index(commits: Seq<CommitInfo>, name: Seq<char>)
    ensures
        ({
            let r = first_author_index(commits, name);
            if r < 0 {
                forall|j: int| 0 <= j < commits.len() ==> commits[j].author_name@ != name
            } else {
                0 <= r < commits.len() && commits[r].author_name@ == name && forall|j: int|
                    0 <= j < r ==> commits[j].author_name@ != name
            }
        }),
    decreases commits.len(),
{
    if commits.len() > 0 && commits.first().author_name@ != name {
        let d = commits.drop_first();
        lemma_first_author_index(d, name);
        let rd = first_author_index(d, name);
        assert(forall|j: int| 0 <= j < d.len() ==> #[trigger] d[j] == commits[j + 1]);
        if rd < 0 {
            assert forall|j: int| 0 <= j < commits.len() implies commits[j].author_name@
                != name by {
                if j >= 1 {
                    assert(d[j - 1] == commits[j]);
                }
            }
        } else {
            assert(commits[rd + 1] == d[rd]);
            assert forall|j: int| 0 <= j < rd + 1 implies commits[j].author_name@ != name by {
                if j >= 1 {
                    assert(d[j - 1] == commits[j]);
                }
            }
        }
    }
}

/// The distinct author names of a chain, each kept once, in order of first
/// appearance.
pub fn distinct_authors(commits: &Vec<CommitInfo>) -> (r: Vec<String>)
    ensures
        forall|i: int, j: int| 0 <= i < j < r@.len() ==> #[trigger] r@[i]@ != #[trigger] r@[j]@,
        forall|i: int| 0 <= i < r@.len() ==> is_author_of(commits@, #[trigger] r@[i]@),
        forall|k: int|
            0 <= k < commits@.len() ==> appears_in(r@, #[trigger] commits@[k].author_name@),
        forall|i: int, j: int|
            0 <= i < j < r@.len() ==> first_author_index(commits@, #[trigger] r@[i]@)
                < first_author_index(commits@, #[trigger] r@[j]@),
{
    let mut r: Vec<String> = Vec::new();
    let n = commits.len();
    let mut k: usize = 0;
    while k < n
        invariant
            n == commits@.len(),
            k <= n,
            forall|i: int, j: int| 0 <= i < j < r@.len() ==> #[trigger] r@[i]@ != #[trigger] r@[j]@,
            forall|i: int| 0 <= i < r@.len() ==> is_author_of(commits@, #[trigger] r@[i]@),
            forall|t: int|
                0 <= t < k ==> appears_in(r@, #[trigger] commits@[t].author_name@),
            forall|i: int|
                0 <= i < r@.len() ==> 0 <= first_author_index(commits@, #[trigger] r@[i]@) < k,
            forall|i: int, j: int|
                0 <= i < j < r@.len() ==> first_author_index(commits@, #[trigger] r@[i]@)
                    < first_author_index(commits@, #[trigger] r@[j]@),
        decreases n - k,
    {
        let name = &commits[k].author_name;
        let mut seen = false;
        let m = r.len();
        let mut i: usize = 0;
        while i < m
            invariant
                m == r@.len(),
                i <= m,
                name@ == commits@[k as int].author_name@,
                k < commits@.len(),
                seen ==> exists|j: int| 0 <= j < r@.len() && #[trigger] r@[j]@ == name@,
                !seen ==> forall|j: int| 0 <= j < i ==> r@[j]@ != name@,
            decreases m - i,
        {
            if r[i].eq(name) {
                seen = true;
            }
            i = i + 1;
        }
        let ghost r_old = r@;
        if !seen {
            r.push(name.clone());
            proof {
                // the pushed name first appears exactly here: an earlier
                // occurrence would already stand in the list
                lemma_first_author_index(commits@, name@);
                let f = first_author_index(commits@, name@);
                assert(commits@[k as int].author_name@ == name@);
                assert(0 <= f <= k as int);
                if f < k as int {
                    assert(appears_in(r_old, commits@[f].author_name@));
                    let w = choose|j: int| 0 <= j < r_old.len() && #[trigger] r_old[j]@
                        == commits@[f].author_name@;
                    assert(r_old[w]@ == name@);
                }
                assert(f == k as int);
                assert forall|i: int, j: int|
                    0 <= i < j < r@.len() implies first_author_index(
                    commits@,
                    #[trigger] r@[i]@,
                ) < first_author_index(commits@, #[trigger] r@[j]@) by {
                    if j < r@.len() - 1 {
                        assert(r@[i]@ == r_old[i]@ && r@[j]@ == r_old[j]@);
                    } else {
                        assert(r@[j]@ == name@);
                        assert(first_author_index(commits@, r@[i]@) < k as int);
                    }
                }
            }
        }
        k = k + 1;
        proof {
            assert forall|t: int| 0 <= t < k implies appears_in(
                r@,
                #[trigger] commits@[t].author_name@,
            ) by {
                if t < k - 1 {
                    let w = choose|i: int|
                        0 <= i < r_old.len() && #[trigger] r_old[i]@ == commits@[t].author_name@;
                    assert(r@[w]@ == commits@[t].author_name@);
                } else {
                    if seen {
                        let w = choose|j: int| 0 <= j < r_old.len() && #[trigger] r_old[j]@
                            == name@;
                        assert(r@[w]@ == commits@[t].author_name@);
                    } else {
                        assert(r@[r@.len() - 1]@ == commits@[t].author_name@);
                    }
                }
            }
        }
    }
    r
}

/// Aggregates a chain for display: the commit count, the first and last
/// timestamps, the whole-day span between them, and the distinct authors.
pub fn history_stats(commits: &Vec<CommitInfo>) -> (r: HistoryStats)
    ensures
        r.total_commits == commits@.len(),
        commits@.len() == 0 ==> r.earliest is None && r.latest is None && r.span_days == 0
            && r.authors@.len() == 0,
        commits@.len() > 0 ==> {
            &&& (r.earliest matches Some(lo) && (exists|i: int|
                0 <= i < commits@.len() && #[trigger] commits@[i].timestamp == lo) && (forall|
            i: int|
                0 <= i < commits@.len() ==> lo <= #[trigger] commits@[i].timestamp))
            &&& (r.latest matches Some(hi) && (exists|i: int|
                0 <= i < commits@.len() && #[trigger] commits@[i].timestamp == hi) && (forall|
            i: int|
                0 <= i < commits@.len() ==> #[trigger] commits@[i].timestamp <= hi))
            &&& r.span_days == (r.latest->0 - r.earliest->0) / 86400
        },
        forall|i: int, j: int|
            0 <= i < j < r.authors@.len() ==> #[trigger] r.authors@[i]@ != #[trigger] r.authors@[j]@,
        forall|i: int| 0 <= i < r.authors@.len() ==> is_author_of(commits@, #[trigger] r.authors@[i]@),
        forall|k: int|
            0 <= k < commits@.len() ==> appears_in(
                r.authors@,
                #[trigger] commits@[k].author_name@,
            ),
        forall|i: int, j: int|
            0 <= i < j < r.authors@.len() ==> first_author_index(
                commits@,
                #[trigger] r.authors@[i]@,
            ) < first_author_index(commits@, #[trigger] r.authors@[j]@),
{
    let n = commits.len();
    if n == 0 {
        let authors = distinct_authors(commits);
        proof {
            if authors@.len() > 0 {
                assert(is_author_of(commits@, authors@[0]@));
            }
        }
        return HistoryStats {
            total_commits: 0,
            earliest: None,
            latest: None,
            span_days: 0,
            authors,
        };
    }
    let mut lo: i64 = commits[0].timestamp;
    let mut hi: i64 = commits[0].timestamp;
    let mut i: usize = 1;
    while i < n
        invariant
            n == commits@.len(),
            1 <= i <= n,
            exists|j: int| 0 <= j < i && #[trigger] commits@[j].timestamp == lo,
            forall|j: int| 0 <= j < i ==> lo <= #[trigger] commits@[j].timestamp,
            exists|j: int| 0 <= j < i && #[trigger] commits@[j].timestamp == hi,
            forall|j: int| 0 <= j < i ==> #[trigger] commits@[j].timestamp <= hi,
        decreases n - i,
    {
        let t = commits[i].timestamp;
        if t < lo {
            lo = t;
        }
        if t > hi {
            hi = t;
        }
        i = i + 1;
    }
    // the span cannot overflow a 64-bit count of seconds, so widen first
    proof {
        assert(lo <= commits@[0].timestamp && commits@[0].timestamp <= hi);
    }
    let span_wide: i128 = (hi as i128) - (lo as i128);
    proof {
        vstd::arithmetic::div_mod::lemma_div_pos_is_pos(span_wide as int, 86400);
        vstd::arithmetic::div_mod::lemma_div_is_ordered(
            span_wide as int,
            18_446_744_073_709_551_615,
            86400,
        );
    }
    let span_days: i64 = (span_wide / 86400) as i64;
    let authors = distinct_authors(commits);
    HistoryStats { total_commits: n, earliest: Some(lo), latest: Some(hi), span_days, authors }
}

} // verus!
