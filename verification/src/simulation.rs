use vstd::prelude::*;

use crate::errors::Result;
use crate::types::Args;
use crate::types::CommitInfo;
use crate::types::view_opt_string;

verus! {

/// One commit's planned change: the original metadata beside an optional
/// new value per field; an absent value keeps the original.
#[derive(Debug)]
pub struct SimulationChange {
    pub commit_oid: u64,
    pub short_hash: String,
    pub original_author: String,
    pub original_email: String,
    /// Seconds since the Unix epoch.
    pub original_timestamp: i64,
    pub original_message: String,
    pub new_author: Option<String>,
    pub new_email: Option<String>,
    pub new_timestamp: Option<i64>,
    pub new_message: Option<String>,
}

#[verifier::ext_equal]
pub struct SimulationChangeModel {
    pub commit_oid: u64,
    pub short_hash: Seq<char>,
    pub original_author: Seq<char>,
    pub original_email: Seq<char>,
    pub original_timestamp: i64,
    pub original_message: Seq<char>,
    pub new_author: Option<Seq<char>>,
    pub new_email: Option<Seq<char>>,
    pub new_timestamp: Option<i64>,
    pub new_message: Option<Seq<char>>,
}

impl View for SimulationChange {
    type V = SimulationChangeModel;

    open spec fn view(&self) -> SimulationChangeModel {
        SimulationChangeModel {
            commit_oid: self.commit_oid,
            short_hash: self.short_hash@,
            original_author: self.original_author@,
            original_email: self.original_email@,
            original_timestamp: self.original_timestamp,
            original_message: self.original_message@,
            new_author: view_opt_string(self.new_author),
            new_email: view_opt_string(self.new_email),
            new_timestamp: self.new_timestamp,
            new_message: view_opt_string(self.new_message),
        }
    }
}

/// Whether a planned change carries any override at all.
pub open spec fn has_changes_spec(c: SimulationChangeModel) -> bool {
    c.new_author is Some || c.new_email is Some || c.new_timestamp is Some || c.new_message
        is Some
}

impl SimulationChange {
    pub fn has_changes(&self) -> (r: bool)
        ensures
            r == has_changes_spec(self@),
    {
        self.new_author.is_some() || self.new_email.is_some() || self.new_timestamp.is_some()
            || self.new_message.is_some()
    }
}

impl Clone for SimulationChange {
    fn clone(&self) -> (r: SimulationChange)
        ensures
            r@ == self@,
    {
        SimulationChange {
            commit_oid: self.commit_oid,
            short_hash: self.short_hash.clone(),
            original_author: self.original_author.clone(),
            original_email: self.original_email.clone(),
            original_timestamp: self.original_timestamp,
            original_message: self.original_message.clone(),
            new_author: self.new_author.clone(),
            new_email: self.new_email.clone(),
            new_timestamp: self.new_timestamp,
            new_message: self.new_message.clone(),
        }
    }
}

/// How many planned changes carry any override.
pub open spec fn count_changed(s: Seq<SimulationChangeModel>) -> int
    decreases s.len(),
{
    if s.len() == 0 {
        0
    } else {
        count_changed(s.drop_last()) + (if has_changes_spec(s.last()) {
            1int
        } else {
            0int
        })
    }
}

/// How many planned changes override the author name.
pub open spec fn count_new_author(s: Seq<SimulationChangeModel>) -> int
    decreases s.len(),
{
    if s.len() == 0 {
        0
    } else {
        count_new_author(s.drop_last()) + (if s.last().new_author is Some {
            1int
        } else {
            0int
        })
    }
}

/// How many planned changes override the author address.
pub open spec fn count_new_email(s: Seq<SimulationChangeModel>) -> int
    decreases s.len(),
{
    if s.len() == 0 {
        0
    } else {
        count_new_email(s.drop_last()) + (if s.last().new_email is Some {
            1int
        } else {
            0int
        })
    }
}

/// How many planned changes override the timestamp.
pub open spec fn count_new_timestamp(s: Seq<SimulationChangeModel>) -> int
    decreases s.len(),
{
    if s.len() == 0 {
        0
    } else {
        count_new_timestamp(s.drop_last()) + (if s.last().new_timestamp is Some {
            1int
        } else {
            0int
        })
    }
}

/// How many planned changes override the message.
pub open spec fn count_new_message(s: Seq<SimulationChangeModel>) -> int
    decreases s.len(),
{
    if s.len() == 0 {
        0
    } else {
        count_new_message(s.drop_last()) + (if s.last().new_message is Some {
            1int
        } else {
            0int
        })
    }
}

proof fn lemma_count_bounds(s: Seq<SimulationChangeModel>)
    ensures
        0 <= count_changed(s) <= s.len(),
        0 <= count_new_author(s) <= s.len(),
        0 <= count_new_email(s) <= s.len(),
        0 <= count_new_timestamp(s) <= s.len(),
        0 <= count_new_message(s) <= s.len(),
    decreases s.len(),
{
    if s.len() > 0 {
        lemma_count_bounds(s.drop_last());
    }
}

/// The aggregate picture of a simulated run.
#[derive(Debug)]
pub struct SimulationStats {
    pub total_commits: usize,
    pub commits_to_change: usize,
    pub authors_changed: usize,
    pub emails_changed: usize,
    pub timestamps_changed: usize,
    pub messages_changed: usize,
    /// Seconds since the Unix epoch.
    pub date_range_start: Option<i64>,
    pub date_range_end: Option<i64>,
}

impl SimulationStats {
    /// Opens the statistics over a chain: its length and the span of its
    /// timestamps, with every change counter still at zero.
    pub fn new(commits: &Vec<CommitInfo>) -> (r: SimulationStats)
        ensures
            r.total_commits == commits@.len(),
            r.commits_to_change == 0,
            r.authors_changed == 0,
            r.emails_changed == 0,
            r.timestamps_changed == 0,
            r.messages_changed == 0,
            commits@.len() == 0 ==> r.date_range_start is None && r.date_range_end is None,
            commits@.len() > 0 ==> {
                &&& (r.date_range_start matches Some(lo) && (exists|i: int|
                    0 <= i < commits@.len() && #[trigger] commits@[i].timestamp == lo) && (
                forall|i: int| 0 <= i < commits@.len() ==> lo <= #[trigger] commits@[i].timestamp))
                &&& (r.date_range_end matches Some(hi) && (exists|i: int|
                    0 <= i < commits@.len() && #[trigger] commits@[i].timestamp == hi) && (
                forall|i: int| 0 <= i < commits@.len() ==> #[trigger] commits@[i].timestamp <= hi))
            },
    {
        let n = commits.len();
        if n == 0 {
            return SimulationStats {
                total_commits: 0,
                commits_to_change: 0,
                authors_changed: 0,
                emails_changed: 0,
                timestamps_changed: 0,
                messages_changed: 0,
                date_range_start: None,
                date_range_end: None,
            };
        }
        let mut lo: i64 = commits[0].timestamp;
        let mut hi: i64 = commits[0].timestamp;
        let mut i: usize = 1;
        while i < n
            invariant
                n == commits@.len(),
                1 <= i <= n,
                exists|j: int| 0 <= j < i && #[trigger] commits@[j].timestamp == lo,
                forall|j: int| 0 <= j < i ==> lo <= #[trigger] commits@[j].timestamp,
                exists|j: int| 0 <= j < i && #[trigger] commits@[j].timestamp == hi,
                forall|j: int| 0 <= j < i ==> #[trigger] commits@[j].timestamp <= hi,
            decreases n - i,
        {
            let t = commits[i].timestamp;
            if t < lo {
                lo = t;
            }
            if t > hi {
                hi = t;
            }
            i = i + 1;
        }
        SimulationStats {
            total_commits: n,
            commits_to_change: 0,
            authors_changed: 0,
            emails_changed: 0,
            timestamps_changed: 0,
            messages_changed: 0,
            date_range_start: Some(lo),
            date_range_end: Some(hi),
        }
    }

    /// Folds a list of planned changes into the counters: the
    /// commits-to-change figure becomes the number of changes that carry any
    /// override, and each per-field counter grows by the number of changes
    /// that override that field.
    pub fn update_from_changes(&mut self, changes: &Vec<SimulationChange>)
        requires
            old(self).authors_changed + changes@.len() <= usize::MAX,
            old(self).emails_changed + changes@.len() <= usize::MAX,
            old(self).timestamps_changed + changes@.len() <= usize::MAX,
            old(self).messages_changed + changes@.len() <= usize::MAX,
        ensures
            ({
                let cs = changes@.map_values(|c: SimulationChange| c@);
                &&& final(self).commits_to_change == count_changed(cs)
                &&& final(self).authors_changed == old(self).authors_changed + count_new_author(
                    cs,
                )
                &&& final(self).emails_changed == old(self).emails_changed + count_new_email(cs)
                &&& final(self).timestamps_changed == old(self).timestamps_changed
                    + count_new_timestamp(cs)
                &&& final(self).messages_changed == old(self).messages_changed
                    + count_new_message(cs)
                &&& final(self).total_commits == old(self).total_commits
                &&& final(self).date_range_start == old(self).date_range_start
                &&& final(self).date_range_end == old(self).date_range_end
            }),
    {
        let ghost cs = changes@.map_values(|c: SimulationChange| c@);
        let n = changes.len();
        let mut to_change: usize = 0;
        let mut authors: usize = 0;
        let mut emails: usize = 0;
        let mut timestamps: usize = 0;
        let mut messages: usize = 0;
        let mut i: usize = 0;
        proof {
            assert(cs.subrange(0, 0) =~= Seq::<SimulationChangeModel>::empty());
        }
        while i < n
            invariant
                n == changes@.len(),
                cs == changes@.map_values(|c: SimulationChange| c@),
                i <= n,
                to_change == count_changed(cs.subrange(0, i as int)),
                authors == count_new_author(cs.subrange(0, i as int)),
                emails == count_new_email(cs.subrange(0, i as int)),
                timestamps == count_new_timestamp(cs.subrange(0, i as int)),
                messages == count_new_message(cs.subrange(0, i as int)),
            decreases n - i,
        {
            proof {
                lemma_count_bounds(cs.subrange(0, i as int));
            }
            let c = &changes[i];
            if c.has_changes() {
                to_change = to_change + 1;
            }
            if c.new_author.is_some() {
                authors = authors + 1;
            }
            if c.new_email.is_some() {
                emails = emails + 1;
            }
            if c.new_timestamp.is_some() {
                timestamps = timestamps + 1;
            }
            if c.new_message.is_some() {
                messages = messages + 1;
            }
            i = i + 1;
            proof {
                let pre = cs.subrange(0, i as int);
                assert(pre.drop_last() =~= cs.subrange(0, i as int - 1));
                assert(pre.last() == cs[i as int - 1]);
            }
        }
        proof {
            assert(cs.subrange(0, n as int) =~= cs);
            lemma_count_bounds(cs);
        }
        self.commits_to_change = to_change;
        self.authors_changed = self.authors_changed + authors;
        self.emails_changed = self.emails_changed + emails;
        self.timestamps_changed = self.timestamps_changed + timestamps;
        self.messages_changed = self.messages_changed + messages;
    }
}

/// Which of the three operations a simulation previews.
#[derive(Debug, Clone, Copy, PartialEq, Eq, Structural)]
pub enum SimulationMode {
    FullRewrite,
    /// The selected sub-chain, as zero-based inclusive indices.
    RangeEdit(usize, usize),
    SpecificCommit,
}

/// A simulated run: the per-commit planned changes, their aggregate
/// statistics, and the operation they preview. Nothing here touches the
/// backend.
#[derive(Debug)]
pub struct SimulationResult {
    pub changes: Vec<SimulationChange>,
    pub stats: SimulationStats,
    pub operation_mode: SimulationMode,
}

/// The planned change that pairs one snapshot with a set of overrides.
pub open spec fn planned_change_model(
    c: crate::types::CommitInfoModel,
    na: Option<Seq<char>>,
    ne: Option<Seq<char>>,
    nt: Option<i64>,
    nm: Option<Seq<char>>,
) -> SimulationChangeModel {
    SimulationChangeModel {
        commit_oid: c.oid,
        short_hash: c.short_hash,
        original_author: c.author_name,
        original_email: c.author_email,
        original_timestamp: c.timestamp,
        original_message: c.message,
        new_author: na,
        new_email: ne,
        new_timestamp: nt,
        new_message: nm,
    }
}

/// The statistics of a freshly aggregated change list: totals from the
/// chain, counters from the changes, the date span over the chain's own
/// timestamps.
pub open spec fn stats_aggregated(
    stats: SimulationStats,
    commits: Seq<crate::types::CommitInfoModel>,
    cs: Seq<SimulationChangeModel>,
) -> bool {
    &&& stats.total_commits == commits.len()
    &&& stats.commits_to_change == count_changed(cs)
    &&& stats.authors_changed == count_new_author(cs)
    &&& stats.emails_changed == count_new_email(cs)
    &&& stats.timestamps_changed == count_new_timestamp(cs)
    &&& stats.messages_changed == count_new_message(cs)
    &&& commits.len() == 0 ==> stats.date_range_start is None && stats.date_range_end is None
    &&& commits.len() > 0 ==> {
        &&& (stats.date_range_start matches Some(lo) && (exists|i: int|
            0 <= i < commits.len() && #[trigger] commits[i].timestamp == lo) && (forall|i: int|
            0 <= i < commits.len() ==> lo <= #[trigger] commits[i].timestamp))
        &&& (stats.date_range_end matches Some(hi) && (exists|i: int|
            0 <= i < commits.len() && #[trigger] commits[i].timestamp == hi) && (forall|i: int|
            0 <= i < commits.len() ==> #[trigger] commits[i].timestamp <= hi))
    }
}

/// Plans a full rewrite for preview: every commit takes the configured
/// author name and address and its generated timestamp; messages stay.
pub fn create_full_rewrite_simulation(
    commits: &Vec<CommitInfo>,
    timestamps: &Vec<i64>,
    args: &Args,
) -> (r: Result<SimulationResult>)
    requires
        args.name is Some,
        args.email is Some,
    ensures
        r matches Ok(res) && {
            let cs = res.changes@.map_values(|c: SimulationChange| c@);
            &&& cs.len() == commits@.len()
            &&& forall|i: int|
                0 <= i < cs.len() ==> #[trigger] cs[i] == planned_change_model(
                    commits@[i]@,
                    Some(args.name->0@),
                    Some(args.email->0@),
                    if i < timestamps@.len() {
                        Some(timestamps@[i])
                    } else {
                        None
                    },
                    None,
                )
            &&& res.operation_mode == SimulationMode::FullRewrite
            &&& stats_aggregated(res.stats, commits@.map_values(|c: CommitInfo| c@), cs)
        },
{
    let new_author = match &args.name {
        Some(n) => n.clone(),
        None => String::new(),
    };
    let new_email = match &args.email {
        Some(e) => e.clone(),
        None => String::new(),
    };
    let n = commits.len();
    let mut changes: Vec<SimulationChange> = Vec::new();
    let mut i: usize = 0;
    while i < n
        invariant
            n == commits@.len(),
            new_author@ == args.name->0@,
            new_email@ == args.email->0@,
            i <= n,
            changes@.len() == i,
            forall|j: int|
                0 <= j < i ==> #[trigger] changes@[j]@ == planned_change_model(
                    commits@[j]@,
                    Some(args.name->0@),
                    Some(args.email->0@),
                    if j < timestamps@.len() {
                        Some(timestamps@[j])
                    } else {
                        None
                    },
                    None,
                ),
        decreases n - i,
    {
        let c = &commits[i];
        let new_timestamp: Option<i64> = if i < timestamps.len() {
            Some(timestamps[i])
        } else {
            None
        };
        changes.push(
            SimulationChange {
                commit_oid: c.oid,
                short_hash: c.short_hash.clone(),
                original_author: c.author_name.clone(),
                original_email: c.author_email.clone(),
                original_timestamp: c.timestamp,
                original_message: c.message.clone(),
                new_author: Some(new_author.clone()),
                new_email: Some(new_email.clone()),
                new_timestamp,
                new_message: None,
            },
        );
        i = i + 1;
    }
    let mut stats = SimulationStats::new(commits);
    stats.update_from_changes(&changes);
    proof {
        let mapped = commits@.map_values(|c: CommitInfo| c@);
        if commits@.len() > 0 {
            let lo = stats.date_range_start->0;
            let j = choose|j: int| 0 <= j < commits@.len() && #[trigger] commits@[j].timestamp
                == lo;
            assert(mapped[j].timestamp == lo);
            let hi = stats.date_range_end->0;
            let k = choose|k: int| 0 <= k < commits@.len() && #[trigger] commits@[k].timestamp
                == hi;
            assert(mapped[k].timestamp == hi);
        }
    }
    Ok(SimulationResult { changes, stats, operation_mode: SimulationMode::FullRewrite })
}

/// Plans a range edit for preview: commits inside the zero-based inclusive
/// range take the configured identity (where given) and their share of the
/// evenly spread timestamps; commits outside stay untouched.
pub fn create_range_simulation(
    commits: &Vec<CommitInfo>,
    selected_range: (usize, usize),
    range_timestamps: &Vec<i64>,
    args: &Args,
) -> (r: Result<SimulationResult>)
    ensures
        r matches Ok(res) && {
            let cs = res.changes@.map_values(|c: SimulationChange| c@);
            let start_idx = selected_range.0;
            let end_idx = selected_range.1;
            &&& cs.len() == commits@.len()
            &&& forall|i: int|
                0 <= i < cs.len() ==> #[trigger] cs[i] == (if start_idx <= i <= end_idx {
                    planned_change_model(
                        commits@[i]@,
                        view_opt_string(args.name),
                        view_opt_string(args.email),
                        if i - start_idx < range_timestamps@.len() {
                            Some(range_timestamps@[i - start_idx])
                        } else {
                            None
                        },
                        None,
                    )
                } else {
                    planned_change_model(commits@[i]@, None, None, None, None)
                })
            &&& res.operation_mode == SimulationMode::RangeEdit(start_idx, end_idx)
            &&& stats_aggregated(res.stats, commits@.map_values(|c: CommitInfo| c@), cs)
        },
{
    let (start_idx, end_idx) = selected_range;
    let n = commits.len();
    let mut changes: Vec<SimulationChange> = Vec::new();
    let mut i: usize = 0;
    while i < n
        invariant
            n == commits@.len(),
            i <= n,
            changes@.len() == i,
            forall|j: int|
                0 <= j < i ==> #[trigger] changes@[j]@ == (if start_idx <= j <= end_idx {
                    planned_change_model(
                        commits@[j]@,
                        view_opt_string(args.name),
                        view_opt_string(args.email),
                        if j - start_idx < range_timestamps@.len() {
                            Some(range_timestamps@[j - start_idx])
                        } else {
                            None
                        },
                        None,
                    )
                } else {
                    planned_change_model(commits@[j]@, None, None, None, None)
                }),
        decreases n - i,
    {
        let c = &commits[i];
        let change = if start_idx <= i && i <= end_idx {
            let timestamp_idx = i - start_idx;
            let new_timestamp: Option<i64> = if timestamp_idx < range_timestamps.len() {
                Some(range_timestamps[timestamp_idx])
            } else {
                None
            };
            SimulationChange {
                commit_oid: c.oid,
                short_hash: c.short_hash.clone(),
                original_author: c.author_name.clone(),
                original_email: c.author_email.clone(),
                original_timestamp: c.timestamp,
                original_message: c.message.clone(),
                new_author: args.name.clone(),
                new_email: args.email.clone(),
                new_timestamp,
                new_message: None,
            }
        } else {
            SimulationChange {
                commit_oid: c.oid,
                short_hash: c.short_hash.clone(),
                original_author: c.author_name.clone(),
                original_email: c.author_email.clone(),
                original_timestamp: c.timestamp,
                original_message: c.message.clone(),
                new_author: None,
                new_email: None,
                new_timestamp: None,
                new_message: None,
            }
        };
        changes.push(change);
        i = i + 1;
    }
    let mut stats = SimulationStats::new(commits);
    stats.update_from_changes(&changes);
    proof {
        let mapped = commits@.map_values(|c: CommitInfo| c@);
        if commits@.len() > 0 {
            let lo = stats.date_range_start->0;
            let j = choose|j: int| 0 <= j < commits@.len() && #[trigger] commits@[j].timestamp
                == lo;
            assert(mapped[j].timestamp == lo);
            let hi = stats.date_range_end->0;
            let k = choose|k: int| 0 <= k < commits@.len() && #[trigger] commits@[k].timestamp
                == hi;
            assert(mapped[k].timestamp == hi);
        }
    }
    Ok(
        SimulationResult {
            changes,
            stats,
            operation_mode: SimulationMode::RangeEdit(start_idx, end_idx),
        },
    )
}

/// Plans a single-commit edit for preview: the selected commit takes the
/// given overrides, every other commit stays untouched.
pub fn create_specific_commit_simulation(
    commits: &Vec<CommitInfo>,
    selected_commit_idx: usize,
    new_author: Option<String>,
    new_email: Option<String>,
    new_timestamp: Option<i64>,
    new_message: Option<String>,
) -> (r: Result<SimulationResult>)
    ensures
        r matches Ok(res) && {
            let cs = res.changes@.map_values(|c: SimulationChange| c@);
            &&& cs.len() == commits@.len()
            &&& forall|i: int|
                0 <= i < cs.len() ==> #[trigger] cs[i] == (if i == selected_commit_idx {
                    planned_change_model(
                        commits@[i]@,
                        view_opt_string(new_author),
                        view_opt_string(new_email),
                        new_timestamp,
                        view_opt_string(new_message),
                    )
                } else {
                    planned_change_model(commits@[i]@, None, None, None, None)
                })
            &&& res.operation_mode == SimulationMode::SpecificCommit
            &&& stats_aggregated(res.stats, commits@.map_values(|c: CommitInfo| c@), cs)
        },
{
    let n = commits.len();
    let mut changes: Vec<SimulationChange> = Vec::new();
    let mut i: usize = 0;
    while i < n
        invariant
            n == commits@.len(),
            i <= n,
            changes@.len() == i,
            forall|j: int|
                0 <= j < i ==> #[trigger] changes@[j]@ == (if j == selected_commit_idx {
                    planned_change_model(
                        commits@[j]@,
                        view_opt_string(new_author),
                        view_opt_string(new_email),
                        new_timestamp,
                        view_opt_string(new_message),
                    )
                } else {
                    planned_change_model(commits@[j]@, None, None, None, None)
                }),
        decreases n - i,
    {
        let c = &commits[i];
        let change = if i == selected_commit_idx {
            SimulationChange {
                commit_oid: c.oid,
                short_hash: c.short_hash.clone(),
                original_author: c.author_name.clone(),
                original_email: c.author_email.clone(),
                original_timestamp: c.timestamp,
                original_message: c.message.clone(),
                new_author: new_author.clone(),
                new_email: new_email.clone(),
                new_timestamp,
                new_message: new_message.clone(),
            }
        } else {
            SimulationChange {
                commit_oid: c.oid,
                short_hash: c.short_hash.clone(),
                original_author: c.author_name.clone(),
                original_email: c.author_email.clone(),
                original_timestamp: c.timestamp,
                original_message: c.message.clone(),
                new_author: None,
                new_email: None,
                new_timestamp: None,
                new_message: None,
            }
        };
        changes.push(change);
        i = i + 1;
    }
    let mut stats = SimulationStats::new(commits);
    stats.update_from_changes(&changes);
    proof {
        let mapped = commits@.map_values(|c: CommitInfo| c@);
        if commits@.len() > 0 {
            let lo = stats.date_range_start->0;
            let j = choose|j: int| 0 <= j < commits@.len() && #[trigger] commits@[j].timestamp
                == lo;
            assert(mapped[j].timestamp == lo);
            let hi = stats.date_range_end->0;
            let k = choose|k: int| 0 <= k < commits@.len() && #[trigger] commits@[k].timestamp
                == hi;
            assert(mapped[k].timestamp == hi);
        }
    }
    Ok(SimulationResult { changes, stats, operation_mode: SimulationMode::SpecificCommit })
}

impl SimulationResult {
    /// The planned changes worth showing: those that carry any override, in
    /// order.
    pub fn changes_to_show(&self) -> (r: Vec<SimulationChange>)
        ensures
            r@.map_values(|c: SimulationChange| c@) == self.changes@.map_values(
                |c: SimulationChange| c@,
            ).filter(|c: SimulationChangeModel| has_changes_spec(c)),
    {
        let ghost cs = self.changes@.map_values(|c: SimulationChange| c@);
        let mut r: Vec<SimulationChange> = Vec::new();
        let n = self.changes.len();
        let mut i: usize = 0;
        proof {
            reveal(Seq::filter);
            assert(cs.take(0).filter(|c: SimulationChangeModel| has_changes_spec(c))
                =~= Seq::<SimulationChangeModel>::empty());
            assert(r@.map_values(|c: SimulationChange| c@)
                =~= Seq::<SimulationChangeModel>::empty());
        }
        while i < n
            invariant
                n == self.changes@.len(),
                cs == self.changes@.map_values(|c: SimulationChange| c@),
                i <= n,
                r@.map_values(|c: SimulationChange| c@) == cs.take(i as int).filter(
                    |c: SimulationChangeModel| has_changes_spec(c),
                ),
            decreases n - i,
        {
            let ghost prev = r@.map_values(|c: SimulationChange| c@);
            if self.changes[i].has_changes() {
                r.push(self.changes[i].clone());
                proof {
                    assert(r@.map_values(|c: SimulationChange| c@) =~= prev.push(cs[i as int]));
                }
            }
            i = i + 1;
            proof {
                reveal(Seq::filter);
                let taken = cs.take(i as int);
                assert(taken.drop_last() =~= cs.take(i as int - 1));
                assert(taken.last() == cs[i as int - 1]);
            }
        }
        proof {
            assert(cs.take(n as int) =~= cs);
        }
        r
    }
}

} // verus!
