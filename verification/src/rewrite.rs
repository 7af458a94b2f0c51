use vstd::prelude::*;

use crate::types::CommitInfo;
use crate::types::EditOptions;
use crate::types::EditOptionsModel;
use std::collections::HashMap;

verus! {

/// One commit as the rewrite engine consumes it: the snapshot's metadata
/// plus the structural facts the engine must preserve — the tree, the
/// ordered parent identities, and the committer identity that untouched
/// commits keep.
#[derive(Debug)]
pub struct SourceCommit {
    pub id: u64,
    pub tree_id: u64,
    pub parents: Vec<u64>,
    pub author_name: String,
    pub author_email: String,
    /// Seconds since the Unix epoch.
    pub timestamp: i64,
    pub message: String,
    pub committer_name: String,
    pub committer_email: String,
    /// Seconds since the Unix epoch.
    pub committer_timestamp: i64,
}

#[verifier::ext_equal]
pub struct SourceCommitModel {
    pub id: u64,
    pub tree_id: u64,
    pub parents: Seq<u64>,
    pub author_name: Seq<char>,
    pub author_email: Seq<char>,
    pub timestamp: i64,
    pub message: Seq<char>,
    pub committer_name: Seq<char>,
    pub committer_email: Seq<char>,
    pub committer_timestamp: i64,
}

impl View for SourceCommit {
    type V = SourceCommitModel;

    open spec fn view(&self) -> SourceCommitModel {
        SourceCommitModel {
            id: self.id,
            tree_id: self.tree_id,
            parents: self.parents@,
            author_name: self.author_name@,
            author_email: self.author_email@,
            timestamp: self.timestamp,
            message: self.message@,
            committer_name: self.committer_name@,
            committer_email: self.committer_email@,
            committer_timestamp: self.committer_timestamp,
        }
    }
}

/// What the engine asks the backend to create: same tree, remapped parents,
/// transformed metadata, and the committer the rule below assigns.
#[derive(Debug)]
pub struct NewCommit {
    pub tree_id: u64,
    pub parents: Vec<u64>,
    pub author_name: String,
    pub author_email: String,
    /// Seconds since the Unix epoch.
    pub timestamp: i64,
    pub message: String,
    pub committer_name: String,
    pub committer_email: String,
    /// Seconds since the Unix epoch.
    pub committer_timestamp: i64,
}

#[verifier::ext_equal]
pub struct NewCommitModel {
    pub tree_id: u64,
    pub parents: Seq<u64>,
    pub author_name: Seq<char>,
    pub author_email: Seq<char>,
    pub timestamp: i64,
    pub message: Seq<char>,
    pub committer_name: Seq<char>,
    pub committer_email: Seq<char>,
    pub committer_timestamp: i64,
}

impl View for NewCommit {
    type V = NewCommitModel;

    open spec fn view(&self) -> NewCommitModel {
        NewCommitModel {
            tree_id: self.tree_id,
            parents: self.parents@,
            author_name: self.author_name@,
            author_email: self.author_email@,
            timestamp: self.timestamp,
            message: self.message@,
            committer_name: self.committer_name@,
            committer_email: self.committer_email@,
            committer_timestamp: self.committer_timestamp,
        }
    }
}

/// A parent identity resolved through the remap: already-rewritten parents
/// map to their new identity, parents outside the rewritten span pass
/// through verbatim.
pub open spec fn resolve_parent_spec(remap: Map<u64, u64>, p: u64) -> u64 {
    if remap.contains_key(p) {
        remap[p]
    } else {
        p
    }
}

pub open spec fn resolve_parents_spec(remap: Map<u64, u64>, parents: Seq<u64>) -> Seq<u64> {
    parents.map_values(|p: u64| resolve_parent_spec(remap, p))
}

/// The commit the engine plans for one source commit under one transform
/// and the remap accumulated so far: the tree is kept, the parents are
/// resolved, each metadata field is the override where one is given and the
/// original value otherwise, and the committer follows the timestamp — a
/// commit whose timestamp is overridden is re-signed with the planned
/// author identity at the new moment, any other commit keeps its original
/// committer untouched.
pub open spec fn plan_spec(
    c: SourceCommitModel,
    t: EditOptionsModel,
    remap: Map<u64, u64>,
) -> NewCommitModel {
    let planned_author_name = match t.author_name {
        Some(n) => n,
        None => c.author_name,
    };
    let planned_author_email = match t.author_email {
        Some(e) => e,
        None => c.author_email,
    };
    NewCommitModel {
        tree_id: c.tree_id,
        parents: resolve_parents_spec(remap, c.parents),
        author_name: planned_author_name,
        author_email: planned_author_email,
        timestamp: match t.timestamp {
            Some(ts) => ts,
            None => c.timestamp,
        },
        message: match t.message {
            Some(m) => m,
            None => c.message,
        },
        committer_name: match t.timestamp {
            Some(_) => planned_author_name,
            None => c.committer_name,
        },
        committer_email: match t.timestamp {
            Some(_) => planned_author_email,
            None => c.committer_email,
        },
        committer_timestamp: match t.timestamp {
            Some(ts) => ts,
            None => c.committer_timestamp,
        },
    }
}

/// The remap after the first `new_ids.len()` commits have been recreated:
/// the i-th original identity points at the i-th created identity.
pub open spec fn remap_model(ids: Seq<u64>, new_ids: Seq<u64>) -> Map<u64, u64>
    decreases new_ids.len(),
{
    if new_ids.len() == 0 {
        Map::empty()
    } else {
        remap_model(ids, new_ids.drop_last()).insert(
            ids[new_ids.len() - 1],
            new_ids.last(),
        )
    }
}

/// The whole pass as a function: the sequence of commits the engine plans,
/// where the plan for position `i` resolves parents through the remap built
/// from the first `i` created identities.
pub open spec fn rewrite_plan(
    commits: Seq<SourceCommitModel>,
    transforms: Seq<EditOptionsModel>,
    new_ids: Seq<u64>,
) -> Seq<NewCommitModel> {
    Seq::new(
        commits.len(),
        |i: int| plan_spec(
            commits[i],
            transforms[i],
            remap_model(commits.map_values(|c: SourceCommitModel| c.id), new_ids.take(i)),
        ),
    )
}

pub open spec fn distinct_ids(commits: Seq<SourceCommitModel>) -> bool {
    forall|i: int, j: int|
        0 <= i < j < commits.len() ==> #[trigger] commits[i].id != #[trigger] commits[j].id
}

/// Law: a rewrite pass plans exactly one commit per source commit, and every
/// planned commit carries its source commit's tree — whatever the
/// transforms, and whatever identities the backend assigned so far.
pub proof fn lemma_rewrite_preserves_count_and_trees(
    commits: Seq<SourceCommitModel>,
    transforms: Seq<EditOptionsModel>,
    new_ids: Seq<u64>,
)
    ensures
        rewrite_plan(commits, transforms, new_ids).len() == commits.len(),
        forall|i: int|
            0 <= i < commits.len() ==> #[trigger] rewrite_plan(commits, transforms, new_ids)[i]
                .tree_id == commits[i].tree_id,
{
}

/// Law: a commit that no transform touches is recreated identically — the
/// tree, author, committer, timestamp and message all pass through; only
/// its parent identities are remapped.
pub proof fn lemma_untouched_commit_passes_through(
    c: SourceCommitModel,
    t: EditOptionsModel,
    remap: Map<u64, u64>,
)
    requires
        t.author_name is None,
        t.author_email is None,
        t.timestamp is None,
        t.message is None,
    ensures
        ({
            let p = plan_spec(c, t, remap);
            &&& p.tree_id == c.tree_id
            &&& p.author_name == c.author_name
            &&& p.author_email == c.author_email
            &&& p.timestamp == c.timestamp
            &&& p.message == c.message
            &&& p.committer_name == c.committer_name
            &&& p.committer_email == c.committer_email
            &&& p.committer_timestamp == c.committer_timestamp
            &&& p.parents == resolve_parents_spec(remap, c.parents)
        }),
{
}

/// Law: every planned commit has exactly as many parents as its source
/// commit, in the same order, each mapped through the identity remap built
/// from the identities created before it.
pub proof fn lemma_rewrite_preserves_ancestry(
    commits: Seq<SourceCommitModel>,
    transforms: Seq<EditOptionsModel>,
    new_ids: Seq<u64>,
)
    ensures
        forall|i: int|
            0 <= i < commits.len() ==> #[trigger] rewrite_plan(commits, transforms, new_ids)[i]
                .parents.len() == commits[i].parents.len(),
        forall|i: int, j: int|
            0 <= i < commits.len() && 0 <= j < commits[i].parents.len() ==> rewrite_plan(
                commits,
                transforms,
                new_ids,
            )[i].parents[j] == resolve_parent_spec(
                remap_model(
                    commits.map_values(|c: SourceCommitModel| c.id),
                    new_ids.take(i),
                ),
                #[trigger] commits[i].parents[j],
            ),
{
    assert forall|i: int, j: int|
        0 <= i < commits.len() && 0 <= j < commits[i].parents.len() implies rewrite_plan(
        commits,
        transforms,
        new_ids,
    )[i].parents[j] == resolve_parent_spec(
        remap_model(commits.map_values(|c: SourceCommitModel| c.id), new_ids.take(i)),
        #[trigger] commits[i].parents[j],
    ) by {
        let remap = remap_model(
            commits.map_values(|c: SourceCommitModel| c.id),
            new_ids.take(i),
        );
        assert(rewrite_plan(commits, transforms, new_ids)[i].parents == resolve_parents_spec(
            remap,
            commits[i].parents,
        ));
    }
}

/// Resolves every parent of one commit through the remap.
fn resolve_parents(remap: &HashMap<u64, u64>, parents: &Vec<u64>) -> (r: Vec<u64>)
    ensures
        r@ == resolve_parents_spec(remap@, parents@),
{
    let mut r: Vec<u64> = Vec::new();
    let n = parents.len();
    let mut i: usize = 0;
    while i < n
        invariant
            n == parents@.len(),
            i <= n,
            r@ == resolve_parents_spec(remap@, parents@.take(i as int)),
        decreases n - i,
    {
        let p = parents[i];
        let q = match remap.get(&p) {
            Some(v) => *v,
            None => p,
        };
        assert(q == resolve_parent_spec(remap@, p));
        r.push(q);
        i = i + 1;
        assert(r@ =~= resolve_parents_spec(remap@, parents@.take(i as int)));
    }
    assert(parents@.take(n as int) =~= parents@);
    r
}

/// Plans the new commit for one source commit: same tree, parents resolved
/// through the remap, fields taken from the transform where it overrides,
/// and the committer re-signed exactly when the timestamp is overridden.
pub fn plan_commit(c: &SourceCommit, t: &EditOptions, remap: &HashMap<u64, u64>) -> (r:
    NewCommit)
    ensures
        r@ == plan_spec(c@, t@, remap@),
{
    let parents = resolve_parents(remap, &c.parents);
    let author_name = match &t.author_name {
        Some(n) => n.clone(),
        None => c.author_name.clone(),
    };
    let author_email = match &t.author_email {
        Some(e) => e.clone(),
        None => c.author_email.clone(),
    };
    let timestamp = match t.timestamp {
        Some(ts) => ts,
        None => c.timestamp,
    };
    let message = match &t.message {
        Some(m) => m.clone(),
        None => c.message.clone(),
    };
    let (committer_name, committer_email, committer_timestamp) = match t.timestamp {
        Some(ts) => (author_name.clone(), author_email.clone(), ts),
        None => (
            c.committer_name.clone(),
            c.committer_email.clone(),
            c.committer_timestamp,
        ),
    };
    let r = NewCommit {
        tree_id: c.tree_id,
        parents,
        author_name,
        author_email,
        timestamp,
        message,
        committer_name,
        committer_email,
        committer_timestamp,
    };
    assert(r@ =~= plan_spec(c@, t@, remap@));
    r
}

/// One rewrite pass over the whole chain, oldest first. The pass plans each
/// commit in turn; the caller creates it through the backend and hands the
/// created identity back, which extends the remap. The branch reference
/// moves only after the pass is complete, so an aborted pass leaves the
/// original branch untouched.
pub struct RewritePass {
    commits: Vec<SourceCommit>,
    transforms: Vec<EditOptions>,
    remap: HashMap<u64, u64>,
    created: Vec<u64>,
}

impl RewritePass {
    pub closed spec fn commits_model(&self) -> Seq<SourceCommitModel> {
        self.commits@.map_values(|c: SourceCommit| c@)
    }

    pub closed spec fn transforms_model(&self) -> Seq<EditOptionsModel> {
        self.transforms@.map_values(|t: EditOptions| t@)
    }

    pub closed spec fn created_ids(&self) -> Seq<u64> {
        self.created@
    }

    /// The invariant of a pass: one transform per commit, distinct source
    /// identities, no more created commits than sources, and a remap that is
    /// exactly the pairs recorded so far.
    pub closed spec fn well_formed(&self) -> bool {
        &&& self.transforms@.len() == self.commits@.len()
        &&& distinct_ids(self.commits_model())
        &&& self.created@.len() <= self.commits@.len()
        &&& self.remap@ == remap_model(
            self.commits_model().map_values(|c: SourceCommitModel| c.id),
            self.created@,
        )
    }

    pub fn new(commits: Vec<SourceCommit>, transforms: Vec<EditOptions>) -> (r: RewritePass)
        requires
            transforms@.len() == commits@.len(),
            distinct_ids(commits@.map_values(|c: SourceCommit| c@)),
        ensures
            r.well_formed(),
            r.commits_model() == commits@.map_values(|c: SourceCommit| c@),
            r.transforms_model() == transforms@.map_values(|t: EditOptions| t@),
            r.created_ids().len() == 0,
    {
        let r = RewritePass {
            commits,
            transforms,
            remap: HashMap::new(),
            created: Vec::new(),
        };
        proof {
            assert(r.remap@ =~= remap_model(
                r.commits_model().map_values(|c: SourceCommitModel| c.id),
                r.created@,
            ));
        }
        r
    }

    pub fn len(&self) -> (r: usize)
        ensures
            r == self.commits_model().len(),
    {
        self.commits.len()
    }

    /// How many commits the backend has created in this pass so far.
    pub fn position(&self) -> (r: usize)
        ensures
            r == self.created_ids().len(),
    {
        self.created.len()
    }

    /// The pass is finished when every source commit has been recreated.
    pub fn is_done(&self) -> (r: bool)
        ensures
            r == (self.created_ids().len() == self.commits_model().len()),
    {
        self.created.len() == self.commits.len()
    }

    /// Plans the next commit: the one at the current position, with parents
    /// resolved through the remap of everything created before it.
    pub fn plan_next(&self) -> (r: NewCommit)
        requires
            self.well_formed(),
            self.created_ids().len() < self.commits_model().len(),
        ensures
            r@ == rewrite_plan(
                self.commits_model(),
                self.transforms_model(),
                self.created_ids(),
            )[self.created_ids().len() as int],
    {
        let k = self.created.len();
        let r = plan_commit(&self.commits[k], &self.transforms[k], &self.remap);
        proof {
            assert(self.created@.take(k as int) =~= self.created@);
            assert(self.commits_model()[k as int] == self.commits@[k as int]@);
            assert(self.transforms_model()[k as int] == self.transforms@[k as int]@);
        }
        r
    }

    /// Records the identity the backend assigned to the commit just created,
    /// extending the remap and advancing the pass.
    pub fn record_created(&mut self, new_id: u64)
        requires
            old(self).well_formed(),
            old(self).created_ids().len() < old(self).commits_model().len(),
        ensures
            final(self).well_formed(),
            final(self).commits_model() == old(self).commits_model(),
            final(self).transforms_model() == old(self).transforms_model(),
            final(self).created_ids() == old(self).created_ids().push(new_id),
    {
        let k = self.created.len();
        let orig_id = self.commits[k].id;
        self.remap.insert(orig_id, new_id);
        self.created.push(new_id);
        proof {
            let ids = self.commits_model().map_values(|c: SourceCommitModel| c.id);
            assert(self.created@.drop_last() =~= old(self).created@);
            assert(ids[self.created@.len() - 1] == orig_id);
            assert(self.remap@ =~= remap_model(ids, self.created@));
        }
    }

    /// The new branch tip: the most recently created identity.
    pub fn tip(&self) -> (r: Option<u64>)
        ensures
            match r {
                Some(id) => self.created_ids().len() > 0 && id == self.created_ids().last(),
                None => self.created_ids().len() == 0,
            },
    {
        if self.created.len() == 0 {
            None
        } else {
            Some(self.created[self.created.len() - 1])
        }
    }
}

} // verus!
