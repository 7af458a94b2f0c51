use git_editor::EditOptions;
use git_editor::RewritePass;
use git_editor::SourceCommit;

fn chain() -> Vec<SourceCommit> {
    vec![
        SourceCommit {
            id: 1,
            tree_id: 11,
            parents: vec![],
            author_name: "User One".to_string(),
            author_email: "one@example.com".to_string(),
            timestamp: 1672531200,
            message: "Commit 1".to_string(),
            committer_name: "Committer One".to_string(),
            committer_email: "c.one@example.com".to_string(),
            committer_timestamp: 1672531300,
        },
        SourceCommit {
            id: 2,
            tree_id: 22,
            parents: vec![1],
            author_name: "User Two".to_string(),
            author_email: "two@example.com".to_string(),
            timestamp: 1672617600,
            message: "Commit 2".to_string(),
            committer_name: "Committer Two".to_string(),
            committer_email: "c.two@example.com".to_string(),
            committer_timestamp: 1672617700,
        },
        SourceCommit {
            id: 3,
            tree_id: 33,
            parents: vec![2],
            author_name: "User Three".to_string(),
            author_email: "three@example.com".to_string(),
            timestamp: 1672704000,
            message: "Commit 3".to_string(),
            committer_name: "Committer Three".to_string(),
            committer_email: "c.three@example.com".to_string(),
            committer_timestamp: 1672704100,
        },
    ]
}

fn identity_transforms(n: usize) -> Vec<EditOptions> {
    let mut v = Vec::new();
    for _ in 0..n {
        v.push(EditOptions::identity());
    }
    v
}

#[test]
fn test_rewrite_pass_preserves_trees_and_count() {
    // a full pass keeps each commit's tree and creates exactly one commit
    // per source commit
    let commits = chain();
    let mut transforms = identity_transforms(3);
    transforms[0] = EditOptions {
        author_name: Some("New User".to_string()),
        author_email: Some("new@example.com".to_string()),
        timestamp: Some(1700000000),
        message: None,
    };
    let mut pass = RewritePass::new(commits, transforms);
    let mut created = 0;
    let mut next_id = 101;
    let mut trees = Vec::new();
    while !pass.is_done() {
        let plan = pass.plan_next();
        trees.push(plan.tree_id);
        pass.record_created(next_id);
        next_id += 1;
        created += 1;
    }
    assert_eq!(created, 3);
    assert_eq!(trees, vec![11, 22, 33]);
}

#[test]
fn test_rewrite_pass_remaps_parents_in_order() {
    // every recreated commit points at the recreated form of its parents
    let commits = chain();
    let mut pass = RewritePass::new(commits, identity_transforms(3));

    let first = pass.plan_next();
    assert_eq!(first.parents, Vec::<u64>::new());
    pass.record_created(101);

    let second = pass.plan_next();
    assert_eq!(second.parents, vec![101]);
    pass.record_created(102);

    let third = pass.plan_next();
    assert_eq!(third.parents, vec![102]);
    pass.record_created(103);

    assert!(pass.is_done());
    assert_eq!(pass.tip(), Some(103));
}

#[test]
fn test_rewrite_pass_parent_outside_span_passes_through() {
    // a parent that is not part of the rewritten chain keeps its identity
    let commits = vec![SourceCommit {
        id: 5,
        tree_id: 55,
        parents: vec![999],
        author_name: "User".to_string(),
        author_email: "user@example.com".to_string(),
        timestamp: 1672531200,
        message: "On top of an untouched base".to_string(),
        committer_name: "Committer".to_string(),
        committer_email: "committer@example.com".to_string(),
        committer_timestamp: 1672531200,
    }];
    let pass = RewritePass::new(commits, identity_transforms(1));
    let plan = pass.plan_next();
    assert_eq!(plan.parents, vec![999]);
}

#[test]
fn test_rewrite_pass_applies_transform_fields() {
    let commits = chain();
    let mut transforms = identity_transforms(3);
    transforms[1] = EditOptions {
        author_name: Some("Edited".to_string()),
        author_email: None,
        timestamp: Some(1700000000),
        message: Some("Rewritten message".to_string()),
    };
    let mut pass = RewritePass::new(commits, transforms);

    let first = pass.plan_next();
    assert_eq!(first.author_name, "User One");
    assert_eq!(first.message, "Commit 1");
    // untouched commits keep their committer verbatim
    assert_eq!(first.committer_name, "Committer One");
    assert_eq!(first.committer_email, "c.one@example.com");
    assert_eq!(first.committer_timestamp, 1672531300);
    pass.record_created(101);

    let second = pass.plan_next();
    assert_eq!(second.author_name, "Edited");
    // an absent override keeps the original value
    assert_eq!(second.author_email, "two@example.com");
    assert_eq!(second.timestamp, 1700000000);
    assert_eq!(second.message, "Rewritten message");
    assert_eq!(second.tree_id, 22);
    // a timestamp override re-signs the committer with the planned author
    assert_eq!(second.committer_name, "Edited");
    assert_eq!(second.committer_email, "two@example.com");
    assert_eq!(second.committer_timestamp, 1700000000);
}

#[test]
fn test_rewrite_pass_message_only_edit_keeps_committer() {
    // an edit that overrides no timestamp leaves the committer untouched
    let commits = chain();
    let mut transforms = identity_transforms(3);
    transforms[0] = EditOptions {
        author_name: None,
        author_email: None,
        timestamp: None,
        message: Some("Only the message changes".to_string()),
    };
    let pass = RewritePass::new(commits, transforms);
    let first = pass.plan_next();
    assert_eq!(first.message, "Only the message changes");
    assert_eq!(first.committer_name, "Committer One");
    assert_eq!(first.committer_email, "c.one@example.com");
    assert_eq!(first.committer_timestamp, 1672531300);
    assert_eq!(first.timestamp, 1672531200);
}

#[test]
fn test_rewrite_pass_tip_differs_from_original() {
    // after a successful pass the new branch tip is a new identity
    let commits = chain();
    let original_tip = commits[2].id;
    let mut pass = RewritePass::new(commits, identity_transforms(3));
    let mut next_id = 500;
    while !pass.is_done() {
        let _plan = pass.plan_next();
        pass.record_created(next_id);
        next_id += 1;
    }
    let tip = pass.tip().unwrap();
    assert_ne!(tip, original_tip);
    assert_eq!(tip, 502);
}

#[test]
fn test_rewrite_pass_empty_chain_has_no_tip() {
    let pass = RewritePass::new(Vec::new(), Vec::new());
    assert!(pass.is_done());
    assert_eq!(pass.tip(), None);
}
