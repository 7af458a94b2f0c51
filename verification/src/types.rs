use vstd::prelude::*;

use crate::errors::Error;
use crate::errors::Result;

verus! {

/// An immutable snapshot of one commit, as the history reader hands it out:
/// oldest-first ordering, metadata only, never mutated in place.
#[derive(Debug)]
pub struct CommitInfo {
    /// The commit's identity, as a plain number the backend maps to and from
    /// its own object ids.
    pub oid: u64,
    pub short_hash: String,
    /// Seconds since the Unix epoch.
    pub timestamp: i64,
    pub author_name: String,
    pub author_email: String,
    pub message: String,
    pub parent_count: usize,
}

/// The mathematical image of a snapshot: strings as character sequences.
#[verifier::ext_equal]
pub struct CommitInfoModel {
    pub oid: u64,
    pub short_hash: Seq<char>,
    pub timestamp: i64,
    pub author_name: Seq<char>,
    pub author_email: Seq<char>,
    pub message: Seq<char>,
    pub parent_count: usize,
}

impl View for CommitInfo {
    type V = CommitInfoModel;

    open spec fn view(&self) -> CommitInfoModel {
        CommitInfoModel {
            oid: self.oid,
            short_hash: self.short_hash@,
            timestamp: self.timestamp,
            author_name: self.author_name@,
            author_email: self.author_email@,
            message: self.message@,
            parent_count: self.parent_count,
        }
    }
}

impl Clone for CommitInfo {
    fn clone(&self) -> (r: CommitInfo)
        ensures
            r@ == self@,
    {
        CommitInfo {
            oid: self.oid,
            short_hash: self.short_hash.clone(),
            timestamp: self.timestamp,
            author_name: self.author_name.clone(),
            author_email: self.author_email.clone(),
            message: self.message.clone(),
            parent_count: self.parent_count,
        }
    }
}

/// Per-commit field overrides; an absent field keeps the original value.
#[derive(Debug)]
pub struct EditOptions {
    pub author_name: Option<String>,
    pub author_email: Option<String>,
    /// Seconds since the Unix epoch.
    pub timestamp: Option<i64>,
    pub message: Option<String>,
}

#[verifier::ext_equal]
pub struct EditOptionsModel {
    pub author_name: Option<Seq<char>>,
    pub author_email: Option<Seq<char>>,
    pub timestamp: Option<i64>,
    pub message: Option<Seq<char>>,
}

pub open spec fn view_opt_string(s: Option<String>) -> Option<Seq<char>> {
    match s {
        Some(v) => Some(v@),
        None => None,
    }
}

impl View for EditOptions {
    type V = EditOptionsModel;

    open spec fn view(&self) -> EditOptionsModel {
        EditOptionsModel {
            author_name: view_opt_string(self.author_name),
            author_email: view_opt_string(self.author_email),
            timestamp: self.timestamp,
            message: view_opt_string(self.message),
        }
    }
}

impl EditOptions {
    /// A transform that keeps every field.
    pub fn identity() -> (r: EditOptions)
        ensures
            r@.author_name is None,
            r@.author_email is None,
            r@.timestamp is None,
            r@.message is None,
    {
        EditOptions { author_name: None, author_email: None, timestamp: None, message: None }
    }

    /// Whether the transform overrides anything at all.
    pub fn overrides_something(&self) -> (r: bool)
        ensures
            r == (self@.author_name is Some || self@.author_email is Some || self@.timestamp
                is Some || self@.message is Some),
    {
        self.author_name.is_some() || self.author_email.is_some() || self.timestamp.is_some()
            || self.message.is_some()
    }
}

impl Default for EditOptions {
    fn default() -> (r: EditOptions)
        ensures
            r@.author_name is None,
            r@.author_email is None,
            r@.timestamp is None,
            r@.message is None,
    {
        EditOptions { author_name: None, author_email: None, timestamp: None, message: None }
    }
}

/// The operator-facing settings, already freed of anything the command-line
/// layer owns (prompting, cloning, temporary directories).
#[derive(Debug)]
pub struct Args {
    pub repo_path: Option<String>,
    pub email: Option<String>,
    pub name: Option<String>,
    pub start: Option<String>,
    pub end: Option<String>,
    pub show_history: bool,
    pub pick_specific_commits: bool,
    pub range: bool,
    pub simulate: bool,
    pub show_diff: bool,
    pub edit_message: bool,
    pub edit_author: bool,
    pub edit_time: bool,
}

/// The sentinel the configuration layer stores when the operator chose to
/// keep the repository's own timestamps.
pub open spec fn keep_original_marker() -> Seq<char> {
    "KEEP_ORIGINAL"@
}

impl Args {
    /// Both interval ends left at the keep-original sentinel.
    pub fn should_keep_original_timestamps(&self) -> (r: bool)
        ensures
            r == ((match self.start {
                Some(s) => s@ == keep_original_marker(),
                None => false,
            }) && (match self.end {
                Some(s) => s@ == keep_original_marker(),
                None => false,
            })),
    {
        let marker = String::from_str("KEEP_ORIGINAL");
        let start_keeps = match &self.start {
            Some(s) => s.eq(&marker),
            None => false,
        };
        let end_keeps = match &self.end {
            Some(s) => s.eq(&marker),
            None => false,
        };
        start_keeps && end_keeps
    }

    /// A detailed diff preview is only meaningful inside a simulation.
    pub fn validate_simulation_args(&self) -> (r: Result<()>)
        ensures
            match r {
                Ok(()) => !(self.show_diff && !self.simulate),
                Err(e) => self.show_diff && !self.simulate && (e matches Error::InputValidation(
                    m,
                ) && m@ == "--show-diff requires --simulate to be enabled"@),
            },
    {
        if self.show_diff && !self.simulate {
            return Err(
                Error::InputValidation(
                    String::from_str("--show-diff requires --simulate to be enabled"),
                ),
            );
        }
        Ok(())
    }

    /// The per-field capability set for the range editor, as
    /// `(author name, author email, timestamp, message)`: selecting no
    /// capability flag makes every field editable, selecting some makes
    /// exactly the selected fields editable.
    pub fn get_editable_fields(&self) -> (r: (bool, bool, bool, bool))
        ensures
            self.range && (self.edit_author || self.edit_time || self.edit_message) ==> r == (
                self.edit_author,
                self.edit_author,
                self.edit_time,
                self.edit_message,
            ),
            self.range && !(self.edit_author || self.edit_time || self.edit_message) ==> r == (
                true,
                true,
                true,
                true,
            ),
            !self.range ==> r == (false, false, false, false),
    {
        if self.range {
            if self.edit_author || self.edit_time || self.edit_message {
                (self.edit_author, self.edit_author, self.edit_time, self.edit_message)
            } else {
                (true, true, true, true)
            }
        } else {
            (false, false, false, false)
        }
    }
}

/// Which of the four top-level operations a set of arguments selects.
#[derive(Debug, PartialEq, Eq, Structural, Clone, Copy)]
pub enum OperationMode {
    Range,
    PickSpecific,
    ShowHistory,
    FullRewrite,
}

/// Flag precedence: range, then pick-specific, then show-history, with the
/// full rewrite as the default.
pub fn determine_operation_mode(args: &Args) -> (r: OperationMode)
    ensures
        args.range ==> r == OperationMode::Range,
        !args.range && args.pick_specific_commits ==> r == OperationMode::PickSpecific,
        !args.range && !args.pick_specific_commits && args.show_history ==> r
            == OperationMode::ShowHistory,
        !args.range && !args.pick_specific_commits && !args.show_history ==> r
            == OperationMode::FullRewrite,
{
    if args.range {
        OperationMode::Range
    } else if args.pick_specific_commits {
        OperationMode::PickSpecific
    } else if args.show_history {
        OperationMode::ShowHistory
    } else {
        OperationMode::FullRewrite
    }
}

} // verus!
