use vstd::prelude::*;

use crate::datetime::format_datetime;
use crate::datetime::format_datetime_spec;
use crate::datetime::parse_datetime;
use crate::datetime::parse_datetime_spec;
use crate::errors::Error;
use crate::errors::Result;
use crate::strutil::all_digits;
use crate::strutil::chars_eq_str;
use crate::strutil::chars_of;
use crate::strutil::chars_to_string;
use crate::strutil::contains_char;
use crate::strutil::digits_value;
use crate::strutil::first_line;
use crate::strutil::first_line_spec;
use crate::strutil::has_char;
use crate::strutil::trim_chars;
use crate::strutil::truncate_spec;
use crate::strutil::truncate_text;
use crate::strutil::usize_to_chars;
use crate::strutil::trim_spec;
use crate::types::CommitInfo;
use crate::types::CommitInfoModel;
use crate::types::EditOptions;
use crate::types::EditOptionsModel;

verus! {

/// The columns of the editor grid; the first two are always read-only.
#[derive(Debug, Clone, Copy, PartialEq, Eq, Structural)]
pub enum TableColumn {
    Index,
    Hash,
    AuthorName,
    AuthorEmail,
    Timestamp,
    Message,
}

/// The grid position of a column, left to right.
pub open spec fn col_index(c: TableColumn) -> int {
    match c {
        TableColumn::Index => 0,
        TableColumn::Hash => 1,
        TableColumn::AuthorName => 2,
        TableColumn::AuthorEmail => 3,
        TableColumn::Timestamp => 4,
        TableColumn::Message => 5,
    }
}

/// The column at a grid position.
pub open spec fn col_at(i: int) -> TableColumn {
    if i == 0 {
        TableColumn::Index
    } else if i == 1 {
        TableColumn::Hash
    } else if i == 2 {
        TableColumn::AuthorName
    } else if i == 3 {
        TableColumn::AuthorEmail
    } else if i == 4 {
        TableColumn::Timestamp
    } else {
        TableColumn::Message
    }
}

fn col_of_index(i: usize) -> (r: TableColumn)
    requires
        i < 6,
    ensures
        r == col_at(i as int),
{
    if i == 0 {
        TableColumn::Index
    } else if i == 1 {
        TableColumn::Hash
    } else if i == 2 {
        TableColumn::AuthorName
    } else if i == 3 {
        TableColumn::AuthorEmail
    } else if i == 4 {
        TableColumn::Timestamp
    } else {
        TableColumn::Message
    }
}

fn index_of_col(c: TableColumn) -> (r: usize)
    ensures
        r == col_index(c),
        r < 6,
{
    match c {
        TableColumn::Index => 0,
        TableColumn::Hash => 1,
        TableColumn::AuthorName => 2,
        TableColumn::AuthorEmail => 3,
        TableColumn::Timestamp => 4,
        TableColumn::Message => 5,
    }
}

/// Which cells a session's capability set lets the operator edit, as
/// `(author name, author email, timestamp, message)`; the index and hash
/// columns are never editable.
pub open spec fn col_editable(fields: (bool, bool, bool, bool), c: TableColumn) -> bool {
    match c {
        TableColumn::Index => false,
        TableColumn::Hash => false,
        TableColumn::AuthorName => fields.0,
        TableColumn::AuthorEmail => fields.1,
        TableColumn::Timestamp => fields.2,
        TableColumn::Message => fields.3,
    }
}

/// The column the cursor lands on when moving right from position `cur`,
/// probing cyclic distances `d..=5`: the nearest editable column, or the
/// current one when no other column is editable.
pub open spec fn next_edit_col_from(fields: (bool, bool, bool, bool), cur: int, d: int)
    -> TableColumn
    decreases 6 - d,
{
    if d >= 6 {
        col_at(cur)
    } else if col_editable(fields, col_at((cur + d) % 6)) {
        col_at((cur + d) % 6)
    } else {
        next_edit_col_from(fields, cur, d + 1)
    }
}

/// The column the cursor lands on when moving left from position `cur`.
pub open spec fn prev_edit_col_from(fields: (bool, bool, bool, bool), cur: int, d: int)
    -> TableColumn
    decreases 6 - d,
{
    if d >= 6 {
        col_at(cur)
    } else if col_editable(fields, col_at((cur + 6 - d) % 6)) {
        col_at((cur + 6 - d) % 6)
    } else {
        prev_edit_col_from(fields, cur, d + 1)
    }
}

/// Which of a row's four editable fields have been changed away from the
/// original snapshot.
#[derive(Debug, Clone, Copy, PartialEq, Eq, Structural)]
pub struct ModificationFlags {
    pub author_name_changed: bool,
    pub author_email_changed: bool,
    pub timestamp_changed: bool,
    pub message_changed: bool,
}

impl ModificationFlags {
    pub open spec fn none_spec() -> ModificationFlags {
        ModificationFlags {
            author_name_changed: false,
            author_email_changed: false,
            timestamp_changed: false,
            message_changed: false,
        }
    }

    pub fn none() -> (r: ModificationFlags)
        ensures
            r == ModificationFlags::none_spec(),
    {
        ModificationFlags {
            author_name_changed: false,
            author_email_changed: false,
            timestamp_changed: false,
            message_changed: false,
        }
    }
}

impl Default for ModificationFlags {
    fn default() -> (r: ModificationFlags)
        ensures
            r == ModificationFlags::none_spec(),
    {
        ModificationFlags::none()
    }
}

/// One row of the grid: a snapshot plus its current (possibly edited) field
/// values, a per-field modification record, and its position in the whole
/// chain.
#[derive(Debug)]
pub struct CommitEdit {
    pub index: usize,
    pub original: CommitInfo,
    pub author_name: String,
    pub author_email: String,
    /// Seconds since the Unix epoch.
    pub timestamp: i64,
    pub message: String,
    pub is_modified: bool,
    pub modifications: ModificationFlags,
}

#[verifier::ext_equal]
pub struct CommitEditModel {
    pub index: usize,
    pub original: CommitInfoModel,
    pub author_name: Seq<char>,
    pub author_email: Seq<char>,
    pub timestamp: i64,
    pub message: Seq<char>,
    pub is_modified: bool,
    pub modifications: ModificationFlags,
}

impl View for CommitEdit {
    type V = CommitEditModel;

    open spec fn view(&self) -> CommitEditModel {
        CommitEditModel {
            index: self.index,
            original: self.original@,
            author_name: self.author_name@,
            author_email: self.author_email@,
            timestamp: self.timestamp,
            message: self.message@,
            is_modified: self.is_modified,
            modifications: self.modifications,
        }
    }
}

/// What one keypress did to the session.
#[derive(Debug, Clone, Copy, PartialEq, Eq, Structural)]
pub enum EditorStep {
    /// Keep reading keys.
    Continue,
    /// Leave the editor and hand the pending edits on.
    ExitSave,
    /// Leave the editor and discard everything.
    ExitCancel,
}

/// The terminal grid editor over a contiguous range of commits: a
/// single-threaded state machine fed one key byte at a time. The terminal
/// itself (raw mode, drawing) lives with the caller; this type holds every
/// decision the session makes.
#[derive(Debug)]
pub struct InteractiveTable {
    pub commits: Vec<CommitEdit>,
    pub current_row: usize,
    pub current_col: TableColumn,
    pub editing: bool,
    pub edit_buffer: Vec<char>,
    /// Why the last attempted save was rejected; empty when none was.
    pub error_text: Vec<char>,
    pub escape_buffer: Vec<u8>,
    pub editable_fields: (bool, bool, bool, bool),
}

impl InteractiveTable {
    pub open spec fn rows(&self) -> Seq<CommitEditModel> {
        self.commits@.map_values(|e: CommitEdit| e@)
    }

    /// The state every session keeps: a nonempty grid, a cursor inside it,
    /// at most a partial escape sequence buffered (an introducer byte,
    /// possibly followed by the bracket), and rows that sit at consecutive
    /// positions of the surrounding chain.
    pub open spec fn inv(&self) -> bool {
        &&& self.commits@.len() > 0
        &&& self.current_row < self.commits@.len()
        &&& self.escape_buffer@.len() <= 2
        &&& self.escape_buffer@.len() >= 1 ==> self.escape_buffer@[0] == 27u8
        &&& self.escape_buffer@.len() == 2 ==> self.escape_buffer@[1] == 91u8
        &&& forall|i: int|
            0 <= i < self.rows().len() ==> #[trigger] self.rows()[i].index == self.rows()[0].index
                + i
    }

    /// Builds the grid over `commits[start_idx..=end_idx]`: each row seeded
    /// from its snapshot, nothing modified, the cursor on the first row at
    /// the first editable column (author name when nothing is editable).
    pub fn new(
        commits: Vec<CommitInfo>,
        start_idx: usize,
        end_idx: usize,
        editable_fields: (bool, bool, bool, bool),
    ) -> (r: InteractiveTable)
        requires
            start_idx <= end_idx < commits@.len(),
        ensures
            r.inv(),
            r.rows().len() == end_idx - start_idx + 1,
            forall|i: int|
                0 <= i < r.rows().len() ==> {
                    let e = #[trigger] r.rows()[i];
                    let c = commits@[start_idx + i]@;
                    &&& e.index == start_idx + i
                    &&& e.original == c
                    &&& e.author_name == c.author_name
                    &&& e.author_email == c.author_email
                    &&& e.timestamp == c.timestamp
                    &&& e.message == c.message
                    &&& !e.is_modified
                    &&& e.modifications == ModificationFlags::none_spec()
                },
            r.current_row == 0,
            r.current_col == (if editable_fields.0 {
                TableColumn::AuthorName
            } else if editable_fields.1 {
                TableColumn::AuthorEmail
            } else if editable_fields.2 {
                TableColumn::Timestamp
            } else if editable_fields.3 {
                TableColumn::Message
            } else {
                TableColumn::AuthorName
            }),
            !r.editing,
            r.edit_buffer@.len() == 0,
            r.error_text@.len() == 0,
            r.escape_buffer@.len() == 0,
            r.editable_fields == editable_fields,
    {
        let n = commits.len();
        let mut rows: Vec<CommitEdit> = Vec::new();
        let mut i: usize = start_idx;
        while i <= end_idx
            invariant
                start_idx <= i <= end_idx + 1,
                end_idx < n,
                n == commits@.len(),
                rows@.len() == i - start_idx,
                forall|k: int|
                    0 <= k < rows@.len() ==> {
                        let e = #[trigger] rows@[k]@;
                        let c = commits@[start_idx + k]@;
                        &&& e.index == start_idx + k
                        &&& e.original == c
                        &&& e.author_name == c.author_name
                        &&& e.author_email == c.author_email
                        &&& e.timestamp == c.timestamp
                        &&& e.message == c.message
                        &&& !e.is_modified
                        &&& e.modifications == ModificationFlags::none_spec()
                    },
            decreases end_idx + 1 - i,
        {
            let c = &commits[i];
            rows.push(
                CommitEdit {
                    index: i,
                    original: c.clone(),
                    author_name: c.author_name.clone(),
                    author_email: c.author_email.clone(),
                    timestamp: c.timestamp,
                    message: c.message.clone(),
                    is_modified: false,
                    modifications: ModificationFlags::none(),
                },
            );
            i = i + 1;
        }
        let starting_col = if editable_fields.0 {
            TableColumn::AuthorName
        } else if editable_fields.1 {
            TableColumn::AuthorEmail
        } else if editable_fields.2 {
            TableColumn::Timestamp
        } else if editable_fields.3 {
            TableColumn::Message
        } else {
            TableColumn::AuthorName
        };
        InteractiveTable {
            commits: rows,
            current_row: 0,
            current_col: starting_col,
            editing: false,
            edit_buffer: Vec::new(),
            error_text: Vec::new(),
            escape_buffer: Vec::new(),
            editable_fields,
        }
    }

    /// Whether the capability set lets the operator edit cells of `col`.
    pub fn is_column_editable(&self, col: &TableColumn) -> (r: bool)
        ensures
            r == col_editable(self.editable_fields, *col),
    {
        match col {
            TableColumn::Index => false,
            TableColumn::Hash => false,
            TableColumn::AuthorName => self.editable_fields.0,
            TableColumn::AuthorEmail => self.editable_fields.1,
            TableColumn::Timestamp => self.editable_fields.2,
            TableColumn::Message => self.editable_fields.3,
        }
    }

    /// Moves the cursor to the nearest editable column to the right,
    /// wrapping around; the cursor stays where no other column is editable.
    pub fn move_to_next_editable_column(&mut self)
        ensures
            final(self).current_col == next_edit_col_from(
                old(self).editable_fields,
                col_index(old(self).current_col),
                1,
            ),
            *final(self) == (InteractiveTable { current_col: final(self).current_col, ..*old(self) }),
    {
        let cur = index_of_col(self.current_col);
        let mut d: usize = 1;
        while d < 6
            invariant
                cur == col_index(old(self).current_col),
                cur < 6,
                1 <= d <= 6,
                *self == *old(self),
                next_edit_col_from(self.editable_fields, cur as int, 1) == next_edit_col_from(
                    self.editable_fields,
                    cur as int,
                    d as int,
                ),
            decreases 6 - d,
        {
            let idx = (cur + d) % 6;
            let cand = col_of_index(idx);
            if self.is_column_editable(&cand) {
                self.current_col = cand;
                return ;
            }
            d = d + 1;
        }
    }

    /// Moves the cursor to the nearest editable column to the left,
    /// wrapping around; the cursor stays where no other column is editable.
    pub fn move_to_prev_editable_column(&mut self)
        ensures
            final(self).current_col == prev_edit_col_from(
                old(self).editable_fields,
                col_index(old(self).current_col),
                1,
            ),
            *final(self) == (InteractiveTable { current_col: final(self).current_col, ..*old(self) }),
    {
        let cur = index_of_col(self.current_col);
        let mut d: usize = 1;
        while d < 6
            invariant
                cur == col_index(old(self).current_col),
                cur < 6,
                1 <= d <= 6,
                *self == *old(self),
                prev_edit_col_from(self.editable_fields, cur as int, 1) == prev_edit_col_from(
                    self.editable_fields,
                    cur as int,
                    d as int,
                ),
            decreases 6 - d,
        {
            let idx = (cur + 6 - d) % 6;
            let cand = col_of_index(idx);
            if self.is_column_editable(&cand) {
                self.current_col = cand;
                return ;
            }
            d = d + 1;
        }
    }

    /// The text that seeds the edit buffer when a cell edit starts: the
    /// cell's current value, with the full (untruncated) message for the
    /// message column — the edited one when it was already changed, the
    /// original otherwise.
    pub open spec fn seed_buffer(e: CommitEditModel, col: TableColumn) -> Seq<char> {
        match col {
            TableColumn::AuthorName => e.author_name,
            TableColumn::AuthorEmail => e.author_email,
            TableColumn::Timestamp => match format_datetime_spec(e.timestamp as int) {
                Some(s) => s,
                None => Seq::empty(),
            },
            TableColumn::Message => if e.modifications.message_changed {
                e.message
            } else {
                e.original.message
            },
            _ => Seq::empty(),
        }
    }

    /// Enters cell-editing mode on the current cell, seeding the buffer with
    /// the cell's value; a keypress on a read-only cell does nothing.
    pub fn start_editing(&mut self)
        requires
            old(self).inv(),
        ensures
            final(self).inv(),
            !col_editable(old(self).editable_fields, old(self).current_col) ==> *final(self)
                == *old(self),
            col_editable(old(self).editable_fields, old(self).current_col) ==> {
                &&& final(self).editing
                &&& final(self).edit_buffer@ == InteractiveTable::seed_buffer(
                    old(self).rows()[old(self).current_row as int],
                    old(self).current_col,
                )
                &&& final(self).error_text@.len() == 0
                &&& final(self).rows() == old(self).rows()
                &&& final(self).current_row == old(self).current_row
                &&& final(self).current_col == old(self).current_col
                &&& final(self).escape_buffer@ == old(self).escape_buffer@
                &&& final(self).editable_fields == old(self).editable_fields
            },
    {
        let col = self.current_col;
        if !self.is_column_editable(&col) {
            return ;
        }
        let row = self.current_row;
        let buffer: Vec<char> = match col {
            TableColumn::AuthorName => chars_of(self.commits[row].author_name.as_str()),
            TableColumn::AuthorEmail => chars_of(self.commits[row].author_email.as_str()),
            TableColumn::Timestamp => {
                match format_datetime(self.commits[row].timestamp) {
                    Some(s) => chars_of(s.as_str()),
                    None => Vec::new(),
                }
            },
            TableColumn::Message => {
                if self.commits[row].modifications.message_changed {
                    chars_of(self.commits[row].message.as_str())
                } else {
                    chars_of(self.commits[row].original.message.as_str())
                }
            },
            _ => Vec::new(),
        };
        self.editing = true;
        self.edit_buffer = buffer;
        self.error_text = Vec::new();
        proof {
            assert(self.rows() =~= old(self).rows());
        }
    }
}

/// Whether a buffer passes the per-field validation that guards a cell
/// save: author name and message must not be blank, the email must not be
/// blank and must carry an `@`, and a timestamp must parse under the fixed
/// format. Read-only columns accept trivially (a save there is a no-op).
pub open spec fn edit_accepted(col: TableColumn, buffer: Seq<char>) -> bool {
    match col {
        TableColumn::AuthorName => trim_spec(buffer).len() > 0,
        TableColumn::AuthorEmail => trim_spec(buffer).len() > 0 && contains_char(buffer, '@'),
        TableColumn::Timestamp => parse_datetime_spec(buffer) is Some,
        TableColumn::Message => trim_spec(buffer).len() > 0,
        _ => true,
    }
}

/// The message a rejected cell save surfaces inline.
pub open spec fn edit_reject_text(col: TableColumn, buffer: Seq<char>) -> Seq<char> {
    match col {
        TableColumn::AuthorName => "Author name cannot be empty"@,
        TableColumn::AuthorEmail => if trim_spec(buffer).len() == 0 {
            "Author email cannot be empty"@
        } else {
            "Invalid email format"@
        },
        TableColumn::Timestamp => "Invalid timestamp format (use YYYY-MM-DD HH:MM:SS)"@,
        TableColumn::Message => "Commit message cannot be empty"@,
        _ => Seq::empty(),
    }
}

/// The row after an accepted save of `buffer` into its `col` cell: the cell
/// takes the buffer's value only when it differs from the current one, and
/// the per-field modification flag then records whether the new value
/// differs from the original snapshot.
pub open spec fn saved_row(e: CommitEditModel, col: TableColumn, buffer: Seq<char>)
    -> CommitEditModel {
    match col {
        TableColumn::AuthorName => if e.author_name == buffer {
            e
        } else {
            CommitEditModel {
                author_name: buffer,
                is_modified: true,
                modifications: ModificationFlags {
                    author_name_changed: e.original.author_name != buffer,
                    ..e.modifications
                },
                ..e
            }
        },
        TableColumn::AuthorEmail => if e.author_email == buffer {
            e
        } else {
            CommitEditModel {
                author_email: buffer,
                is_modified: true,
                modifications: ModificationFlags {
                    author_email_changed: e.original.author_email != buffer,
                    ..e.modifications
                },
                ..e
            }
        },
        TableColumn::Timestamp => match parse_datetime_spec(buffer) {
            Some(t) => if t == e.timestamp as int {
                e
            } else {
                CommitEditModel {
                    timestamp: t as i64,
                    is_modified: true,
                    modifications: ModificationFlags {
                        timestamp_changed: e.original.timestamp as int != t,
                        ..e.modifications
                    },
                    ..e
                }
            },
            None => e,
        },
        TableColumn::Message => if e.message == buffer {
            e
        } else {
            CommitEditModel {
                message: buffer,
                is_modified: true,
                modifications: ModificationFlags {
                    message_changed: e.original.message != buffer,
                    ..e.modifications
                },
                ..e
            }
        },
        _ => e,
    }
}

impl InteractiveTable {
    /// Validates the edit buffer against the current cell and, when it
    /// passes, commits it into the row: the cell's value and its
    /// modification flag change exactly when the buffer differs from the
    /// current value, and the flag records a difference from the original
    /// snapshot. A rejected buffer leaves every row untouched and reports
    /// why.
    pub fn save_current_edit(&mut self) -> (r: Result<()>)
        requires
            old(self).inv(),
        ensures
            final(self).inv(),
            final(self).current_row == old(self).current_row,
            final(self).current_col == old(self).current_col,
            final(self).editing == old(self).editing,
            final(self).edit_buffer@ == old(self).edit_buffer@,
            final(self).error_text@ == old(self).error_text@,
            final(self).escape_buffer@ == old(self).escape_buffer@,
            final(self).editable_fields == old(self).editable_fields,
            match r {
                Ok(()) => edit_accepted(old(self).current_col, old(self).edit_buffer@)
                    && final(self).rows() == old(self).rows().update(
                    old(self).current_row as int,
                    saved_row(
                        old(self).rows()[old(self).current_row as int],
                        old(self).current_col,
                        old(self).edit_buffer@,
                    ),
                ),
                Err(e) => !edit_accepted(old(self).current_col, old(self).edit_buffer@)
                    && final(self).rows() == old(self).rows()
                    && (e matches Error::InputValidation(m) && m@
                    == edit_reject_text(old(self).current_col, old(self).edit_buffer@)),
            },
    {
        let row = self.current_row;
        let ghost old_rows = self.rows();
        match self.current_col {
            TableColumn::AuthorName => {
                let trimmed = trim_chars(&self.edit_buffer);
                if trimmed.len() == 0 {
                    return Err(
                        Error::InputValidation(String::from_str("Author name cannot be empty")),
                    );
                }
                if !chars_eq_str(&self.edit_buffer, self.commits[row].author_name.as_str()) {
                    let new_val = chars_to_string(&self.edit_buffer);
                    let flag = !chars_eq_str(
                        &self.edit_buffer,
                        self.commits[row].original.author_name.as_str(),
                    );
                    self.commits[row].author_name = new_val;
                    self.commits[row].modifications.author_name_changed = flag;
                    self.commits[row].is_modified = true;
                }
                proof {
                    assert(self.rows() =~= old_rows.update(
                        row as int,
                        saved_row(old_rows[row as int], TableColumn::AuthorName,
                        old(self).edit_buffer@),
                    ));
                }
                Ok(())
            },
            TableColumn::AuthorEmail => {
                let trimmed = trim_chars(&self.edit_buffer);
                if trimmed.len() == 0 {
                    return Err(
                        Error::InputValidation(String::from_str("Author email cannot be empty")),
                    );
                }
                if !has_char(&self.edit_buffer, '@') {
                    return Err(Error::InputValidation(String::from_str("Invalid email format")));
                }
                if !chars_eq_str(&self.edit_buffer, self.commits[row].author_email.as_str()) {
                    let new_val = chars_to_string(&self.edit_buffer);
                    let flag = !chars_eq_str(
                        &self.edit_buffer,
                        self.commits[row].original.author_email.as_str(),
                    );
                    self.commits[row].author_email = new_val;
                    self.commits[row].modifications.author_email_changed = flag;
                    self.commits[row].is_modified = true;
                }
                proof {
                    assert(self.rows() =~= old_rows.update(
                        row as int,
                        saved_row(old_rows[row as int], TableColumn::AuthorEmail,
                        old(self).edit_buffer@),
                    ));
                }
                Ok(())
            },
            TableColumn::Timestamp => {
                let s = chars_to_string(&self.edit_buffer);
                match parse_datetime(s.as_str()) {
                    None => Err(
                        Error::InputValidation(
                            String::from_str("Invalid timestamp format (use YYYY-MM-DD HH:MM:SS)"),
                        ),
                    ),
                    Some(t) => {
                        if self.commits[row].timestamp != t {
                            let flag = self.commits[row].original.timestamp != t;
                            self.commits[row].timestamp = t;
                            self.commits[row].modifications.timestamp_changed = flag;
                            self.commits[row].is_modified = true;
                        }
                        proof {
                            assert(self.rows() =~= old_rows.update(
                                row as int,
                                saved_row(old_rows[row as int], TableColumn::Timestamp,
                                old(self).edit_buffer@),
                            ));
                        }
                        Ok(())
                    },
                }
            },
            TableColumn::Message => {
                let trimmed = trim_chars(&self.edit_buffer);
                if trimmed.len() == 0 {
                    return Err(
                        Error::InputValidation(String::from_str("Commit message cannot be empty")),
                    );
                }
                if !chars_eq_str(&self.edit_buffer, self.commits[row].message.as_str()) {
                    let new_val = chars_to_string(&self.edit_buffer);
                    let flag = !chars_eq_str(
                        &self.edit_buffer,
                        self.commits[row].original.message.as_str(),
                    );
                    self.commits[row].message = new_val;
                    self.commits[row].modifications.message_changed = flag;
                    self.commits[row].is_modified = true;
                }
                proof {
                    assert(self.rows() =~= old_rows.update(
                        row as int,
                        saved_row(old_rows[row as int], TableColumn::Message,
                        old(self).edit_buffer@),
                    ));
                }
                Ok(())
            },
            _ => {
                proof {
                    assert(self.rows() =~= old_rows.update(
                        row as int,
                        saved_row(old_rows[row as int], old(self).current_col,
                        old(self).edit_buffer@),
                    ));
                }
                Ok(())
            },
        }
    }

    /// One keypress while a cell edit is in progress. A cancel key abandons
    /// the buffer and leaves every cell and flag untouched; a confirm key
    /// commits the buffer through validation — a rejected buffer stays in
    /// place, untouched, with the reason surfaced beside it; printable bytes
    /// and backspace edit the buffer; the interrupt byte asks to leave
    /// without saving.
    pub fn handle_edit_input(&mut self, key: u8) -> (r: EditorStep)
        requires
            old(self).inv(),
            old(self).editing,
        ensures
            final(self).inv(),
            final(self).current_row == old(self).current_row,
            final(self).current_col == old(self).current_col,
            final(self).escape_buffer@ == old(self).escape_buffer@,
            final(self).editable_fields == old(self).editable_fields,
            if key == 27 {
                &&& final(self).rows() == old(self).rows()
                &&& !final(self).editing
                &&& final(self).edit_buffer@.len() == 0
                &&& final(self).error_text@.len() == 0
                &&& r == EditorStep::Continue
            } else if key == 10 || key == 13 {
                if edit_accepted(old(self).current_col, old(self).edit_buffer@) {
                    &&& final(self).rows() == old(self).rows().update(
                        old(self).current_row as int,
                        saved_row(
                            old(self).rows()[old(self).current_row as int],
                            old(self).current_col,
                            old(self).edit_buffer@,
                        ),
                    )
                    &&& !final(self).editing
                    &&& final(self).edit_buffer@.len() == 0
                    &&& final(self).error_text@.len() == 0
                    &&& r == EditorStep::Continue
                } else {
                    &&& final(self).rows() == old(self).rows()
                    &&& final(self).editing
                    &&& final(self).edit_buffer@ == old(self).edit_buffer@
                    &&& final(self).error_text@ == edit_reject_text(
                        old(self).current_col,
                        old(self).edit_buffer@,
                    )
                    &&& r == EditorStep::Continue
                }
            } else if key == 127 || key == 8 {
                &&& final(self).rows() == old(self).rows()
                &&& final(self).editing == old(self).editing
                &&& final(self).edit_buffer@ == (if old(self).edit_buffer@.len() > 0 {
                    old(self).edit_buffer@.drop_last()
                } else {
                    old(self).edit_buffer@
                })
                &&& final(self).error_text@.len() == 0
                &&& r == EditorStep::Continue
            } else if 32 <= key <= 126 {
                &&& final(self).rows() == old(self).rows()
                &&& final(self).editing == old(self).editing
                &&& final(self).edit_buffer@ == old(self).edit_buffer@.push(key as char)
                &&& final(self).error_text@.len() == 0
                &&& r == EditorStep::Continue
            } else if key == 3 {
                &&& *final(self) == *old(self)
                &&& r == EditorStep::ExitCancel
            } else {
                &&& *final(self) == *old(self)
                &&& r == EditorStep::Continue
            },
    {
        if key == 27 {
            self.editing = false;
            self.edit_buffer = Vec::new();
            self.error_text = Vec::new();
            EditorStep::Continue
        } else if key == 10 || key == 13 {
            match self.save_current_edit() {
                Ok(()) => {
                    self.editing = false;
                    self.edit_buffer = Vec::new();
                    self.error_text = Vec::new();
                    proof {
                        assert forall|i: int| 0 <= i < self.rows().len() implies #[trigger] self
                            .rows()[i].index == self.rows()[0].index + i by {
                            assert(old(self).rows()[i].index == old(self).rows()[0].index + i);
                            assert(old(self).rows()[0].index == self.rows()[0].index);
                        }
                    }
                    EditorStep::Continue
                },
                Err(e) => {
                    match e {
                        Error::InputValidation(m) => {
                            self.error_text = chars_of(m.as_str());
                        },
                        _ => {},
                    }
                    EditorStep::Continue
                },
            }
        } else if key == 127 || key == 8 {
            if self.edit_buffer.len() > 0 {
                self.edit_buffer.pop();
            }
            self.error_text = Vec::new();
            EditorStep::Continue
        } else if 32 <= key && key <= 126 {
            self.edit_buffer.push(key as char);
            self.error_text = Vec::new();
            EditorStep::Continue
        } else if key == 3 {
            EditorStep::ExitCancel
        } else {
            EditorStep::Continue
        }
    }

    /// One keypress while browsing the grid. An introducer byte opens an
    /// escape sequence; a complete, recognized three-byte arrow sequence
    /// moves the cursor (rows clamp at the edges, columns skip read-only
    /// cells and wrap); any sequence that does not complete a recognized
    /// arrow is treated as the lone save-and-exit key. Letter navigation
    /// mirrors the arrows, a confirm key starts editing the current cell,
    /// and the interrupt byte asks to leave without saving.
    pub fn handle_key_input(&mut self, key: u8) -> (r: EditorStep)
        requires
            old(self).inv(),
        ensures
            final(self).inv(),
            final(self).rows() == old(self).rows(),
            final(self).editable_fields == old(self).editable_fields,
            if key == 27 {
                &&& final(self).escape_buffer@ == seq![27u8]
                &&& final(self).current_row == old(self).current_row
                &&& final(self).current_col == old(self).current_col
                &&& final(self).editing == old(self).editing
                &&& final(self).edit_buffer@ == old(self).edit_buffer@
                &&& final(self).error_text@ == old(self).error_text@
                &&& r == EditorStep::Continue
            } else if old(self).escape_buffer@.len() == 1 {
                &&& final(self).current_row == old(self).current_row
                &&& final(self).current_col == old(self).current_col
                &&& final(self).editing == old(self).editing
                &&& final(self).edit_buffer@ == old(self).edit_buffer@
                &&& final(self).error_text@ == old(self).error_text@
                &&& (if key == 91 {
                    final(self).escape_buffer@ == seq![27u8, 91u8] && r == EditorStep::Continue
                } else {
                    final(self).escape_buffer@.len() == 0 && r == EditorStep::ExitSave
                })
            } else if old(self).escape_buffer@.len() == 2 {
                &&& final(self).escape_buffer@.len() == 0
                &&& final(self).editing == old(self).editing
                &&& final(self).edit_buffer@ == old(self).edit_buffer@
                &&& final(self).error_text@ == old(self).error_text@
                &&& (if key == 65 {
                    final(self).current_col == old(self).current_col && final(self).current_row
                        == (if old(self).current_row > 0 {
                        (old(self).current_row - 1) as usize
                    } else {
                        0
                    })
                } else if key == 66 {
                    final(self).current_col == old(self).current_col && final(self).current_row
                        == (if old(self).current_row + 1 < old(self).rows().len() {
                        (old(self).current_row + 1) as usize
                    } else {
                        old(self).current_row
                    })
                } else if key == 68 {
                    final(self).current_row == old(self).current_row && final(self).current_col
                        == prev_edit_col_from(
                        old(self).editable_fields,
                        col_index(old(self).current_col),
                        1,
                    )
                } else if key == 67 {
                    final(self).current_row == old(self).current_row && final(self).current_col
                        == next_edit_col_from(
                        old(self).editable_fields,
                        col_index(old(self).current_col),
                        1,
                    )
                } else {
                    final(self).current_row == old(self).current_row && final(self).current_col
                        == old(self).current_col
                })
                &&& r == (if key == 65 || key == 66 || key == 67 || key == 68 {
                    EditorStep::Continue
                } else {
                    EditorStep::ExitSave
                })
            } else if key == 104 {
                &&& final(self).escape_buffer@ == old(self).escape_buffer@
                &&& final(self).editing == old(self).editing
                &&& final(self).edit_buffer@ == old(self).edit_buffer@
                &&& final(self).error_text@ == old(self).error_text@
                &&& final(self).current_row == old(self).current_row
                &&& final(self).current_col == prev_edit_col_from(
                    old(self).editable_fields,
                    col_index(old(self).current_col),
                    1,
                )
                &&& r == EditorStep::Continue
            } else if key == 108 {
                &&& final(self).escape_buffer@ == old(self).escape_buffer@
                &&& final(self).editing == old(self).editing
                &&& final(self).edit_buffer@ == old(self).edit_buffer@
                &&& final(self).error_text@ == old(self).error_text@
                &&& final(self).current_row == old(self).current_row
                &&& final(self).current_col == next_edit_col_from(
                    old(self).editable_fields,
                    col_index(old(self).current_col),
                    1,
                )
                &&& r == EditorStep::Continue
            } else if key == 107 {
                &&& final(self).escape_buffer@ == old(self).escape_buffer@
                &&& final(self).editing == old(self).editing
                &&& final(self).edit_buffer@ == old(self).edit_buffer@
                &&& final(self).error_text@ == old(self).error_text@
                &&& final(self).current_col == old(self).current_col
                &&& final(self).current_row == (if old(self).current_row > 0 {
                    (old(self).current_row - 1) as usize
                } else {
                    0
                })
                &&& r == EditorStep::Continue
            } else if key == 106 {
                &&& final(self).escape_buffer@ == old(self).escape_buffer@
                &&& final(self).editing == old(self).editing
                &&& final(self).edit_buffer@ == old(self).edit_buffer@
                &&& final(self).error_text@ == old(self).error_text@
                &&& final(self).current_col == old(self).current_col
                &&& final(self).current_row == (if old(self).current_row + 1 < old(
                    self,
                ).rows().len() {
                    (old(self).current_row + 1) as usize
                } else {
                    old(self).current_row
                })
                &&& r == EditorStep::Continue
            } else if key == 10 || key == 13 {
                &&& final(self).escape_buffer@ == old(self).escape_buffer@
                &&& final(self).current_row == old(self).current_row
                &&& final(self).current_col == old(self).current_col
                &&& (if col_editable(old(self).editable_fields, old(self).current_col) {
                    final(self).editing && final(self).edit_buffer@
                        == InteractiveTable::seed_buffer(
                        old(self).rows()[old(self).current_row as int],
                        old(self).current_col,
                    ) && final(self).error_text@.len() == 0
                } else {
                    final(self).editing == old(self).editing && final(self).edit_buffer@ == old(
                        self,
                    ).edit_buffer@ && final(self).error_text@ == old(self).error_text@
                })
                &&& r == EditorStep::Continue
            } else if key == 3 {
                &&& *final(self) == *old(self)
                &&& r == EditorStep::ExitCancel
            } else {
                &&& *final(self) == *old(self)
                &&& r == EditorStep::Continue
            },
    {
        if key == 27 {
            let mut b: Vec<u8> = Vec::new();
            b.push(27);
            self.escape_buffer = b;
            return EditorStep::Continue;
        }
        if self.escape_buffer.len() == 1 {
            if key == 91 {
                self.escape_buffer.push(91);
                return EditorStep::Continue;
            } else {
                self.escape_buffer = Vec::new();
                return EditorStep::ExitSave;
            }
        }
        if self.escape_buffer.len() == 2 {
            self.escape_buffer = Vec::new();
            if key == 65 {
                if self.current_row > 0 {
                    self.current_row = self.current_row - 1;
                }
            } else if key == 66 {
                let n = self.commits.len();
                if self.current_row + 1 < n {
                    self.current_row = self.current_row + 1;
                }
            } else if key == 68 {
                self.move_to_prev_editable_column();
            } else if key == 67 {
                self.move_to_next_editable_column();
            } else {
                return EditorStep::ExitSave;
            }
            return EditorStep::Continue;
        }
        if key == 104 {
            self.move_to_prev_editable_column();
            EditorStep::Continue
        } else if key == 108 {
            self.move_to_next_editable_column();
            EditorStep::Continue
        } else if key == 107 {
            if self.current_row > 0 {
                self.current_row = self.current_row - 1;
            }
            EditorStep::Continue
        } else if key == 106 {
            let n = self.commits.len();
            if self.current_row + 1 < n {
                self.current_row = self.current_row + 1;
            }
            EditorStep::Continue
        } else if key == 10 || key == 13 {
            self.start_editing();
            EditorStep::Continue
        } else if key == 3 {
            EditorStep::ExitCancel
        } else {
            EditorStep::Continue
        }
    }
}

impl InteractiveTable {
    /// The text of one grid cell, truncated to its column's width: the
    /// one-based chain position, the short identity, the current author
    /// fields, the formatted timestamp, or the message's first line.
    pub fn cell_text(&self, row: usize, col: TableColumn) -> (r: Vec<char>)
        requires
            self.inv(),
            row < self.rows().len(),
            self.rows()[row as int].index < usize::MAX,
        ensures
            ({
                let e = self.rows()[row as int];
                match col {
                    TableColumn::Index => r@.len() > 0 && all_digits(r@) && digits_value(r@)
                        == e.index + 1,
                    TableColumn::Hash => r@ == truncate_spec(e.original.short_hash, 8),
                    TableColumn::AuthorName => r@ == truncate_spec(e.author_name, 15),
                    TableColumn::AuthorEmail => r@ == truncate_spec(e.author_email, 20),
                    TableColumn::Timestamp => r@ == (match format_datetime_spec(
                        e.timestamp as int,
                    ) {
                        Some(s) => s,
                        None => Seq::empty(),
                    }),
                    TableColumn::Message => r@ == truncate_spec(first_line_spec(e.message), 40),
                }
            }),
    {
        let e = &self.commits[row];
        match col {
            TableColumn::Index => usize_to_chars(e.index + 1),
            TableColumn::Hash => {
                let chars = chars_of(e.original.short_hash.as_str());
                truncate_text(&chars, 8)
            },
            TableColumn::AuthorName => {
                let chars = chars_of(e.author_name.as_str());
                truncate_text(&chars, 15)
            },
            TableColumn::AuthorEmail => {
                let chars = chars_of(e.author_email.as_str());
                truncate_text(&chars, 20)
            },
            TableColumn::Timestamp => {
                match format_datetime(e.timestamp) {
                    Some(s) => chars_of(s.as_str()),
                    None => Vec::new(),
                }
            },
            TableColumn::Message => {
                let chars = chars_of(e.message.as_str());
                let line = first_line(&chars);
                truncate_text(&line, 40)
            },
        }
    }

    /// Whether a cell's value has been changed away from the original
    /// snapshot, so the grid marks it.
    pub fn cell_marked(&self, row: usize, col: TableColumn) -> (r: bool)
        requires
            self.inv(),
            row < self.rows().len(),
        ensures
            ({
                let m = self.rows()[row as int].modifications;
                r == (match col {
                    TableColumn::AuthorName => m.author_name_changed,
                    TableColumn::AuthorEmail => m.author_email_changed,
                    TableColumn::Timestamp => m.timestamp_changed,
                    TableColumn::Message => m.message_changed,
                    _ => false,
                })
            }),
    {
        let m = &self.commits[row].modifications;
        match col {
            TableColumn::AuthorName => m.author_name_changed,
            TableColumn::AuthorEmail => m.author_email_changed,
            TableColumn::Timestamp => m.timestamp_changed,
            TableColumn::Message => m.message_changed,
            _ => false,
        }
    }

    /// Whether the grid draws the cursor brackets around a cell: it is the
    /// current cell, no edit is in progress, and the cell is editable.
    pub fn cell_highlighted(&self, row: usize, col: TableColumn) -> (r: bool)
        ensures
            r == (row == self.current_row && col == self.current_col && !self.editing
                && col_editable(self.editable_fields, col)),
    {
        row == self.current_row && col == self.current_col && !self.editing
            && self.is_column_editable(&col)
    }
}

impl Clone for CommitEdit {
    fn clone(&self) -> (r: CommitEdit)
        ensures
            r@ == self@,
    {
        CommitEdit {
            index: self.index,
            original: self.original.clone(),
            author_name: self.author_name.clone(),
            author_email: self.author_email.clone(),
            timestamp: self.timestamp,
            message: self.message.clone(),
            is_modified: self.is_modified,
            modifications: self.modifications,
        }
    }
}

/// The rows an editing session wants applied: those flagged modified, in
/// grid order.
pub open spec fn modified_only(s: Seq<CommitEditModel>) -> Seq<CommitEditModel> {
    s.filter(|e: CommitEditModel| e.is_modified)
}

/// The field overrides one modified row asks for: exactly the fields whose
/// per-field flag records a change; everything else passes through.
pub open spec fn transform_of_row(e: CommitEditModel) -> EditOptionsModel {
    EditOptionsModel {
        author_name: if e.modifications.author_name_changed {
            Some(e.author_name)
        } else {
            None
        },
        author_email: if e.modifications.author_email_changed {
            Some(e.author_email)
        } else {
            None
        },
        timestamp: if e.modifications.timestamp_changed {
            Some(e.timestamp)
        } else {
            None
        },
        message: if e.modifications.message_changed {
            Some(e.message)
        } else {
            None
        },
    }
}

/// A transform that keeps every field.
pub open spec fn identity_transform() -> EditOptionsModel {
    EditOptionsModel { author_name: None, author_email: None, timestamp: None, message: None }
}

impl InteractiveTable {
    /// The rows flagged modified, in grid order.
    pub fn get_modified_commits(&self) -> (r: Vec<CommitEdit>)
        ensures
            r@.map_values(|e: CommitEdit| e@) == modified_only(self.rows()),
    {
        let mut r: Vec<CommitEdit> = Vec::new();
        let n = self.commits.len();
        let mut i: usize = 0;
        proof {
            reveal(Seq::filter);
            assert(self.rows().take(0).filter(|e: CommitEditModel| e.is_modified)
                =~= Seq::<CommitEditModel>::empty());
            assert(r@.map_values(|e: CommitEdit| e@) =~= Seq::<CommitEditModel>::empty());
        }
        while i < n
            invariant
                n == self.commits@.len(),
                i <= n,
                r@.map_values(|e: CommitEdit| e@) == self.rows().take(i as int).filter(
                    |e: CommitEditModel| e.is_modified,
                ),
            decreases n - i,
        {
            let ghost prev = r@.map_values(|e: CommitEdit| e@);
            if self.commits[i].is_modified {
                r.push(self.commits[i].clone());
                proof {
                    assert(r@.map_values(|e: CommitEdit| e@) =~= prev.push(
                        self.rows()[i as int],
                    ));
                }
            }
            i = i + 1;
            proof {
                reveal(Seq::filter);
                let taken = self.rows().take(i as int);
                assert(taken.drop_last() =~= self.rows().take(i as int - 1));
                assert(taken.last() == self.rows()[i as int - 1]);
                assert(r@.map_values(|e: CommitEdit| e@) == taken.filter(
                    |e: CommitEditModel| e.is_modified,
                ));
            }
        }
        proof {
            assert(self.rows().take(n as int) =~= self.rows());
        }
        r
    }

    /// The per-commit transforms a finished session hands to the rewrite
    /// engine, for a chain of `chain_len` commits: each row flagged modified
    /// contributes the overrides its flags record, at the row's position in
    /// the chain; every other commit passes through unchanged.
    pub fn modified_transforms(&self, chain_len: usize) -> (r: Vec<EditOptions>)
        requires
            self.inv(),
            self.rows()[0].index + self.rows().len() <= chain_len,
        ensures
            r@.len() == chain_len,
            forall|i: int|
                0 <= i < self.rows().len() ==> #[trigger] r@[self.rows()[0].index + i]@ == (
                if self.rows()[i].is_modified {
                    transform_of_row(self.rows()[i])
                } else {
                    identity_transform()
                }),
            forall|k: int|
                0 <= k < chain_len && !(self.rows()[0].index <= k < self.rows()[0].index
                    + self.rows().len()) ==> #[trigger] r@[k]@ == identity_transform(),
    {
        let mut r: Vec<EditOptions> = Vec::new();
        let mut k: usize = 0;
        while k < chain_len
            invariant
                k <= chain_len,
                r@.len() == k,
                forall|j: int| 0 <= j < k ==> #[trigger] r@[j]@ == identity_transform(),
            decreases chain_len - k,
        {
            r.push(EditOptions::identity());
            k = k + 1;
        }
        let n = self.commits.len();
        let first = self.commits[0].index;
        let mut i: usize = 0;
        while i < n
            invariant
                self.inv(),
                n == self.commits@.len(),
                first == self.rows()[0].index,
                first + n <= chain_len,
                i <= n,
                r@.len() == chain_len,
                forall|j: int|
                    0 <= j < i && self.rows()[j].is_modified ==> #[trigger] r@[first + j]@
                        == transform_of_row(self.rows()[j]),
                forall|k: int|
                    0 <= k < chain_len && !(first <= k < first + i) ==> #[trigger] r@[k]@
                        == identity_transform(),
                forall|j: int|
                    0 <= j < i && !self.rows()[j].is_modified ==> #[trigger] r@[first + j]@
                        == identity_transform(),
            decreases n - i,
        {
            let e = &self.commits[i];
            if e.is_modified {
                let t = EditOptions {
                    author_name: if e.modifications.author_name_changed {
                        Some(e.author_name.clone())
                    } else {
                        None
                    },
                    author_email: if e.modifications.author_email_changed {
                        Some(e.author_email.clone())
                    } else {
                        None
                    },
                    timestamp: if e.modifications.timestamp_changed {
                        Some(e.timestamp)
                    } else {
                        None
                    },
                    message: if e.modifications.message_changed {
                        Some(e.message.clone())
                    } else {
                        None
                    },
                };
                proof {
                    assert(self.rows()[i as int].index == self.rows()[0].index + i);
                    assert(e.index == first + i);
                }
                r[e.index] = t;
            }
            i = i + 1;
        }
        r
    }
}

} // verus!
