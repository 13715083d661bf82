//! The checks that guard changes to the kanban note board.

use vstd::prelude::*;
use crate::decimal::{int_text, int_to_text};
use crate::text::{blank, is_blank, same_text};

verus! {

/// What a kanban note tracks.
#[derive(Debug, Clone, Copy, PartialEq, Eq, Structural)]
pub enum NoteType {
    Bug,
    Feature,
    Task,
    Enhancement,
}

/// The column a kanban note stands in.
#[derive(Debug, Clone, Copy, PartialEq, Eq, Structural)]
pub enum NoteStatus {
    Todo,
    InProgress,
    Done,
}

/// Why a change to the board is refused.
#[derive(Debug, Clone, Copy, PartialEq, Eq, Structural)]
pub enum KanbanError {
    EmptyTitle,
    InvalidNoteType,
    InvalidStatus,
    NegativePosition,
    EmptyComment,
    /// No position is left after the last one.
    PositionOverflow,
    NoteNotFound(i64),
    CommentNotFound(i64),
}

/// The note type that a name denotes, if any.
pub open spec fn note_type_named(s: Seq<char>) -> Option<NoteType> {
    if s == "bug"@ {
        Some(NoteType::Bug)
    } else if s == "feature"@ {
        Some(NoteType::Feature)
    } else if s == "task"@ {
        Some(NoteType::Task)
    } else if s == "enhancement"@ {
        Some(NoteType::Enhancement)
    } else {
        None
    }
}

/// The note status that a name denotes, if any.
pub open spec fn note_status_named(s: Seq<char>) -> Option<NoteStatus> {
    if s == "todo"@ {
        Some(NoteStatus::Todo)
    } else if s == "in_progress"@ {
        Some(NoteStatus::InProgress)
    } else if s == "done"@ {
        Some(NoteStatus::Done)
    } else {
        None
    }
}

/// Checks a new note: its title must not be blank and its type must be
/// one of bug, feature, task, enhancement.
pub fn validate_new_note(title: &str, note_type: &str) -> (r: Result<NoteType, KanbanError>)
    ensures
        is_blank(title@) ==> r == Err::<NoteType, KanbanError>(KanbanError::EmptyTitle),
        !is_blank(title@) ==> match note_type_named(note_type@) {
            Some(t) => r == Ok::<NoteType, KanbanError>(t),
            None => r == Err::<NoteType, KanbanError>(KanbanError::InvalidNoteType),
        },
{
    if blank(title) {
        return Err(KanbanError::EmptyTitle);
    }
    if same_text(note_type, "bug") {
        Ok(NoteType::Bug)
    } else if same_text(note_type, "feature") {
        Ok(NoteType::Feature)
    } else if same_text(note_type, "task") {
        Ok(NoteType::Task)
    } else if same_text(note_type, "enhancement") {
        Ok(NoteType::Enhancement)
    } else {
        Err(KanbanError::InvalidNoteType)
    }
}

/// The position of a new note: one past the largest position on the board,
/// or 1 on an empty board.
pub fn next_position(max_position: Option<i64>) -> (r: Result<i64, KanbanError>)
    ensures
        match max_position {
            None => r == Ok::<i64, KanbanError>(1),
            Some(p) => if p == i64::MAX {
                r == Err::<i64, KanbanError>(KanbanError::PositionOverflow)
            } else {
                r == Ok::<i64, KanbanError>((p + 1) as i64)
            },
        },
{
    match max_position {
        None => Ok(1),
        Some(p) => {
            if p == i64::MAX {
                Err(KanbanError::PositionOverflow)
            } else {
                Ok(p + 1)
            }
        },
    }
}

/// Checks an edited note: its title must not be blank.
pub fn validate_note_update(title: &str) -> (r: Result<(), KanbanError>)
    ensures
        r is Err <==> is_blank(title@),
        r is Err ==> r == Err::<(), KanbanError>(KanbanError::EmptyTitle),
{
    if blank(title) {
        Err(KanbanError::EmptyTitle)
    } else {
        Ok(())
    }
}

/// Checks a move of a note: the status must be one of todo, in_progress,
/// done, and the position must not be negative.
pub fn validate_note_move(status: &str, position: i64) -> (r: Result<NoteStatus, KanbanError>)
    ensures
        match note_status_named(status@) {
            None => r == Err::<NoteStatus, KanbanError>(KanbanError::InvalidStatus),
            Some(s) => if position < 0 {
                r == Err::<NoteStatus, KanbanError>(KanbanError::NegativePosition)
            } else {
                r == Ok::<NoteStatus, KanbanError>(s)
            },
        },
{
    let s = if same_text(status, "todo") {
        NoteStatus::Todo
    } else if same_text(status, "in_progress") {
        NoteStatus::InProgress
    } else if same_text(status, "done") {
        NoteStatus::Done
    } else {
        return Err(KanbanError::InvalidStatus);
    };
    if position < 0 {
        return Err(KanbanError::NegativePosition);
    }
    Ok(s)
}

/// Checks a new comment: its text must not be blank.
pub fn validate_comment(comment_text: &str) -> (r: Result<(), KanbanError>)
    ensures
        r is Err <==> is_blank(comment_text@),
        r is Err ==> r == Err::<(), KanbanError>(KanbanError::EmptyComment),
{
    if blank(comment_text) {
        Err(KanbanError::EmptyComment)
    } else {
        Ok(())
    }
}

/// The name stored for a note type.
pub open spec fn note_type_text(t: NoteType) -> Seq<char> {
    match t {
        NoteType::Bug => "bug"@,
        NoteType::Feature => "feature"@,
        NoteType::Task => "task"@,
        NoteType::Enhancement => "enhancement"@,
    }
}

/// The name stored for a note status.
pub open spec fn note_status_text(s: NoteStatus) -> Seq<char> {
    match s {
        NoteStatus::Todo => "todo"@,
        NoteStatus::InProgress => "in_progress"@,
        NoteStatus::Done => "done"@,
    }
}

impl NoteType {
    /// The name stored for the note type.
    pub fn name(&self) -> (r: &'static str)
        ensures
            r@ == note_type_text(*self),
    {
        match self {
            NoteType::Bug => "bug",
            NoteType::Feature => "feature",
            NoteType::Task => "task",
            NoteType::Enhancement => "enhancement",
        }
    }
}

impl NoteStatus {
    /// The name stored for the status.
    pub fn name(&self) -> (r: &'static str)
        ensures
            r@ == note_status_text(*self),
    {
        match self {
            NoteStatus::Todo => "todo",
            NoteStatus::InProgress => "in_progress",
            NoteStatus::Done => "done",
        }
    }
}

/// The message that reports a refused board change.
pub open spec fn kanban_message(e: KanbanError) -> Seq<char> {
    match e {
        KanbanError::EmptyTitle => "Note title cannot be empty"@,
        KanbanError::InvalidNoteType => "Invalid note type. Must be one of: bug, feature, task, or enhancement"@,
        KanbanError::InvalidStatus => "Invalid status. Must be one of: todo, in_progress, or done"@,
        KanbanError::NegativePosition => "Position must be a non-negative number"@,
        KanbanError::EmptyComment => "Comment text cannot be empty"@,
        KanbanError::PositionOverflow => "No position is left for a new note"@,
        KanbanError::NoteNotFound(id) => "Kanban note with ID "@ + int_text(id as int)
            + " not found"@,
        KanbanError::CommentNotFound(id) => "Comment with ID "@ + int_text(id as int)
            + " not found"@,
    }
}

impl KanbanError {
    /// A message stating the rule broken or the record missing.
    pub fn message(&self) -> (r: String)
        ensures
            r@ == kanban_message(*self),
    {
        match self {
            KanbanError::EmptyTitle => String::from_str("Note title cannot be empty"),
            KanbanError::InvalidNoteType => String::from_str(
                "Invalid note type. Must be one of: bug, feature, task, or enhancement",
            ),
            KanbanError::InvalidStatus => String::from_str(
                "Invalid status. Must be one of: todo, in_progress, or done",
            ),
            KanbanError::NegativePosition => String::from_str(
                "Position must be a non-negative number",
            ),
            KanbanError::EmptyComment => String::from_str("Comment text cannot be empty"),
            KanbanError::PositionOverflow => String::from_str("No position is left for a new note"),
            KanbanError::NoteNotFound(id) => {
                let mut s = String::from_str("Kanban note with ID ");
                let digits = int_to_text(*id);
                s.append(digits.as_str());
                s.append(" not found");
                s
            },
            KanbanError::CommentNotFound(id) => {
                let mut s = String::from_str("Comment with ID ");
                let digits = int_to_text(*id);
                s.append(digits.as_str());
                s.append(" not found");
                s
            },
        }
    }
}

} // verus!
