use cheque_workflow::kanban::{
    next_position, validate_comment, validate_new_note, validate_note_move, validate_note_update,
    KanbanError, NoteStatus, NoteType,
};

#[test]
fn new_note_checks() {
    assert_eq!(validate_new_note("Fix login", "bug"), Ok(NoteType::Bug));
    assert_eq!(validate_new_note("  ", "bug"), Err(KanbanError::EmptyTitle));
    assert_eq!(validate_new_note("Idea", "epic"), Err(KanbanError::InvalidNoteType));
    assert_eq!(NoteType::Enhancement.name(), "enhancement");
}

#[test]
fn positions() {
    assert_eq!(next_position(None), Ok(1));
    assert_eq!(next_position(Some(4)), Ok(5));
    assert_eq!(next_position(Some(i64::MAX)), Err(KanbanError::PositionOverflow));
}

#[test]
fn move_checks() {
    assert_eq!(validate_note_move("in_progress", 0), Ok(NoteStatus::InProgress));
    assert_eq!(validate_note_move("doing", 0), Err(KanbanError::InvalidStatus));
    assert_eq!(validate_note_move("done", -1), Err(KanbanError::NegativePosition));
    assert_eq!(NoteStatus::Todo.name(), "todo");
}

#[test]
fn text_checks() {
    assert_eq!(validate_note_update(""), Err(KanbanError::EmptyTitle));
    assert_eq!(validate_note_update("x"), Ok(()));
    assert_eq!(validate_comment("\t"), Err(KanbanError::EmptyComment));
    assert_eq!(validate_comment("looks good"), Ok(()));
    assert_eq!(KanbanError::NoteNotFound(3).message(), "Kanban note with ID 3 not found");
}
