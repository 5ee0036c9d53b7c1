//! The edit operations a text editor offers.
use vstd::prelude::*;

verus! {

/// An edit operation, named by the identifier that commands and key bindings
/// refer to it by.
#[derive(Clone, PartialEq, Eq, Debug, Structural)]
pub enum EditOp {
    MoveLineUp,
    MoveLineDown,
    InsertNewLine,
    InsertTab,
    NewLineAbove,
    NewLineBelow,
    DeleteBackward,
    DeleteForward,
    DeleteLine,
    DeleteForwardAndInsert,
    DeleteWordAndInsert,
    DeleteLineAndInsert,
    DeleteWordForward,
    DeleteWordBackward,
    DeleteToBeginningOfLine,
    DeleteToEndOfLine,
    DeleteToEndOfLineAndInsert,
    JoinLines,
    IndentLine,
    OutdentLine,
    ToggleLineComment,
    Undo,
    Redo,
    ClipboardCopy,
    ClipboardCut,
    ClipboardPaste,
    Yank,
    Paste,
    PasteBefore,
    NormalMode,
    InsertMode,
    InsertFirstNonBlank,
    Append,
    AppendEndOfLine,
    ToggleVisualMode,
    ToggleLinewiseVisualMode,
    ToggleBlockwiseVisualMode,
    DuplicateLineUp,
    DuplicateLineDown,
}

impl EditOp {
    /// The identifier of the operation, such as `move_line_up`.
    pub open spec fn name(self) -> Seq<char> {
        match self {
            EditOp::MoveLineUp => "move_line_up"@,
            EditOp::MoveLineDown => "move_line_down"@,
            EditOp::InsertNewLine => "insert_new_line"@,
            EditOp::InsertTab => "insert_tab"@,
            EditOp::NewLineAbove => "new_line_above"@,
            EditOp::NewLineBelow => "new_line_below"@,
            EditOp::DeleteBackward => "delete_backward"@,
            EditOp::DeleteForward => "delete_forward"@,
            EditOp::DeleteLine => "delete_line"@,
            EditOp::DeleteForwardAndInsert => "delete_forward_and_insert"@,
            EditOp::DeleteWordAndInsert => "delete_word_and_insert"@,
            EditOp::DeleteLineAndInsert => "delete_line_and_insert"@,
            EditOp::DeleteWordForward => "delete_word_forward"@,
            EditOp::DeleteWordBackward => "delete_word_backward"@,
            EditOp::DeleteToBeginningOfLine => "delete_to_beginning_of_line"@,
            EditOp::DeleteToEndOfLine => "delete_to_end_of_line"@,
            EditOp::DeleteToEndOfLineAndInsert => "delete_to_end_and_insert"@,
            EditOp::JoinLines => "join_lines"@,
            EditOp::IndentLine => "indent_line"@,
            EditOp::OutdentLine => "outdent_line"@,
            EditOp::ToggleLineComment => "toggle_line_comment"@,
            EditOp::Undo => "undo"@,
            EditOp::Redo => "redo"@,
            EditOp::ClipboardCopy => "clipboard_copy"@,
            EditOp::ClipboardCut => "clipboard_cut"@,
            EditOp::ClipboardPaste => "clipboard_paste"@,
            EditOp::Yank => "yank"@,
            EditOp::Paste => "paste"@,
            EditOp::PasteBefore => "paste_before"@,
            EditOp::NormalMode => "normal_mode"@,
            EditOp::InsertMode => "insert_mode"@,
            EditOp::InsertFirstNonBlank => "insert_first_non_blank"@,
            EditOp::Append => "append"@,
            EditOp::AppendEndOfLine => "append_end_of_line"@,
            EditOp::ToggleVisualMode => "toggle_visual_mode"@,
            EditOp::ToggleLinewiseVisualMode => "toggle_linewise_visual_mode"@,
            EditOp::ToggleBlockwiseVisualMode => "toggle_blockwise_visual_mode"@,
            EditOp::DuplicateLineUp => "duplicate_line_up"@,
            EditOp::DuplicateLineDown => "duplicate_line_down"@,
        }
    }

    /// The human-readable label of the operation, for the operations that have one.
    pub open spec fn label(self) -> Option<Seq<char>> {
        match self {
            EditOp::JoinLines => Some("Join Lines"@),
            EditOp::IndentLine => Some("Indent Line"@),
            EditOp::OutdentLine => Some("Outdent Line"@),
            EditOp::ToggleLineComment => Some("Toggle Line Comment"@),
            EditOp::ClipboardCopy => Some("Copy"@),
            EditOp::ClipboardCut => Some("Cut"@),
            EditOp::ClipboardPaste => Some("Paste"@),
            _ => None,
        }
    }

    /// The identifier of the operation; it is also how the operation is displayed.
    pub fn as_str(&self) -> (s: &'static str)
        ensures
            s@ == self.name(),
    {
        match self {
            EditOp::MoveLineUp => "move_line_up",
            EditOp::MoveLineDown => "move_line_down",
            EditOp::InsertNewLine => "insert_new_line",
            EditOp::InsertTab => "insert_tab",
            EditOp::NewLineAbove => "new_line_above",
            EditOp::NewLineBelow => "new_line_below",
            EditOp::DeleteBackward => "delete_backward",
            EditOp::DeleteForward => "delete_forward",
            EditOp::DeleteLine => "delete_line",
            EditOp::DeleteForwardAndInsert => "delete_forward_and_insert",
            EditOp::DeleteWordAndInsert => "delete_word_and_insert",
            EditOp::DeleteLineAndInsert => "delete_line_and_insert",
            EditOp::DeleteWordForward => "delete_word_forward",
            EditOp::DeleteWordBackward => "delete_word_backward",
            EditOp::DeleteToBeginningOfLine => "delete_to_beginning_of_line",
            EditOp::DeleteToEndOfLine => "delete_to_end_of_line",
            EditOp::DeleteToEndOfLineAndInsert => "delete_to_end_and_insert",
            EditOp::JoinLines => "join_lines",
            EditOp::IndentLine => "indent_line",
            EditOp::OutdentLine => "outdent_line",
            EditOp::ToggleLineComment => "toggle_line_comment",
            EditOp::Undo => "undo",
            EditOp::Redo => "redo",
            EditOp::ClipboardCopy => "clipboard_copy",
            EditOp::ClipboardCut => "clipboard_cut",
            EditOp::ClipboardPaste => "clipboard_paste",
            EditOp::Yank => "yank",
            EditOp::Paste => "paste",
            EditOp::PasteBefore => "paste_before",
            EditOp::NormalMode => "normal_mode",
            EditOp::InsertMode => "insert_mode",
            EditOp::InsertFirstNonBlank => "insert_first_non_blank",
            EditOp::Append => "append",
            EditOp::AppendEndOfLine => "append_end_of_line",
            EditOp::ToggleVisualMode => "toggle_visual_mode",
            EditOp::ToggleLinewiseVisualMode => "toggle_linewise_visual_mode",
            EditOp::ToggleBlockwiseVisualMode => "toggle_blockwise_visual_mode",
            EditOp::DuplicateLineUp => "duplicate_line_up",
            EditOp::DuplicateLineDown => "duplicate_line_down",
        }
    }

    /// The human-readable label of the operation, if it has one.
    pub fn get_message(&self) -> (m: Option<&'static str>)
        ensures
            m is Some <==> self.label() is Some,
            m matches Some(s) ==> self.label() == Some(s@),
    {
        match self {
            EditOp::JoinLines => Some("Join Lines"),
            EditOp::IndentLine => Some("Indent Line"),
            EditOp::OutdentLine => Some("Outdent Line"),
            EditOp::ToggleLineComment => Some("Toggle Line Comment"),
            EditOp::ClipboardCopy => Some("Copy"),
            EditOp::ClipboardCut => Some("Cut"),
            EditOp::ClipboardPaste => Some("Paste"),
            _ => None,
        }
    }
}

/// The operation an identifier names, if any: the table that reading a
/// command by its identifier goes by.
pub open spec fn op_named(s: Seq<char>) -> Option<EditOp> {
    if s == "move_line_up"@ {
        Some(EditOp::MoveLineUp)
    } else if s == "move_line_down"@ {
        Some(EditOp::MoveLineDown)
    } else if s == "insert_new_line"@ {
        Some(EditOp::InsertNewLine)
    } else if s == "insert_tab"@ {
        Some(EditOp::InsertTab)
    } else if s == "new_line_above"@ {
        Some(EditOp::NewLineAbove)
    } else if s == "new_line_below"@ {
        Some(EditOp::NewLineBelow)
    } else if s == "delete_backward"@ {
        Some(EditOp::DeleteBackward)
    } else if s == "delete_forward"@ {
        Some(EditOp::DeleteForward)
    } else if s == "delete_line"@ {
        Some(EditOp::DeleteLine)
    } else if s == "delete_forward_and_insert"@ {
        Some(EditOp::DeleteForwardAndInsert)
    } else if s == "delete_word_and_insert"@ {
        Some(EditOp::DeleteWordAndInsert)
    } else if s == "delete_line_and_insert"@ {
        Some(EditOp::DeleteLineAndInsert)
    } else if s == "delete_word_forward"@ {
        Some(EditOp::DeleteWordForward)
    } else if s == "delete_word_backward"@ {
        Some(EditOp::DeleteWordBackward)
    } else if s == "delete_to_beginning_of_line"@ {
        Some(EditOp::DeleteToBeginningOfLine)
    } else if s == "delete_to_end_of_line"@ {
        Some(EditOp::DeleteToEndOfLine)
    } else if s == "delete_to_end_and_insert"@ {
        Some(EditOp::DeleteToEndOfLineAndInsert)
    } else if s == "join_lines"@ {
        Some(EditOp::JoinLines)
    } else if s == "indent_line"@ {
        Some(EditOp::IndentLine)
    } else if s == "outdent_line"@ {
        Some(EditOp::OutdentLine)
    } else if s == "toggle_line_comment"@ {
        Some(EditOp::ToggleLineComment)
    } else if s == "undo"@ {
        Some(EditOp::Undo)
    } else if s == "redo"@ {
        Some(EditOp::Redo)
    } else if s == "clipboard_copy"@ {
        Some(EditOp::ClipboardCopy)
    } else if s == "clipboard_cut"@ {
        Some(EditOp::ClipboardCut)
    } else if s == "clipboard_paste"@ {
        Some(EditOp::ClipboardPaste)
    } else if s == "yank"@ {
        Some(EditOp::Yank)
    } else if s == "paste"@ {
        Some(EditOp::Paste)
    } else if s == "paste_before"@ {
        Some(EditOp::PasteBefore)
    } else if s == "normal_mode"@ {
        Some(EditOp::NormalMode)
    } else if s == "insert_mode"@ {
        Some(EditOp::InsertMode)
    } else if s == "insert_first_non_blank"@ {
        Some(EditOp::InsertFirstNonBlank)
    } else if s == "append"@ {
        Some(EditOp::Append)
    } else if s == "append_end_of_line"@ {
        Some(EditOp::AppendEndOfLine)
    } else if s == "toggle_visual_mode"@ {
        Some(EditOp::ToggleVisualMode)
    } else if s == "toggle_linewise_visual_mode"@ {
        Some(EditOp::ToggleLinewiseVisualMode)
    } else if s == "toggle_blockwise_visual_mode"@ {
        Some(EditOp::ToggleBlockwiseVisualMode)
    } else if s == "duplicate_line_up"@ {
        Some(EditOp::DuplicateLineUp)
    } else if s == "duplicate_line_down"@ {
        Some(EditOp::DuplicateLineDown)
    } else {
        None
    }
}

/// The operation a label belongs to, if any.
pub open spec fn op_labelled(s: Seq<char>) -> Option<EditOp> {
    if s == "Join Lines"@ {
        Some(EditOp::JoinLines)
    } else if s == "Indent Line"@ {
        Some(EditOp::IndentLine)
    } else if s == "Outdent Line"@ {
        Some(EditOp::OutdentLine)
    } else if s == "Toggle Line Comment"@ {
        Some(EditOp::ToggleLineComment)
    } else if s == "Copy"@ {
        Some(EditOp::ClipboardCopy)
    } else if s == "Cut"@ {
        Some(EditOp::ClipboardCut)
    } else if s == "Paste"@ {
        Some(EditOp::ClipboardPaste)
    } else {
        None
    }
}

/// Every operation's identifier names that operation and no other: reading
/// the identifier back gives the operation, an identifier that names an
/// operation is that operation's identifier, and different operations have
/// different identifiers.
pub proof fn lemma_names_identify(a: EditOp, b: EditOp, s: Seq<char>)
    ensures
        op_named(a.name()) == Some(a),
        op_named(s) matches Some(op) ==> op.name() == s,
        a != b ==> a.name() != b.name(),
{
    broadcast use vstd::string::group_string_axioms;

    reveal_strlit("move_line_up");
    reveal_strlit("move_line_down");
    reveal_strlit("insert_new_line");
    reveal_strlit("insert_tab");
    reveal_strlit("new_line_above");
    reveal_strlit("new_line_below");
    reveal_strlit("delete_backward");
    reveal_strlit("delete_forward");
    reveal_strlit("delete_line");
    reveal_strlit("delete_forward_and_insert");
    reveal_strlit("delete_word_and_insert");
    reveal_strlit("delete_line_and_insert");
    reveal_strlit("delete_word_forward");
    reveal_strlit("delete_word_backward");
    reveal_strlit("delete_to_beginning_of_line");
    reveal_strlit("delete_to_end_of_line");
    reveal_strlit("delete_to_end_and_insert");
    reveal_strlit("join_lines");
    reveal_strlit("indent_line");
    reveal_strlit("outdent_line");
    reveal_strlit("toggle_line_comment");
    reveal_strlit("undo");
    reveal_strlit("redo");
    reveal_strlit("clipboard_copy");
    reveal_strlit("clipboard_cut");
    reveal_strlit("clipboard_paste");
    reveal_strlit("yank");
    reveal_strlit("paste");
    reveal_strlit("paste_before");
    reveal_strlit("normal_mode");
    reveal_strlit("insert_mode");
    reveal_strlit("insert_first_non_blank");
    reveal_strlit("append");
    reveal_strlit("append_end_of_line");
    reveal_strlit("toggle_visual_mode");
    reveal_strlit("toggle_linewise_visual_mode");
    reveal_strlit("toggle_blockwise_visual_mode");
    reveal_strlit("duplicate_line_up");
    reveal_strlit("duplicate_line_down");
    assert("move_line_up"@.len() == 12);
    assert("move_line_up"@[0] == 'm');
    assert("move_line_down"@.len() == 14);
    assert("move_line_down"@[10] == 'd');
    assert("insert_new_line"@.len() == 15);
    assert("insert_new_line"@[0] == 'i');
    assert("insert_tab"@.len() == 10);
    assert("insert_tab"@[0] == 'i');
    assert("new_line_above"@.len() == 14);
    assert("new_line_above"@[10] == 'b');
    assert("new_line_below"@.len() == 14);
    assert("new_line_below"@[10] == 'e');
    assert("delete_backward"@.len() == 15);
    assert("delete_backward"@[0] == 'd');
    assert("delete_forward"@.len() == 14);
    assert("delete_forward"@[10] == 'w');
    assert("delete_line"@.len() == 11);
    assert("delete_line"@[2] == 'l');
    assert("delete_forward_and_insert"@.len() == 25);
    assert("delete_word_and_insert"@.len() == 22);
    assert("delete_word_and_insert"@[7] == 'w');
    assert("delete_line_and_insert"@.len() == 22);
    assert("delete_line_and_insert"@[7] == 'l');
    assert("delete_word_forward"@.len() == 19);
    assert("delete_word_forward"@[1] == 'e');
    assert("delete_word_backward"@.len() == 20);
    assert("delete_to_beginning_of_line"@.len() == 27);
    assert("delete_to_beginning_of_line"@[0] == 'd');
    assert("delete_to_end_of_line"@.len() == 21);
    assert("delete_to_end_and_insert"@.len() == 24);
    assert("join_lines"@.len() == 10);
    assert("join_lines"@[0] == 'j');
    assert("indent_line"@.len() == 11);
    assert("indent_line"@[2] == 'd');
    assert("outdent_line"@.len() == 12);
    assert("outdent_line"@[0] == 'o');
    assert("toggle_line_comment"@.len() == 19);
    assert("toggle_line_comment"@[1] == 'o');
    assert("undo"@.len() == 4);
    assert("undo"@[0] == 'u');
    assert("redo"@.len() == 4);
    assert("redo"@[0] == 'r');
    assert("clipboard_copy"@.len() == 14);
    assert("clipboard_copy"@[10] == 'c');
    assert("clipboard_cut"@.len() == 13);
    assert("clipboard_paste"@.len() == 15);
    assert("clipboard_paste"@[0] == 'c');
    assert("yank"@.len() == 4);
    assert("yank"@[0] == 'y');
    assert("paste"@.len() == 5);
    assert("paste_before"@.len() == 12);
    assert("paste_before"@[0] == 'p');
    assert("normal_mode"@.len() == 11);
    assert("normal_mode"@[2] == 'r');
    assert("insert_mode"@.len() == 11);
    assert("insert_mode"@[2] == 's');
    assert("insert_first_non_blank"@.len() == 22);
    assert("insert_first_non_blank"@[7] == 'f');
    assert("append"@.len() == 6);
    assert("append_end_of_line"@.len() == 18);
    assert("append_end_of_line"@[0] == 'a');
    assert("toggle_visual_mode"@.len() == 18);
    assert("toggle_visual_mode"@[0] == 't');
    assert("toggle_linewise_visual_mode"@.len() == 27);
    assert("toggle_linewise_visual_mode"@[0] == 't');
    assert("toggle_blockwise_visual_mode"@.len() == 28);
    assert("duplicate_line_up"@.len() == 17);
    assert("duplicate_line_down"@.len() == 19);
    assert("duplicate_line_down"@[1] == 'u');
}

/// Every label belongs to its operation and no other: reading a label back
/// gives the operation it labels, a label that belongs to an operation is
/// that operation's label, and different operations have different labels.
pub proof fn lemma_labels_identify(a: EditOp, b: EditOp, s: Seq<char>)
    ensures
        a.label() matches Some(l) ==> op_labelled(l) == Some(a),
        op_labelled(s) matches Some(op) ==> op.label() == Some(s),
        a != b && a.label() is Some ==> a.label() != b.label(),
{
    broadcast use vstd::string::group_string_axioms;

    reveal_strlit("Join Lines");
    reveal_strlit("Indent Line");
    reveal_strlit("Outdent Line");
    reveal_strlit("Toggle Line Comment");
    reveal_strlit("Copy");
    reveal_strlit("Cut");
    reveal_strlit("Paste");
    assert("Join Lines"@.len() == 10);
    assert("Indent Line"@.len() == 11);
    assert("Outdent Line"@.len() == 12);
    assert("Toggle Line Comment"@.len() == 19);
    assert("Copy"@.len() == 4);
    assert("Cut"@.len() == 3);
    assert("Paste"@.len() == 5);
}

} // verus!
