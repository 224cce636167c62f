//! The closed set of actions a key chord can be bound to, and the names by
//! which a configuration refers to them.

use vstd::prelude::*;
use vstd::string::*;
use crate::text::str_eq;

verus! {

/// Every keymappable operation of the editor.
#[derive(Debug, PartialEq, Eq, Clone, Copy, Hash, Structural)]
pub enum Operation {
    OpenFile,
    CreateNewBuffer,
    SwitchToPreviousBuffer,
    SwitchToNextBuffer,
    OpenBufferPicker,
    SearchInCurrentBuffer,
    SearchAndReplaceInCurrentBuffer,
    SaveBufferToFile,
    Undo,
    Redo,
    FindFilesInCWD,
    FindTextInCWD,
    Quit,
}

/// A name in a configuration that stands for no operation.
#[derive(Debug, Clone)]
pub struct UnknownOperation {
    /// The name as it was written.
    pub name: String,
}

/// The operation that `name` stands for in a configuration, if any.
pub open spec fn operation_named(name: Seq<char>) -> Option<Operation> {
    if name == "open_file"@ {
        Some(Operation::OpenFile)
    } else if name == "new_buffer"@ {
        Some(Operation::CreateNewBuffer)
    } else if name == "previous_buffer"@ {
        Some(Operation::SwitchToPreviousBuffer)
    } else if name == "next_buffer"@ {
        Some(Operation::SwitchToNextBuffer)
    } else if name == "open_buffer_picker"@ {
        Some(Operation::OpenBufferPicker)
    } else if name == "search_in_current_buffer"@ {
        Some(Operation::SearchInCurrentBuffer)
    } else if name == "replace_in_current_buffer"@ {
        Some(Operation::SearchAndReplaceInCurrentBuffer)
    } else if name == "save"@ {
        Some(Operation::SaveBufferToFile)
    } else if name == "undo"@ {
        Some(Operation::Undo)
    } else if name == "redo"@ {
        Some(Operation::Redo)
    } else if name == "find_files_in_cwd"@ {
        Some(Operation::FindFilesInCWD)
    } else if name == "find_text_in_cwd"@ {
        Some(Operation::FindTextInCWD)
    } else if name == "quit"@ {
        Some(Operation::Quit)
    } else {
        None
    }
}

/// The name by which a configuration refers to an operation.
pub open spec fn operation_name(op: Operation) -> Seq<char> {
    match op {
        Operation::OpenFile => "open_file"@,
        Operation::CreateNewBuffer => "new_buffer"@,
        Operation::SwitchToPreviousBuffer => "previous_buffer"@,
        Operation::SwitchToNextBuffer => "next_buffer"@,
        Operation::OpenBufferPicker => "open_buffer_picker"@,
        Operation::SearchInCurrentBuffer => "search_in_current_buffer"@,
        Operation::SearchAndReplaceInCurrentBuffer => "replace_in_current_buffer"@,
        Operation::SaveBufferToFile => "save"@,
        Operation::Undo => "undo"@,
        Operation::Redo => "redo"@,
        Operation::FindFilesInCWD => "find_files_in_cwd"@,
        Operation::FindTextInCWD => "find_text_in_cwd"@,
        Operation::Quit => "quit"@,
    }
}

impl Operation {
    /// The name by which a configuration refers to this operation.
    pub fn name(&self) -> (name: String)
        ensures
            name@ == operation_name(*self),
    {
        String::from_str(
            match self {
                Operation::OpenFile => "open_file",
                Operation::CreateNewBuffer => "new_buffer",
                Operation::SwitchToPreviousBuffer => "previous_buffer",
                Operation::SwitchToNextBuffer => "next_buffer",
                Operation::OpenBufferPicker => "open_buffer_picker",
                Operation::SearchInCurrentBuffer => "search_in_current_buffer",
                Operation::SearchAndReplaceInCurrentBuffer => "replace_in_current_buffer",
                Operation::SaveBufferToFile => "save",
                Operation::Undo => "undo",
                Operation::Redo => "redo",
                Operation::FindFilesInCWD => "find_files_in_cwd",
                Operation::FindTextInCWD => "find_text_in_cwd",
                Operation::Quit => "quit",
            },
        )
    }

    /// Reads an operation from its name in a configuration. Names are matched
    /// exactly; any other text is handed back in the error.
    pub fn from_string(query: &str) -> (found: Result<Operation, UnknownOperation>)
        ensures
            match found {
                Ok(op) => operation_named(query@) == Some(op),
                Err(e) => operation_named(query@) is None && e.name@ == query@,
            },
    {
        if str_eq(query, "open_file") {
            Ok(Operation::OpenFile)
        } else if str_eq(query, "new_buffer") {
            Ok(Operation::CreateNewBuffer)
        } else if str_eq(query, "previous_buffer") {
            Ok(Operation::SwitchToPreviousBuffer)
        } else if str_eq(query, "next_buffer") {
            Ok(Operation::SwitchToNextBuffer)
        } else if str_eq(query, "open_buffer_picker") {
            Ok(Operation::OpenBufferPicker)
        } else if str_eq(query, "search_in_current_buffer") {
            Ok(Operation::SearchInCurrentBuffer)
        } else if str_eq(query, "replace_in_current_buffer") {
            Ok(Operation::SearchAndReplaceInCurrentBuffer)
        } else if str_eq(query, "save") {
            Ok(Operation::SaveBufferToFile)
        } else if str_eq(query, "undo") {
            Ok(Operation::Undo)
        } else if str_eq(query, "redo") {
            Ok(Operation::Redo)
        } else if str_eq(query, "find_files_in_cwd") {
            Ok(Operation::FindFilesInCWD)
        } else if str_eq(query, "find_text_in_cwd") {
            Ok(Operation::FindTextInCWD)
        } else if str_eq(query, "quit") {
            Ok(Operation::Quit)
        } else {
            Err(UnknownOperation { name: String::from_str(query) })
        }
    }
}

impl UnknownOperation {
    /// A sentence that names the rejected text.
    pub fn message(&self) -> (text: String)
        ensures
            text@ == "Invalid operation in config: "@ + self.name@,
    {
        String::from_str("Invalid operation in config: ").concat(self.name.as_str())
    }
}

/// Every operation is read back from its own name.
pub proof fn lemma_name_is_read_back(op: Operation)
    ensures
        operation_named(operation_name(op)) == Some(op),
{
    reveal_strlit("open_file");
    reveal_strlit("new_buffer");
    reveal_strlit("previous_buffer");
    reveal_strlit("next_buffer");
    reveal_strlit("open_buffer_picker");
    reveal_strlit("search_in_current_buffer");
    reveal_strlit("replace_in_current_buffer");
    reveal_strlit("save");
    reveal_strlit("undo");
    reveal_strlit("redo");
    reveal_strlit("find_files_in_cwd");
    reveal_strlit("find_text_in_cwd");
    reveal_strlit("quit");
    assert("open_file"@[0] == 'o' && "open_file"@.len() == 9);
    assert("new_buffer"@[0] == 'n' && "new_buffer"@.len() == 10);
    assert("previous_buffer"@[0] == 'p' && "previous_buffer"@.len() == 15);
    assert("next_buffer"@[0] == 'n' && "next_buffer"@.len() == 11);
    assert("open_buffer_picker"@[0] == 'o' && "open_buffer_picker"@.len() == 18);
    assert("search_in_current_buffer"@[0] == 's' && "search_in_current_buffer"@.len() == 24);
    assert("replace_in_current_buffer"@[0] == 'r' && "replace_in_current_buffer"@.len() == 25);
    assert("save"@[0] == 's' && "save"@.len() == 4);
    assert("undo"@[0] == 'u' && "undo"@.len() == 4);
    assert("redo"@[0] == 'r' && "redo"@.len() == 4);
    assert("find_files_in_cwd"@[5] == 'f' && "find_files_in_cwd"@.len() == 17);
    assert("find_text_in_cwd"@[5] == 't' && "find_text_in_cwd"@.len() == 16);
    assert("quit"@[0] == 'q' && "quit"@.len() == 4);
}

} // verus!
