use vstd::prelude::*;

verus! {

/// The kinds of log files.
#[derive(Debug, Clone, Copy, PartialEq, Eq)]
pub enum FileTypes {
    INFO,
    DEBUG,
    WARN,
    ERROR,
    OPERATIONS,
}

/// The name of a kind of log file.
pub open spec fn file_type_name(t: FileTypes) -> Seq<char> {
    match t {
        FileTypes::INFO => "INFO"@,
        FileTypes::DEBUG => "DEBUG"@,
        FileTypes::WARN => "WARN"@,
        FileTypes::ERROR => "ERROR"@,
        FileTypes::OPERATIONS => "OPERATIONS"@,
    }
}

impl FileTypes {
    /// The name of the kind, also the directory its files go to.
    pub fn as_str(&self) -> (name: &str)
        ensures
            name@ == file_type_name(*self),
    {
        match self {
            FileTypes::INFO => "INFO",
            FileTypes::DEBUG => "DEBUG",
            FileTypes::WARN => "WARN",
            FileTypes::ERROR => "ERROR",
            FileTypes::OPERATIONS => "OPERATIONS",
        }
    }
}

/// The line count of a log file, which decides when a new file is started.
/// The file itself is kept by the caller.
pub struct LogFileManager {
    pub max_lines: i64,
    pub current_lint: i64,
    pub file_type: FileTypes,
}

/// The operations of one operation id, by file path. The files themselves are
/// kept by the caller.
pub struct OperationsFileManager {
    pub op_id: String,
}

} // verus!
