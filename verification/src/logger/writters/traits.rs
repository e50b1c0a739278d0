use vstd::prelude::*;
use crate::logger::writters::configs::operations_locations;
use crate::logger::writters::writter::{FileTypes, LogFileManager, OperationsFileManager, file_type_name};

verus! {

/// `name` followed by the extension `.th`.
fn with_th_extension(name: &str) -> (file: String)
    ensures
        file@ == name@ + ".th"@,
{
    let mut file = name.to_owned();
    file.append(".th");
    file
}

impl LogFileManager {
    /// A fresh count for a file of kind `file_type`, started after a million
    /// lines.
    pub fn new(file_type: FileTypes) -> (manager: LogFileManager)
        ensures
            manager.max_lines == 1_000_000,
            manager.current_lint == 0,
            manager.file_type == file_type,
    {
        LogFileManager { max_lines: 1_000_000, current_lint: 0, file_type }
    }

    /// Whether the file holds as many lines as it may.
    pub fn is_file_limit(&self) -> (full: bool)
        ensures
            full == (self.current_lint >= self.max_lines),
    {
        self.current_lint >= self.max_lines
    }

    /// Counts one more line written; when the file is then full, the count
    /// starts over for a new file and `true` is returned.
    pub fn write(&mut self) -> (new_file: bool)
        requires
            old(self).current_lint < i64::MAX,
        ensures
            new_file == (old(self).current_lint + 1 >= old(self).max_lines),
            final(self).current_lint == if new_file { 0 } else { old(self).current_lint + 1 },
            final(self).max_lines == old(self).max_lines,
            final(self).file_type == old(self).file_type,
    {
        self.current_lint = self.current_lint + 1;
        if self.is_file_limit() {
            self.new_file();
            return true;
        }
        false
    }

    /// Starts the count over for a new file.
    pub fn new_file(&mut self)
        ensures
            final(self).current_lint == 0,
            final(self).max_lines == old(self).max_lines,
            final(self).file_type == old(self).file_type,
    {
        self.current_lint = 0;
    }

    /// The path of a log file of kind `file_type` started at the time written
    /// `start_time`: `logs`, the kind's name, then the time.
    pub fn generate_file_name(start_time: &String, file_type: &FileTypes) -> (path: Vec<String>)
        ensures
            path@.len() == 3,
            path@[0]@ == "logs"@,
            path@[1]@ == file_type_name(*file_type),
            path@[2]@ == start_time@,
    {
        let mut path: Vec<String> = Vec::new();
        path.push("logs".to_owned());
        path.push(file_type.as_str().to_owned());
        path.push(start_time.clone());
        path
    }
}

impl OperationsFileManager {
    /// The records of operation `op_id`.
    pub fn new(op_id: &str) -> (manager: OperationsFileManager)
        ensures
            manager.op_id@ == op_id@,
    {
        OperationsFileManager { op_id: op_id.to_owned() }
    }

    /// The directory of operation `op_id`.
    pub fn get_operations_path(op_id: &str) -> (path: Vec<String>)
        ensures
            path@.map_values(|p: String| p@) == seq!["logs/OPERATIONS"@, op_id@],
    {
        let mut path: Vec<String> = Vec::new();
        path.push(operations_locations());
        path.push(op_id.to_owned());
        assert(path@.map_values(|p: String| p@) =~= seq!["logs/OPERATIONS"@, op_id@]);
        path
    }

    /// The main record of operation `op_id`.
    pub fn get_operations_main_path(op_id: &str) -> (path: Vec<String>)
        ensures
            path@.map_values(|p: String| p@) == seq!["logs/OPERATIONS"@, op_id@, "main_operation.th"@],
    {
        let mut path: Vec<String> = Vec::new();
        path.push(operations_locations());
        path.push(op_id.to_owned());
        path.push("main_operation.th".to_owned());
        assert(path@.map_values(|p: String| p@) =~= seq!["logs/OPERATIONS"@, op_id@, "main_operation.th"@]);
        path
    }

    /// The record of step `step_id` of operation `op_id`.
    pub fn get_step_path(op_id: &str, step_id: &str) -> (path: Vec<String>)
        ensures
            path@.map_values(|p: String| p@) == seq!["logs/OPERATIONS"@, op_id@, step_id@ + ".th"@],
    {
        let mut path: Vec<String> = Vec::new();
        path.push(operations_locations());
        path.push(op_id.to_owned());
        path.push(with_th_extension(step_id));
        assert(path@.map_values(|p: String| p@) =~= seq!["logs/OPERATIONS"@, op_id@, step_id@ + ".th"@]);
        path
    }

    /// The directory of the records by date.
    pub fn get_date_path() -> (path: Vec<String>)
        ensures
            path@.map_values(|p: String| p@) == seq!["logs/OPERATIONS"@, "dates"@],
    {
        let mut path: Vec<String> = Vec::new();
        path.push(operations_locations());
        path.push("dates".to_owned());
        assert(path@.map_values(|p: String| p@) =~= seq!["logs/OPERATIONS"@, "dates"@]);
        path
    }

    /// The dated record of operation `op_id`.
    pub fn get_operation_date_path(op_id: &str) -> (path: Vec<String>)
        ensures
            path@.map_values(|p: String| p@) == seq!["logs/OPERATIONS"@, "dates"@, op_id@ + ".th"@],
    {
        let mut path: Vec<String> = Vec::new();
        path.push(operations_locations());
        path.push("dates".to_owned());
        path.push(with_th_extension(op_id));
        assert(path@.map_values(|p: String| p@) =~= seq!["logs/OPERATIONS"@, "dates"@, op_id@ + ".th"@]);
        path
    }

    /// The dated record of step `step_id` of operation `op_id`.
    pub fn get_step_date_path(op_id: &str, step_id: &str) -> (path: Vec<String>)
        ensures
            path@.map_values(|p: String| p@) == seq!["logs/OPERATIONS"@, "dates"@, op_id@, step_id@ + ".th"@],
    {
        let mut path: Vec<String> = Vec::new();
        path.push(operations_locations());
        path.push("dates".to_owned());
        path.push(op_id.to_owned());
        path.push(with_th_extension(step_id));
        assert(path@.map_values(|p: String| p@) =~= seq!["logs/OPERATIONS"@, "dates"@, op_id@, step_id@ + ".th"@]);
        path
    }
}

} // verus!
