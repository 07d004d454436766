//! The permission audit log: one JSON line per permission decision,
//! appended to a log file. Encoding entries and writing the file are the
//! caller's part.
use vstd::prelude::*;

use crate::text::{owned, push_str};

verus! {

/// A file-based audit logger.
#[derive(Debug, Clone)]
pub struct PermissionAuditLogger {
    log_path: String,
}

impl PermissionAuditLogger {
    /// The file the log is appended to.
    pub closed spec fn path_view(&self) -> Seq<char> {
        self.log_path@
    }

    /// A logger that appends to `log_path`.
    pub fn new(log_path: &str) -> (r: Self)
        ensures
            r.path_view() == log_path@,
    {
        PermissionAuditLogger { log_path: owned(log_path) }
    }

    /// The file the log is appended to.
    pub fn log_path(&self) -> (r: &str)
        ensures
            r@ == self.path_view(),
    {
        self.log_path.as_str()
    }

    /// The line appended for an entry whose JSON text is `entry_json`.
    pub fn log_line(&self, entry_json: &str) -> (r: String)
        ensures
            r@ == entry_json@ + "\n"@,
    {
        let mut r = owned(entry_json);
        push_str(&mut r, "\n");
        r
    }
}

} // verus!
