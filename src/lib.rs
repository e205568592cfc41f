// Counts the files, folders and lines of source text under a directory.
//
// `classify` sorts a line into blank, comment or code; `scan` keeps the
// counters and the directories still to list while a caller walks the tree.

pub mod classify;
pub mod scan;
