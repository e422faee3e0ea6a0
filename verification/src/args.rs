//! The invocation surface: what to extract, where to, and how.
//!
//! Paths are carried as plain strings; the thin front end around the
//! crate turns them into filesystem paths and parses the command line.

use vstd::prelude::*;

verus! {

/// Options of one extraction run, with the defaults the command line
/// gives absent options.
pub struct Args {
    /// Path or URL of the payload: a bare file, a ZIP, or `http(s)://…`.
    pub payload_path: String,
    /// Output directory; `-` streams metadata to standard output.
    pub out: String,
    /// Differential mode: operations may read the old images.
    pub diff: bool,
    /// Directory holding the old partition images.
    pub old: String,
    /// Partition names to extract; empty means all.
    pub partitions: Vec<String>,
    /// Worker count; absent means the logical CPU count.
    pub threads: Option<usize>,
    /// List partitions and exit.
    pub list: bool,
    /// Emit the manifest as JSON and exit.
    pub metadata: bool,
    /// Force serial extraction.
    pub no_parallel: bool,
    /// Skip post-extraction hash verification.
    pub skip_verify: bool,
    /// The User-Agent for remote payloads.
    pub user_agent: String,
}

impl Args {
    /// The run options for `payload_path` with every other option at its
    /// default.
    pub fn new(payload_path: String) -> (r: Args)
        ensures
            r.payload_path@ == payload_path@,
            r.out@ == "output"@,
            !r.diff,
            r.old@ == "old"@,
            r.partitions@.len() == 0,
            r.threads is None,
            !r.list,
            !r.metadata,
            !r.no_parallel,
            !r.skip_verify,
            r.user_agent@
                == "Mozilla/5.0 (X11; Linux x86_64) AppleWebKit/537.36 (KHTML, like Gecko) Chrome/124.0.0.0 Safari/537.36"@,
    {
        Args {
            payload_path,
            out: "output".to_owned(),
            diff: false,
            old: "old".to_owned(),
            partitions: Vec::new(),
            threads: None,
            list: false,
            metadata: false,
            no_parallel: false,
            skip_verify: false,
            user_agent:
                "Mozilla/5.0 (X11; Linux x86_64) AppleWebKit/537.36 (KHTML, like Gecko) Chrome/124.0.0.0 Safari/537.36".to_owned(),
        }
    }
}

} // verus!
