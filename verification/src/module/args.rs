//! An alternative invocation surface whose partition filter is one
//! comma-separated string rather than a list of names.

use vstd::prelude::*;

verus! {

/// Options of one extraction run, with the defaults the command line
/// gives absent options.
pub struct Args {
    /// Path or URL of the payload.
    pub payload_path: String,
    /// Output directory; `-` streams metadata to standard output.
    pub out: String,
    /// Differential mode: operations may read the old images.
    pub diff: bool,
    /// Directory holding the old partition images.
    pub old: String,
    /// Comma-separated partition names to extract; empty means all.
    pub images: String,
    /// Worker count; absent means the logical CPU count.
    pub threads: Option<usize>,
    /// List partitions and exit.
    pub list: bool,
    /// Emit the manifest as JSON and exit.
    pub metadata: bool,
    /// Force serial extraction.
    pub no_parallel: bool,
    /// Skip post-extraction hash verification.
    pub skip_verify: bool,
}

impl Args {
    /// The run options for `payload_path` with every other option at its
    /// default.
    pub fn new(payload_path: String) -> (r: Args)
        ensures
            r.payload_path@ == payload_path@,
            r.out@ == "output"@,
            !r.diff,
            r.old@ == "old"@,
            r.images@ == ""@,
            r.threads is None,
            !r.list,
            !r.metadata,
            !r.no_parallel,
            !r.skip_verify,
    {
        Args {
            payload_path,
            out: "output".to_owned(),
            diff: false,
            old: "old".to_owned(),
            images: "".to_owned(),
            threads: None,
            list: false,
            metadata: false,
            no_parallel: false,
            skip_verify: false,
        }
    }
}

} // verus!
