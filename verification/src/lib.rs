//! Extraction of partition images from Android OTA update payloads.
//!
//! The crate parses the payload's fixed header, interprets the manifest's
//! install operations against in-memory partition images, and verifies
//! hashes at operation, old-partition, and new-partition granularity.
//! Decompression and hashing are performed by outside crates behind
//! narrow trusted wrappers; all surrounding logic is verified.
//!
//! Remote payloads are outside this build: the crate verifies how a URL
//! routes (ZIP against raw) and how a ZIP's payload entry is located,
//! but carries no HTTP reader, so a front end must fetch a remote file
//! before handing its bytes over.

pub mod args;
pub mod codecs;
pub mod errors;
pub mod extract;
pub mod hashing;
pub mod header;
pub mod laws;
pub mod manifest;
pub mod module;
pub mod ops;
pub mod reader;
pub mod sched;
pub mod verify;
pub mod zip;

use vstd::prelude::*;

verus! {

/// A seekable byte source with explicit positional semantics: every
/// implementation exposes its full contents and cursor as ghost state,
/// reads advance the cursor and return bytes from the contents, and
/// seeking past the end is an error rather than a silent truncation.
pub trait ReadSeek: Sized {
    /// The full byte contents this reader ranges over.
    spec fn contents(&self) -> Seq<u8>;

    /// The current cursor position.
    spec fn cursor(&self) -> int;

    /// A reader is well formed when its cursor lies within its contents.
    spec fn wf(&self) -> bool;

    /// Read up to `count` bytes at the cursor; fewer are returned only at
    /// end of contents, and none exactly at end of contents.
    fn read(&mut self, count: usize) -> (r: Vec<u8>)
        requires
            old(self).wf(),
        ensures
            final(self).wf(),
            final(self).contents() == old(self).contents(),
            r@.len() == vstd::math::min(
                count as int,
                old(self).contents().len() - old(self).cursor(),
            ),
            r@ == old(self).contents().subrange(
                old(self).cursor(),
                old(self).cursor() + r@.len(),
            ),
            final(self).cursor() == old(self).cursor() + r@.len(),
    ;

    /// Read exactly `count` bytes at the cursor, or fail without moving it
    /// when fewer remain.
    fn read_exact(&mut self, count: usize) -> (r: Result<Vec<u8>, ()>)
        requires
            old(self).wf(),
        ensures
            final(self).wf(),
            final(self).contents() == old(self).contents(),
            r is Ok <==> old(self).cursor() + count <= old(self).contents().len(),
            match r {
                Ok(bytes) => {
                    &&& bytes@ == old(self).contents().subrange(
                        old(self).cursor(),
                        old(self).cursor() + count,
                    )
                    &&& final(self).cursor() == old(self).cursor() + count
                },
                Err(()) => final(self).cursor() == old(self).cursor(),
            },
    ;

    /// Move the cursor to the resolved target position; a target beyond the
    /// end of the contents is an error and leaves the cursor unchanged.
    fn seek(&mut self, from: crate::reader::SeekFrom) -> (r: Result<u64, ()>)
        requires
            old(self).wf(),
        ensures
            final(self).wf(),
            final(self).contents() == old(self).contents(),
            r is Ok <==> crate::reader::seek_target(
                from,
                old(self).cursor(),
                old(self).contents().len() as int,
            ) <= old(self).contents().len(),
            match r {
                Ok(p) => {
                    &&& p as int == crate::reader::seek_target(
                        from,
                        old(self).cursor(),
                        old(self).contents().len() as int,
                    )
                    &&& final(self).cursor() == p as int
                },
                Err(()) => final(self).cursor() == old(self).cursor(),
            },
    ;

    /// Report the current cursor position.
    fn stream_position(&self) -> (r: u64)
        requires
            self.wf(),
        ensures
            r as int == self.cursor(),
    ;
}

} // verus!
