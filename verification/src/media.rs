//! Upload accounting, file naming, and the HTTP statuses of the media
//! endpoints. The bytes themselves stream to disk in the server; every
//! decision about them is made here.

use crate::protocol::{Video, VideoView};
use vstd::prelude::*;

verus! {

/// Uploads larger than this (4 GiB) are refused.
pub const MAX_UPLOAD: u64 = 4 * 1024 * 1024 * 1024;

/// HTTP 204 No Content.
pub const STATUS_NO_CONTENT: u16 = 204;

/// HTTP 400 Bad Request.
pub const STATUS_BAD_REQUEST: u16 = 400;

/// HTTP 404 Not Found.
pub const STATUS_NOT_FOUND: u16 = 404;

/// HTTP 413 Payload Too Large.
pub const STATUS_PAYLOAD_TOO_LARGE: u16 = 413;

/// HTTP 500 Internal Server Error.
pub const STATUS_INTERNAL_SERVER_ERROR: u16 = 500;

/// Why an upload was refused.
#[derive(Debug, PartialEq, Eq)]
pub enum UploadError {
    /// The request body could not be read.
    BadBody { detail: String },
    /// More than [`MAX_UPLOAD`] bytes arrived.
    TooLarge,
    /// No bytes arrived.
    Empty,
    /// The server could not store the file.
    Internal { detail: String },
}

impl UploadError {
    /// The HTTP status that answers the upload.
    pub fn status(&self) -> (s: u16)
        ensures
            s == match self {
                UploadError::BadBody { .. } => STATUS_BAD_REQUEST,
                UploadError::TooLarge => STATUS_PAYLOAD_TOO_LARGE,
                UploadError::Empty => STATUS_BAD_REQUEST,
                UploadError::Internal { .. } => STATUS_INTERNAL_SERVER_ERROR,
            },
    {
        match self {
            UploadError::BadBody { .. } => STATUS_BAD_REQUEST,
            UploadError::TooLarge => STATUS_PAYLOAD_TOO_LARGE,
            UploadError::Empty => STATUS_BAD_REQUEST,
            UploadError::Internal { .. } => STATUS_INTERNAL_SERVER_ERROR,
        }
    }

    /// The text of the answer: the underlying error for a bad body or a
    /// storage failure, otherwise a fixed explanation.
    pub fn message(&self) -> (m: String)
        ensures
            m@ == match self {
                UploadError::BadBody { detail } => detail@,
                UploadError::TooLarge => "file too large"@,
                UploadError::Empty => "empty upload"@,
                UploadError::Internal { detail } => detail@,
            },
    {
        match self {
            UploadError::BadBody { detail } => detail.clone(),
            UploadError::TooLarge => String::from_str("file too large"),
            UploadError::Empty => String::from_str("empty upload"),
            UploadError::Internal { detail } => detail.clone(),
        }
    }
}

/// The running byte count of one upload.
#[derive(Debug)]
pub struct UploadTally {
    wrote: u64,
}

impl View for UploadTally {
    type V = nat;

    closed spec fn view(&self) -> nat {
        self.wrote as nat
    }
}

impl UploadTally {
    #[verifier::type_invariant]
    spec fn inv(self) -> bool {
        self.wrote <= MAX_UPLOAD
    }

    /// Nothing received yet.
    pub fn new() -> (t: UploadTally)
        ensures
            t@ == 0,
    {
        UploadTally { wrote: 0 }
    }

    /// The bytes accepted so far.
    pub fn wrote(&self) -> (n: u64)
        ensures
            n == self@,
            n <= MAX_UPLOAD,
    {
        proof {
            use_type_invariant(self);
        }
        self.wrote
    }

    /// Count a chunk of `len` bytes. The upload is refused as too large as
    /// soon as the total passes [`MAX_UPLOAD`]; otherwise the chunk is
    /// accepted and counted.
    pub fn add_chunk(&mut self, len: usize) -> (r: Result<(), UploadError>)
        ensures
            old(self)@ + len > MAX_UPLOAD ==> (r matches Err(UploadError::TooLarge)) && final(self)@
                == old(self)@,
            old(self)@ + len <= MAX_UPLOAD ==> r is Ok && final(self)@ == old(self)@ + len,
    {
        proof {
            use_type_invariant(&*self);
        }
        if (len as u64) > MAX_UPLOAD - self.wrote {
            Err(UploadError::TooLarge)
        } else {
            self.wrote = self.wrote + (len as u64);
            Ok(())
        }
    }

    /// The upload has ended: its size, unless nothing arrived.
    pub fn finish(&self) -> (r: Result<u64, UploadError>)
        ensures
            self@ == 0 ==> r matches Err(UploadError::Empty),
            self@ > 0 ==> r == Ok::<u64, UploadError>(self@ as u64),
    {
        proof {
            use_type_invariant(self);
        }
        if self.wrote == 0 {
            Err(UploadError::Empty)
        } else {
            Ok(self.wrote)
        }
    }
}

/// The file name of video `id` inside the media directory.
pub fn media_file_name(id: &str) -> (n: String)
    ensures
        n@ == id@ + ".mp4"@,
{
    String::from_str(id).concat(".mp4")
}

/// The temporary file that a faststart remux of video `id` writes.
pub fn faststart_temp_name(id: &str) -> (n: String)
    ensures
        n@ == id@ + ".fast.mp4"@,
{
    String::from_str(id).concat(".fast.mp4")
}

/// The name shown for an upload: the `x-filename` header when it was given
/// as text, otherwise the stored file's name.
pub fn upload_name(header: Option<String>, id: &str) -> (n: String)
    ensures
        header matches Some(h) ==> n@ == h@,
        header is None ==> n@ == id@ + ".mp4"@,
{
    match header {
        Some(h) => h,
        None => media_file_name(id),
    }
}

/// What to do with a faststart remux once ffmpeg has finished.
#[derive(Debug, Clone, Copy, PartialEq, Eq)]
pub enum FaststartStep {
    /// The remux succeeded: move it over the original.
    ReplaceOriginal,
    /// The remux failed (or ffmpeg is missing): delete the temporary file and
    /// keep the original untouched.
    DiscardRemux,
}

/// The step after a faststart remux that did or did not succeed.
pub fn faststart_step(remux_succeeded: bool) -> (s: FaststartStep)
    ensures
        remux_succeeded <==> s is ReplaceOriginal,
{
    if remux_succeeded {
        FaststartStep::ReplaceOriginal
    } else {
        FaststartStep::DiscardRemux
    }
}

/// The status that answers a delete: 204 when a row was removed, else 404.
pub fn delete_status(removed: bool) -> (s: u16)
    ensures
        s == if removed { STATUS_NO_CONTENT } else { STATUS_NOT_FOUND },
{
    if removed {
        STATUS_NO_CONTENT
    } else {
        STATUS_NOT_FOUND
    }
}

/// Whether a delete removed a row, from the count of changed rows (`None`
/// when the statement failed).
pub fn removed_any(changed: Option<usize>) -> (b: bool)
    ensures
        b == (changed matches Some(n) && n > 0),
{
    match changed {
        Some(n) => n > 0,
        None => false,
    }
}

/// The rows that could be read, in order.
pub open spec fn readable(rows: Seq<Option<Video>>) -> Seq<VideoView>
    decreases rows.len(),
{
    if rows.len() == 0 {
        Seq::empty()
    } else {
        let init = readable(rows.drop_last());
        match rows.last() {
            Some(v) => init.push(v@),
            None => init,
        }
    }
}

/// The library listing: the rows that could be read, in the order the
/// database returned them (newest first), skipping the rest.
pub fn readable_rows(rows: Vec<Option<Video>>) -> (vs: Vec<Video>)
    ensures
        vs@.map_values(|v: Video| v@) == readable(rows@),
{
    let mut vs: Vec<Video> = Vec::new();
    let n = rows.len();
    for i in 0..n
        invariant
            n == rows@.len(),
            vs@.map_values(|v: Video| v@) == readable(rows@.take(i as int)),
    {
        let ghost before = vs@;
        match &rows[i] {
            Some(v) => {
                vs.push(v.copied());
                assert(vs@.map_values(|v: Video| v@) =~= before.map_values(|v: Video| v@).push(
                    rows@[i as int]->0@,
                ));
            },
            None => {},
        }
        assert(rows@.take(i + 1).drop_last() =~= rows@.take(i as int));
    }
    assert(rows@.take(n as int) =~= rows@);
    vs
}

} // verus!
