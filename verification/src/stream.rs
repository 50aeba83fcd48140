//! Framing rules for the client-facing streams.
//!
//! A console-input stream and an upload stream both start with a
//! frame that selects their target and must carry no data; every
//! later frame must carry data only.  A frame that tries to reselect
//! the target is rejected.  These rules are enforced here, frame by
//! frame; the transport that carries the frames lives outside the
//! library.

use vstd::prelude::*;

verus! {

/// Why a stream frame was rejected.
#[derive(Debug, PartialEq, Eq, Structural)]
pub enum StreamError {
    /// The first frame of the stream did not select a target.
    NoTargetSelected,
    /// A later frame tried to select a target again.
    TargetAlreadySelected,
}

/// One frame of a console-input stream: either the selection of the
/// target console or a chunk of bytes for it.
pub enum ConsoleInputFrame {
    Console { console: u64 },
    Data { data: Vec<u8> },
}

/// Reads the selection out of the first frame of a console-input
/// stream; a first frame carrying data is rejected.
pub fn select_console(first: &ConsoleInputFrame) -> (r: Result<u64, StreamError>)
    ensures
        match *first {
            ConsoleInputFrame::Console { console } => r == Ok::<u64, StreamError>(console),
            ConsoleInputFrame::Data { .. } => r == Err::<u64, StreamError>(
                StreamError::NoTargetSelected,
            ),
        },
{
    match first {
        ConsoleInputFrame::Console { console } => Ok(*console),
        ConsoleInputFrame::Data { .. } => Err(StreamError::NoTargetSelected),
    }
}

/// Reads the byte chunk out of a later frame of a console-input
/// stream; a frame that tries to reselect the target is rejected.
pub fn console_data_frame(frame: ConsoleInputFrame) -> (r: Result<Vec<u8>, StreamError>)
    ensures
        match frame {
            ConsoleInputFrame::Data { data } => r is Ok && r.unwrap()@ == data@,
            ConsoleInputFrame::Console { .. } => r == Err::<Vec<u8>, StreamError>(
                StreamError::TargetAlreadySelected,
            ),
        },
{
    match frame {
        ConsoleInputFrame::Data { data } => Ok(data),
        ConsoleInputFrame::Console { .. } => Err(StreamError::TargetAlreadySelected),
    }
}

/// One frame of an upload stream: either the selection of an
/// uploader, a target name and the advisory total length, or a chunk
/// of payload bytes.
pub enum UploadFrame {
    Target { uploader: u64, target: String, length: u64 },
    Data { data: Vec<u8> },
}

/// An upload in progress: the selected uploader and target, the
/// advisory total length, and how many payload bytes the stream has
/// carried so far (saturating at the counter's limit).
pub struct UploadSession {
    pub uploader: u64,
    pub target: String,
    pub length: u64,
    pub received: u64,
}

/// Opens an upload from the first frame of the stream: the frame
/// must select an uploader and a target and carry no data.
pub fn open_upload(first: UploadFrame) -> (r: Result<UploadSession, StreamError>)
    ensures
        match first {
            UploadFrame::Target { uploader, target, length } => {
                &&& r is Ok
                &&& r.unwrap().uploader == uploader
                &&& r.unwrap().target@ == target@
                &&& r.unwrap().length == length
                &&& r.unwrap().received == 0
            },
            UploadFrame::Data { .. } => r == Err::<UploadSession, StreamError>(
                StreamError::NoTargetSelected,
            ),
        },
{
    match first {
        UploadFrame::Target { uploader, target, length } => Ok(
            UploadSession { uploader, target, length, received: 0 },
        ),
        UploadFrame::Data { .. } => Err(StreamError::NoTargetSelected),
    }
}

impl UploadSession {
    /// Accepts a later frame of the upload stream: a data frame
    /// yields its bytes and counts them; a frame that tries to
    /// reselect the target is rejected and changes nothing.
    pub fn accept_data(&mut self, frame: UploadFrame) -> (r: Result<Vec<u8>, StreamError>)
        ensures
            final(self).uploader == old(self).uploader,
            final(self).target == old(self).target,
            final(self).length == old(self).length,
            match frame {
                UploadFrame::Data { data } => {
                    &&& r is Ok
                    &&& r.unwrap()@ == data@
                    &&& final(self).received == if old(self).received + data@.len() <= u64::MAX {
                        old(self).received + data@.len()
                    } else {
                        u64::MAX as int
                    }
                },
                UploadFrame::Target { .. } => r == Err::<Vec<u8>, StreamError>(
                    StreamError::TargetAlreadySelected,
                ) && final(self).received == old(self).received,
            },
            final(self).received >= old(self).received,
    {
        match frame {
            UploadFrame::Data { data } => {
                self.received = self.received.saturating_add(data.len() as u64);
                Ok(data)
            },
            UploadFrame::Target { .. } => Err(StreamError::TargetAlreadySelected),
        }
    }
}

} // verus!
