//! The bookkeeping of a storage run: two phases of half the duration each,
//! and a cursor that runs through a file of fixed size in chunks.
use crate::log_rows::StorageOp;
use vstd::prelude::*;

verus! {

/// The size of the temporary file a storage run writes and reads, in bytes:
/// 512 megabytes.
pub const FILE_SIZE: u64 = 536_870_912;

/// The bytes in a megabyte.
pub const BYTES_PER_MB: u64 = 1_048_576;

/// The seconds each of the two phases of a storage run lasts: half the
/// run's duration, and one second at least.
pub open spec fn phase_secs_of(duration_secs: u32) -> u64 {
    if duration_secs / 2 >= 1 {
        (duration_secs / 2) as u64
    } else {
        1
    }
}

/// The seconds each of the two phases of a storage run lasts.
pub fn phase_secs(duration_secs: u32) -> (secs: u64)
    ensures
        secs == phase_secs_of(duration_secs),
{
    let half = duration_secs / 2;
    if half >= 1 {
        half as u64
    } else {
        1
    }
}

/// The size in bytes of a buffer of `buffer_mb` megabytes.
pub fn buffer_bytes(buffer_mb: u32) -> (bytes: u64)
    ensures
        bytes == buffer_mb * BYTES_PER_MB,
{
    (buffer_mb as u64) * BYTES_PER_MB
}

/// The phase that follows `phase`, if any. The read phase follows the write
/// phase unless a stop was requested; nothing follows the read phase.
pub open spec fn phase_after(phase: StorageOp, stop_requested: bool) -> Option<StorageOp> {
    match phase {
        StorageOp::Write => if stop_requested {
            None
        } else {
            Some(StorageOp::Read)
        },
        StorageOp::Read => None,
    }
}

/// Decides the phase that follows `phase`, if any.
pub fn next_phase(phase: StorageOp, stop_requested: bool) -> (next: Option<StorageOp>)
    ensures
        next == phase_after(phase, stop_requested),
{
    match phase {
        StorageOp::Write => if stop_requested {
            None
        } else {
            Some(StorageOp::Read)
        },
        StorageOp::Read => None,
    }
}

/// What a phase's bookkeeping holds, as plain values.
pub struct TransferView {
    /// Where in the file the next chunk goes.
    pub position: u64,
    /// Where in the file the current sampling window began.
    pub window_start: u64,
    /// The bytes moved since the phase began.
    pub total: u64,
}

/// The bookkeeping of one phase of a storage run: a cursor that runs through
/// the file and starts over at its end, the start of the current sampling
/// window, and the bytes moved in all.
pub struct Transfer {
    position: u64,
    window_start: u64,
    total: u64,
}

impl View for Transfer {
    type V = TransferView;

    closed spec fn view(&self) -> TransferView {
        TransferView {
            position: self.position,
            window_start: self.window_start,
            total: self.total,
        }
    }
}

impl TransferView {
    /// The window began at or before the cursor, which lies within the file.
    pub open spec fn valid(self) -> bool {
        self.window_start <= self.position < FILE_SIZE
    }

    /// The size of the next chunk for a buffer of `buffer_size` bytes: the
    /// whole buffer, or what is left of the file where that is less.
    pub open spec fn chunk(self, buffer_size: u64) -> u64 {
        if buffer_size < FILE_SIZE - self.position {
            buffer_size
        } else {
            (FILE_SIZE - self.position) as u64
        }
    }

    /// The bookkeeping after a chunk of `n` bytes: the cursor moves on and the
    /// total grows; at the end of the file the cursor and the window start
    /// over.
    pub open spec fn moved(self, n: u64) -> TransferView {
        if self.position + n >= FILE_SIZE {
            TransferView { position: 0, window_start: 0, total: (self.total + n) as u64 }
        } else {
            TransferView {
                position: (self.position + n) as u64,
                total: (self.total + n) as u64,
                ..self
            }
        }
    }
}

impl Transfer {
    /// The bookkeeping is consistent.
    pub open spec fn wf(&self) -> bool {
        self@.valid()
    }

    /// The bookkeeping at the beginning of a phase.
    pub fn new() -> (t: Self)
        ensures
            t.wf(),
            t@ == (TransferView { position: 0, window_start: 0, total: 0 }),
    {
        Transfer { position: 0, window_start: 0, total: 0 }
    }

    /// The bytes moved since the phase began.
    pub fn total(&self) -> (n: u64)
        ensures
            n == self@.total,
    {
        self.total
    }

    /// The size of the next chunk for a buffer of `buffer_size` bytes.
    pub fn next_chunk(&self, buffer_size: u64) -> (n: u64)
        requires
            self.wf(),
        ensures
            n == self@.chunk(buffer_size),
            n <= buffer_size,
            self@.position + n <= FILE_SIZE,
    {
        let left = FILE_SIZE - self.position;
        if buffer_size < left {
            buffer_size
        } else {
            left
        }
    }

    /// Records a chunk of `n` bytes. Gives whether the cursor started over at
    /// the end of the file. Turned down with `None`, and nothing changes,
    /// where the chunk would run past the end of the file or the total would
    /// no longer fit.
    pub fn advance(&mut self, n: u64) -> (wrapped: Option<bool>)
        requires
            old(self).wf(),
        ensures
            final(self).wf(),
            wrapped is Some <==> (old(self)@.position + n <= FILE_SIZE && old(self)@.total + n
                <= u64::MAX),
            wrapped is None ==> final(self)@ == old(self)@,
            wrapped matches Some(w) ==> final(self)@ == old(self)@.moved(n) && w == (old(
                self,
            )@.position + n >= FILE_SIZE),
    {
        if n > FILE_SIZE - self.position || n > u64::MAX - self.total {
            return None;
        }
        self.position = self.position + n;
        self.total = self.total + n;
        if self.position >= FILE_SIZE {
            self.position = 0;
            self.window_start = 0;
            Some(true)
        } else {
            Some(false)
        }
    }

    /// Closes the current sampling window: gives the bytes by which the
    /// cursor moved since the window began, and begins the next window at the
    /// cursor.
    pub fn take_window(&mut self) -> (bytes: u64)
        requires
            old(self).wf(),
        ensures
            final(self).wf(),
            bytes == old(self)@.position - old(self)@.window_start,
            final(self)@ == (TransferView { window_start: old(self)@.position, ..old(self)@ }),
    {
        let bytes = self.position - self.window_start;
        self.window_start = self.position;
        bytes
    }
}

} // verus!
