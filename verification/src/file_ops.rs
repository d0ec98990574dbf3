//! Progress of a background transfer, as the worker records it and the screen reads it.

use vstd::prelude::*;

verus! {

/// Progress of a running transfer.
#[derive(Clone, Debug)]
pub struct ProgressState {
    pub current_file: String,
    pub bytes_done: u64,
    pub bytes_total: u64,
    pub files_done: usize,
    pub files_total: usize,
    pub finished: bool,
    pub cancelled: bool,
    pub error: Option<String>,
}

/// The progress of a transfer of `files_total` items that has not started.
pub open spec fn fresh_progress(p: ProgressState, files_total: usize) -> bool {
    &&& p.current_file@.len() == 0
    &&& p.bytes_done == 0
    &&& p.bytes_total == 0
    &&& p.files_done == 0
    &&& p.files_total == files_total
    &&& !p.finished
    &&& !p.cancelled
    &&& p.error is None
}

impl Default for ProgressState {
    fn default() -> (r: Self)
        ensures
            fresh_progress(r, 0),
    {
        ProgressState {
            current_file: String::new(),
            bytes_done: 0,
            bytes_total: 0,
            files_done: 0,
            files_total: 0,
            finished: false,
            cancelled: false,
            error: None,
        }
    }
}

impl ProgressState {
    /// The progress of a transfer of `files_total` items, before it starts.
    pub fn for_files(files_total: usize) -> (r: Self)
        ensures
            fresh_progress(r, files_total),
    {
        ProgressState {
            current_file: String::new(),
            bytes_done: 0,
            bytes_total: 0,
            files_done: 0,
            files_total,
            finished: false,
            cancelled: false,
            error: None,
        }
    }

    /// The size of everything to transfer is known.
    pub fn set_total(&mut self, bytes_total: u64)
        ensures
            *final(self) == (ProgressState { bytes_total, ..*old(self) }),
    {
        self.bytes_total = bytes_total;
    }

    /// The transfer moved on to the file `name`.
    pub fn start_file(&mut self, name: String)
        ensures
            *final(self) == (ProgressState { current_file: name, ..*old(self) }),
    {
        self.current_file = name;
    }

    /// `n` more bytes were written.
    pub fn add_bytes(&mut self, n: u64)
        requires
            old(self).bytes_done + n <= u64::MAX,
        ensures
            *final(self) == (ProgressState { bytes_done: (old(self).bytes_done + n) as u64, ..*old(self) }),
    {
        self.bytes_done = self.bytes_done + n;
    }

    /// The transfer stopped before its next item because cancelling was asked for.
    pub fn cancel_before_entry(&mut self)
        ensures
            *final(self) == (ProgressState { cancelled: true, finished: true, ..*old(self) }),
    {
        self.cancelled = true;
        self.finished = true;
    }

    /// Before the next item: where cancelling was asked for, the transfer stops
    /// there as cancelled (see `cancel_before_entry`) and the answer is not to go
    /// on; otherwise nothing changes and the item is transferred.
    pub fn before_entry(&mut self, cancel_requested: bool) -> (go_on: bool)
        ensures
            go_on == !cancel_requested,
            cancel_requested ==> *final(self) == (ProgressState { cancelled: true, finished: true, ..*old(self) }),
            !cancel_requested ==> *final(self) == *old(self),
    {
        if cancel_requested {
            self.cancel_before_entry();
            false
        } else {
            true
        }
    }

    /// Every item was transferred.
    pub fn complete(&mut self)
        ensures
            *final(self) == (ProgressState { finished: true, ..*old(self) }),
    {
        self.finished = true;
    }

    /// Records how the transfer of one item ended: a success counts the item as
    /// done; a failure ends the transfer, as cancelled when cancelling was asked
    /// for and otherwise with the failure's message. The answer is whether the
    /// transfer goes on with the next item: exactly after a success. An item counts
    /// as done only while fewer than all items are done, so the count never passes
    /// the total.
    pub fn record_entry(&mut self, cancel_requested: bool, outcome: Result<(), String>) -> (go_on: bool)
        requires
            outcome is Ok ==> old(self).files_done < old(self).files_total,
        ensures
            go_on == outcome is Ok,
            old(self).files_done <= old(self).files_total ==> final(self).files_done <= final(self).files_total,
            match outcome {
                Ok(()) => *final(self) == (ProgressState { files_done: (old(self).files_done + 1) as usize, ..*old(self) }),
                Err(msg) => if cancel_requested {
                    *final(self) == (ProgressState { cancelled: true, finished: true, ..*old(self) })
                } else {
                    *final(self) == (ProgressState { error: Some(msg), finished: true, ..*old(self) })
                },
            },
    {
        match outcome {
            Ok(()) => {
                self.files_done = self.files_done + 1;
                true
            },
            Err(msg) => {
                if cancel_requested {
                    self.cancelled = true;
                } else {
                    self.error = Some(msg);
                }
                self.finished = true;
                false
            },
        }
    }
}

} // verus!
