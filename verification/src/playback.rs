//! Playing the output of programs: which output is queued, and which part
//! of it goes to the audio device next.

use vstd::prelude::*;

verus! {

/// Remembers which program's output was queued last.
pub struct Queued {
    pub current: Option<usize>,
}

/// A stretch of an output that goes to the audio device, and the index
/// from which the next one starts; none where the output is done.
#[derive(Clone, Copy, Debug, PartialEq, Eq, Structural)]
pub struct Chunk {
    pub from: usize,
    pub to: usize,
    pub next: Option<usize>,
}

impl Queued {
    /// Nothing is queued.
    pub fn new() -> (queued: Queued)
        ensures
            queued.current is None,
    {
        Queued { current: None }
    }

    /// Notes that the output of the program at `index` is wanted, and says
    /// whether it has to be sent: it has, unless it was queued last.
    pub fn select(&mut self, index: usize) -> (send: bool)
        ensures
            send == (old(self).current != Some(index)),
            final(self).current == Some(index),
    {
        let send = match self.current {
            Some(current) => current != index,
            None => true,
        };
        self.current = Some(index);
        send
    }
}

/// The chunk that starts at `index` in an output of `len` bytes. It holds
/// `size` bytes at most and never the last byte of the output. The output
/// is done when the next chunk would start behind its end.
pub open spec fn chunk_at(len: nat, index: nat, size: nat) -> Chunk {
    Chunk {
        from: index as usize,
        to: (if index + size < len - 1 {
            (index + size) as int
        } else {
            len - 1
        }) as usize,
        next: if index + size >= len {
            None
        } else {
            Some((index + size) as usize)
        },
    }
}

/// Cuts the next chunk from an output.
pub fn next_chunk(len: usize, index: usize, size: usize) -> (chunk: Chunk)
    requires
        index < len,
    ensures
        chunk == chunk_at(len as nat, index as nat, size as nat),
        chunk.from <= chunk.to < len,
{
    let to = if size < len - 1 - index {
        index + size
    } else {
        len - 1
    };
    let next = if size >= len - index {
        None
    } else {
        Some(index + size)
    };
    Chunk { from: index, to, next }
}

} // verus!
