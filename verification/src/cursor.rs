//! A fixed number of bytes in memory, read and written at a position.

use crate::io::{InvalidSeek, SeekFrom};
use crate::read_buf;
use tokio::io::ReadBuf;
use vstd::prelude::*;
use vstd::slice::slice_subrange;

verus! {

/// Bytes in memory with a position, which may lie past their end. Reading and writing
/// move the position along; nothing makes the bytes more or fewer.
#[derive(Debug, Clone)]
pub struct Cursor {
    bytes: Vec<u8>,
    pos: u64,
}

/// What a [`Cursor`] holds.
#[verifier::ext_equal]
pub struct CursorState {
    /// The bytes.
    pub bytes: Seq<u8>,
    /// The position of the next byte to read or write.
    pub pos: int,
}

impl CursorState {
    /// How many bytes lie between the position and the end.
    pub open spec fn available(self) -> int {
        if self.pos < self.bytes.len() {
            self.bytes.len() - self.pos
        } else {
            0
        }
    }

    /// How many bytes one transfer of at most `want` bytes moves.
    pub open spec fn transfer_len(self, want: int) -> int {
        crate::io::smaller(self.available(), want)
    }

    /// The next `n` bytes.
    pub open spec fn upcoming(self, n: int) -> Seq<u8> {
        if n == 0 {
            Seq::empty()
        } else {
            self.bytes.subrange(self.pos, self.pos + n)
        }
    }

    /// The state with the position `n` bytes further on.
    pub open spec fn advanced(self, n: int) -> Self {
        CursorState { bytes: self.bytes, pos: self.pos + n }
    }

    /// The state after `data` was put over the bytes at the position, which has moved
    /// past it.
    pub open spec fn overwritten(self, data: Seq<u8>) -> Self {
        CursorState {
            bytes: Seq::new(
                self.bytes.len(),
                |i: int|
                    if self.pos <= i < self.pos + data.len() {
                        data[i - self.pos]
                    } else {
                        self.bytes[i]
                    },
            ),
            pos: self.pos + data.len(),
        }
    }

    /// The position that a seek asks for, which need not be one that a cursor can have.
    pub open spec fn seek_target(self, op: SeekFrom) -> int {
        match op {
            SeekFrom::Start(n) => n as int,
            SeekFrom::End(n) => self.bytes.len() + n,
            SeekFrom::Current(n) => self.pos + n,
        }
    }

    /// Whether a seek goes to a position that a cursor can have.
    pub open spec fn seek_valid(self, op: SeekFrom) -> bool {
        0 <= self.seek_target(op) <= u64::MAX
    }

    /// What a seek returns: the new position, unless the seek is not valid.
    pub open spec fn seek_result(self, op: SeekFrom) -> Result<u64, InvalidSeek> {
        if self.seek_valid(op) {
            Ok(self.seek_target(op) as u64)
        } else {
            Err(InvalidSeek)
        }
    }

    /// The state after a seek: moved if the seek is valid, else as before.
    pub open spec fn sought(self, op: SeekFrom) -> Self {
        if self.seek_valid(op) {
            CursorState { bytes: self.bytes, pos: self.seek_target(op) }
        } else {
            self
        }
    }
}

impl View for Cursor {
    type V = CursorState;

    closed spec fn view(&self) -> CursorState {
        CursorState { bytes: self.bytes@, pos: self.pos as int }
    }
}

impl Cursor {
    /// The position and the number of bytes are what a machine can hold.
    pub proof fn lemma_ranges(&self)
        ensures
            0 <= self@.pos <= u64::MAX,
            self@.bytes.len() <= usize::MAX,
    {
        assert(self.bytes.len() == self.bytes@.len());
    }

    /// A cursor at the start of `bytes`.
    pub fn new(bytes: Vec<u8>) -> (r: Self)
        ensures
            r@ == (CursorState { bytes: bytes@, pos: 0 }),
    {
        Cursor { bytes, pos: 0 }
    }

    /// The bytes.
    pub fn get_ref(&self) -> (r: &Vec<u8>)
        ensures
            r@ == self@.bytes,
    {
        &self.bytes
    }

    /// The bytes, without the position.
    pub fn into_inner(self) -> (r: Vec<u8>)
        ensures
            r@ == self@.bytes,
    {
        self.bytes
    }

    /// The position.
    pub fn position(&self) -> (r: u64)
        ensures
            r == self@.pos,
    {
        self.pos
    }

    /// Copies the bytes at the position to the front of `buf`, as many as there are and
    /// fit, moves past them, and returns their number.
    pub fn read(&mut self, buf: &mut [u8]) -> (n: usize)
        ensures
            n == old(self)@.transfer_len(old(buf)@.len() as int),
            final(self)@ == old(self)@.advanced(n as int),
            final(buf)@ == old(self)@.upcoming(n as int) + old(buf)@.skip(n as int),
            ({
                let left = old(self)@.bytes.len() - old(self)@.pos;
                n == if left <= 0 {
                    0
                } else if left < old(buf)@.len() {
                    left
                } else {
                    old(buf)@.len() as int
                }
            }),
            final(self)@.bytes == old(self)@.bytes,
            final(self)@.pos == old(self)@.pos + n,
            final(buf)@.len() == old(buf)@.len(),
            forall|i: int|
                0 <= i < final(buf)@.len() ==> #[trigger] final(buf)@[i] == if i < n {
                    old(self)@.bytes[old(self)@.pos + i]
                } else {
                    old(buf)@[i]
                },
    {
        let available: usize = self.available();
        let n: usize = if available <= buf.len() { available } else { buf.len() };
        if n == 0 {
            assert(buf@ =~= self@.upcoming(0) + buf@.skip(0));
            return 0;
        }
        let start: usize = self.pos as usize;
        let mut i: usize = 0;
        while i < n
            invariant
                n <= buf@.len(),
                start + n <= self.bytes.len(),
                i <= n,
                buf@.len() == old(buf)@.len(),
                *self == *old(self),
                buf@ =~= self.bytes@.subrange(start as int, start + i) + old(buf)@.skip(i as int),
            decreases n - i,
        {
            buf[i] = self.bytes[start + i];
            i = i + 1;
        }
        self.pos = self.pos + n as u64;
        n
    }

    /// Appends the bytes at the position to `buf`, as many as there are and fit, and moves
    /// past them.
    pub fn read_into(&mut self, buf: &mut ReadBuf<'_>) -> (n: usize)
        ensures
            n == old(self)@.transfer_len(
                read_buf::capacity(*old(buf)) - read_buf::filled(*old(buf)).len(),
            ),
            final(self)@ == old(self)@.advanced(n as int),
            ({
                let left = old(self)@.bytes.len() - old(self)@.pos;
                let room = read_buf::capacity(*old(buf)) - read_buf::filled(*old(buf)).len();
                n == if left <= 0 {
                    0
                } else if left < room {
                    left
                } else {
                    room
                }
            }),
            final(self)@.bytes == old(self)@.bytes,
            final(self)@.pos == old(self)@.pos + n,
            read_buf::filled(*final(buf)).len() == read_buf::filled(*old(buf)).len() + n,
            forall|i: int|
                read_buf::filled(*old(buf)).len() <= i < read_buf::filled(*final(buf)).len()
                    ==> #[trigger] read_buf::filled(*final(buf))[i] == old(self)@.bytes[old(self)@.pos
                    + i - read_buf::filled(*old(buf)).len()],
            n == 0 ==> *final(buf) == *old(buf),
            n > 0 ==> {
                &&& read_buf::filled(*final(buf)) == read_buf::filled(*old(buf))
                    + old(self)@.upcoming(n as int)
                &&& read_buf::capacity(*final(buf)) == read_buf::capacity(*old(buf))
                &&& read_buf::initialized(*final(buf)) == read_buf::front_replaced(
                    read_buf::initialized(*old(buf)),
                    read_buf::filled(*final(buf)),
                )
            },
    {
        let available: usize = self.available();
        let room: usize = read_buf::remaining(buf);
        let n: usize = if available <= room {
            available
        } else {
            room
        };
        if n == 0 {
            return 0;
        }
        let start: usize = self.pos as usize;
        read_buf::put(buf, slice_subrange(self.bytes.as_slice(), start, start + n));
        self.pos = self.pos + n as u64;
        n
    }

    /// Copies the front of `data` over the bytes at the position, as much as there is
    /// room for, moves past it, and returns its length.
    pub fn write(&mut self, data: &[u8]) -> (n: usize)
        ensures
            n == old(self)@.transfer_len(data@.len() as int),
            final(self)@ == old(self)@.overwritten(data@.take(n as int)),
            ({
                let left = old(self)@.bytes.len() - old(self)@.pos;
                n == if left <= 0 {
                    0
                } else if left < data@.len() {
                    left
                } else {
                    data@.len() as int
                }
            }),
            final(self)@.pos == old(self)@.pos + n,
            final(self)@.bytes.len() == old(self)@.bytes.len(),
            forall|j: int|
                0 <= j < final(self)@.bytes.len() ==> #[trigger] final(self)@.bytes[j] == if old(
                    self,
                )@.pos <= j < old(self)@.pos + n {
                    data@[j - old(self)@.pos]
                } else {
                    old(self)@.bytes[j]
                },
    {
        let available: usize = self.available();
        let n: usize = if available <= data.len() { available } else { data.len() };
        if n == 0 {
            assert(self@.overwritten(data@.take(0)).bytes =~= self@.bytes);
            return 0;
        }
        let start: usize = self.pos as usize;
        let mut i: usize = 0;
        while i < n
            invariant
                n <= data@.len(),
                start + n <= self.bytes.len(),
                i <= n,
                start == old(self).pos,
                self.pos == old(self).pos,
                self.bytes@ =~= old(self)@.overwritten(data@.take(i as int)).bytes,
            decreases n - i,
        {
            self.bytes[start + i] = data[i];
            i = i + 1;
        }
        self.pos = self.pos + n as u64;
        n
    }

    /// Moves the position and returns it, unless it would become negative or too large.
    pub fn seek(&mut self, op: SeekFrom) -> (r: Result<u64, InvalidSeek>)
        ensures
            final(self)@ == old(self)@.sought(op),
            r == old(self)@.seek_result(op),
            final(self)@.bytes == old(self)@.bytes,
            ({
                let to = match op {
                    SeekFrom::Start(n) => n as int,
                    SeekFrom::End(n) => old(self)@.bytes.len() + n,
                    SeekFrom::Current(n) => old(self)@.pos + n,
                };
                match r {
                    Ok(pos) => pos == to && final(self)@.pos == to,
                    Err(_) => !(0 <= to <= u64::MAX) && final(self)@.pos == old(self)@.pos,
                }
            }),
    {
        let target: Option<u64> = match op {
            SeekFrom::Start(n) => Some(n),
            SeekFrom::End(n) => (self.bytes.len() as u64).checked_add_signed(n),
            SeekFrom::Current(n) => self.pos.checked_add_signed(n),
        };
        match target {
            Some(p) => {
                self.pos = p;
                Ok(p)
            },
            None => Err(InvalidSeek),
        }
    }

    /// How many bytes lie between the position and the end.
    fn available(&self) -> (n: usize)
        ensures
            n == self@.available(),
            n > 0 ==> self.pos + n == self.bytes.len(),
    {
        let len: usize = self.bytes.len();
        if self.pos < len as u64 {
            len - self.pos as usize
        } else {
            0
        }
    }
}

} // verus!
