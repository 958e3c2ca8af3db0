//! What every object has: its monitor; and the element types of arrays.

use vstd::prelude::*;

verus! {

/// The monitor of an object: a lock that the thread that holds it may take
/// again, and that it gives up when it has released it as often as it took
/// it.
#[derive(Debug, Clone, Copy, PartialEq, Eq, Structural)]
pub struct ObjectMonitor {
    /// The identifier of the thread that holds the monitor; of no meaning
    /// while `count` is 0.
    pub owner: usize,
    /// How often the owner has entered and not left.
    pub count: usize,
}

/// What entering a monitor does.
#[derive(Debug, Clone, Copy, PartialEq, Eq, Structural)]
pub enum Entered {
    /// The thread holds the monitor now.
    Acquired,
    /// Another thread holds the monitor: the thread has to wait and try
    /// again.
    Blocked,
}

/// The monitor was released by a thread that does not hold it.
#[derive(Debug, Clone, Copy, PartialEq, Eq, Structural)]
pub struct IllegalMonitorState;

impl ObjectMonitor {
    /// Whether no thread holds the monitor.
    pub open spec fn is_free(self) -> bool {
        self.count == 0
    }

    /// Whether this thread holds the monitor.
    pub open spec fn held_by(self, thread: usize) -> bool {
        self.count > 0 && self.owner == thread
    }

    /// A monitor that no thread holds.
    pub fn new() -> (monitor: Self)
        ensures
            monitor.is_free(),
            monitor == (ObjectMonitor { owner: 0, count: 0 }),
    {
        ObjectMonitor { owner: 0, count: 0 }
    }

    /// The thread takes the monitor if it is free or the thread's own, and
    /// is blocked if another thread holds it (or if the thread has taken it
    /// more often than can be counted).
    pub fn enter(&mut self, thread: usize) -> (entered: Entered)
        ensures
            old(self).is_free() ==> entered == Entered::Acquired && *final(self) == (ObjectMonitor {
                owner: thread,
                count: 1,
            }),
            old(self).held_by(thread) && old(self).count < usize::MAX ==> entered
                == Entered::Acquired && *final(self) == (ObjectMonitor {
                owner: thread,
                count: (old(self).count + 1) as usize,
            }),
            !old(self).is_free() && !(old(self).held_by(thread) && old(self).count < usize::MAX)
                ==> entered == Entered::Blocked && *final(self) == *old(self),
    {
        if self.count == 0 {
            self.owner = thread;
            self.count = 1;
            Entered::Acquired
        } else if self.owner == thread && self.count < usize::MAX {
            self.count = self.count + 1;
            Entered::Acquired
        } else {
            Entered::Blocked
        }
    }

    /// The thread releases the monitor once. A thread that does not hold
    /// the monitor cannot release it.
    pub fn exit(&mut self, thread: usize) -> (r: Result<(), IllegalMonitorState>)
        ensures
            old(self).held_by(thread) ==> r is Ok && *final(self) == (ObjectMonitor {
                owner: thread,
                count: (old(self).count - 1) as usize,
            }),
            !old(self).held_by(thread) ==> r is Err && *final(self) == *old(self),
    {
        if self.count > 0 && self.owner == thread {
            self.count = self.count - 1;
            Ok(())
        } else {
            Err(IllegalMonitorState)
        }
    }
}

/// The low `size` bytes of the number `bits`, which is not negative, the
/// lowest first.
pub open spec fn bytes_of(bits: int, size: int) -> Seq<u8>
    decreases size,
{
    if size <= 0 {
        Seq::empty()
    } else {
        seq![(bits % 256) as u8] + bytes_of(bits / 256, size - 1)
    }
}

/// The number whose little-endian bytes are `bytes`.
pub open spec fn bits_of(bytes: Seq<u8>) -> int
    decreases bytes.len(),
{
    if bytes.len() == 0 {
        0
    } else {
        bytes[0] + 256 * bits_of(bytes.drop_first())
    }
}

/// The number of values that `size` bytes can hold.
pub open spec fn range_of(size: int) -> int
    decreases size,
{
    if size <= 0 {
        1
    } else {
        256 * range_of(size - 1)
    }
}

/// Bytes written for a number and read back give the number, as far as the
/// bytes can hold it.
pub proof fn lemma_bytes_round_trip(bits: int, size: int)
    requires
        0 <= size,
        0 <= bits,
    ensures
        bytes_of(bits, size).len() == size,
        range_of(size) > 0,
        bits_of(bytes_of(bits, size)) == bits % range_of(size),
    decreases size,
{
    if size > 0 {
        lemma_bytes_round_trip(bits / 256, size - 1);
        let rest = bytes_of(bits / 256, size - 1);
        let all = bytes_of(bits, size);
        assert(all.drop_first() =~= rest);
        let r = range_of(size - 1);
        vstd::arithmetic::div_mod::lemma_mod_breakdown(bits, 256, r);
    }
}

/// The types of the elements of arrays. Each has a size in bytes, and an
/// element is kept as that many bytes, the lowest first.
pub trait ArrayType: Sized + Copy {
    /// The size of an element in bytes.
    spec fn size() -> nat;

    fn element_size() -> (size: usize)
        ensures
            size == Self::size(),
            1 <= size <= 8,
    ;
}

impl ArrayType for i8 {
    open spec fn size() -> nat {
        1
    }

    fn element_size() -> (size: usize) {
        1
    }
}

impl ArrayType for u16 {
    open spec fn size() -> nat {
        2
    }

    fn element_size() -> (size: usize) {
        2
    }
}

impl ArrayType for i16 {
    open spec fn size() -> nat {
        2
    }

    fn element_size() -> (size: usize) {
        2
    }
}

impl ArrayType for i32 {
    open spec fn size() -> nat {
        4
    }

    fn element_size() -> (size: usize) {
        4
    }
}

impl ArrayType for u32 {
    open spec fn size() -> nat {
        4
    }

    fn element_size() -> (size: usize) {
        4
    }
}

impl ArrayType for i64 {
    open spec fn size() -> nat {
        8
    }

    fn element_size() -> (size: usize) {
        8
    }
}

impl ArrayType for u64 {
    open spec fn size() -> nat {
        8
    }

    fn element_size() -> (size: usize) {
        8
    }
}

} // verus!
