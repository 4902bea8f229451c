//! A guest's linear memory: bytes addressed by 32-bit offsets, in which every
//! integer is little-endian and no alignment is asked for. An access that does
//! not lie wholly inside the memory is refused and leaves the memory as it was.

use vstd::prelude::*;

verus! {

/// The range of an access does not lie inside the memory.
#[derive(Debug, Clone, Copy, PartialEq, Eq, Structural)]
pub struct OutOfBounds;

/// The `len` bytes at `at` lie inside a memory of `size` bytes.
pub open spec fn in_bounds(size: nat, at: int, len: int) -> bool {
    0 <= at && 0 <= len && at + len <= size
}

/// The little-endian integer in the four bytes of `mem` at `at`.
pub open spec fn u32_at(mem: Seq<u8>, at: int) -> u32 {
    (mem[at] + 0x100 * mem[at + 1] + 0x1_0000 * mem[at + 2] + 0x100_0000 * mem[at + 3]) as u32
}

/// The four little-endian bytes of `value`.
pub open spec fn u32_bytes(value: u32) -> Seq<u8> {
    seq![
        (value % 0x100) as u8,
        (value / 0x100 % 0x100) as u8,
        (value / 0x1_0000 % 0x100) as u8,
        (value / 0x100_0000) as u8,
    ]
}

/// The little-endian bytes of `values`, one after the other.
pub open spec fn u32s_bytes(values: Seq<u32>) -> Seq<u8> {
    Seq::new(4 * values.len(), |i: int| u32_bytes(values[i / 4])[i % 4])
}

/// `mem` with `bytes` written over it at `at`.
pub open spec fn splice(mem: Seq<u8>, at: int, bytes: Seq<u8>) -> Seq<u8> {
    Seq::new(mem.len(), |i: int| if at <= i < at + bytes.len() { bytes[i - at] } else { mem[i] })
}

/// What a read of `len` bytes at `at` gives.
pub open spec fn bytes_read(mem: Seq<u8>, at: u32, len: u32) -> Option<Seq<u8>> {
    if in_bounds(mem.len(), at as int, len as int) {
        Some(mem.subrange(at as int, at + len))
    } else {
        None
    }
}

/// What a read of `len` integers at `at` gives.
pub open spec fn u32s_read(mem: Seq<u8>, at: u32, len: u32) -> Option<Seq<u32>> {
    if in_bounds(mem.len(), at as int, 4 * len) {
        Some(Seq::new(len as nat, |i: int| u32_at(mem, at + 4 * i)))
    } else {
        None
    }
}

/// What a write of `bytes` at `at` makes of the memory.
pub open spec fn bytes_written(mem: Seq<u8>, at: u32, bytes: Seq<u8>) -> Option<Seq<u8>> {
    if in_bounds(mem.len(), at as int, bytes.len() as int) {
        Some(splice(mem, at as int, bytes))
    } else {
        None
    }
}

/// What a write of the integer `value` at `at` makes of the memory.
pub open spec fn u32_written(mem: Seq<u8>, at: u32, value: u32) -> Option<Seq<u8>> {
    bytes_written(mem, at, u32_bytes(value))
}

/// The offset that a guest passes as a signed 32-bit integer.
pub open spec fn offset_of(ptr: i32) -> u32 {
    (if ptr < 0 {
        ptr + 0x1_0000_0000
    } else {
        ptr as int
    }) as u32
}

/// Reads a guest's signed 32-bit integer as an unsigned one.
pub fn guest_offset(ptr: i32) -> (at: u32)
    ensures
        at == offset_of(ptr),
{
    if ptr < 0 {
        (ptr as i64 + 0x1_0000_0000) as u32
    } else {
        ptr as u32
    }
}

/// Appends the four little-endian bytes of `value`.
pub fn push_u32(bytes: &mut Vec<u8>, value: u32)
    ensures
        final(bytes)@ == old(bytes)@ + u32_bytes(value),
{
    bytes.push((value % 0x100) as u8);
    bytes.push((value / 0x100 % 0x100) as u8);
    bytes.push((value / 0x1_0000 % 0x100) as u8);
    bytes.push((value / 0x100_0000) as u8);
}

/// A guest's linear memory.
#[derive(Debug)]
pub struct GuestMemory {
    bytes: Vec<u8>,
}

impl View for GuestMemory {
    type V = Seq<u8>;

    closed spec fn view(&self) -> Seq<u8> {
        self.bytes@
    }
}

impl GuestMemory {
    /// A memory that holds `bytes`.
    pub fn new(bytes: Vec<u8>) -> (memory: GuestMemory)
        ensures
            memory@ == bytes@,
    {
        GuestMemory { bytes }
    }

    /// The bytes of the memory.
    pub fn into_bytes(self) -> (bytes: Vec<u8>)
        ensures
            bytes@ == self@,
    {
        self.bytes
    }

    /// The number of bytes.
    pub fn size(&self) -> (size: usize)
        ensures
            size == self@.len(),
    {
        self.bytes.len()
    }

    /// Whether the `len` bytes at `at` lie inside the memory.
    pub(crate) fn contains(&self, at: u64, len: u64) -> (inside: bool)
        requires
            at <= u32::MAX,
            len <= 20 * u32::MAX,
        ensures
            inside == in_bounds(self@.len(), at as int, len as int),
    {
        at + len <= self.bytes.len() as u64
    }

    /// The integer in the four bytes at `at`, which lie inside the memory.
    pub(crate) fn u32_inside(&self, at: usize) -> (value: u32)
        requires
            at + 4 <= self@.len(),
        ensures
            value == u32_at(self@, at as int),
    {
        assert(self@.len() == self.bytes.len());
        self.bytes[at] as u32 + 0x100 * self.bytes[at + 1] as u32 + 0x1_0000 * self.bytes[at
            + 2] as u32 + 0x100_0000 * self.bytes[at + 3] as u32
    }

    /// The byte at `at`, which lies inside the memory.
    pub(crate) fn byte_inside(&self, at: usize) -> (value: u8)
        requires
            at < self@.len(),
        ensures
            value == self@[at as int],
    {
        self.bytes[at]
    }

    /// Reads the `len` bytes at `at`.
    pub fn read_bytes(&self, at: u32, len: u32) -> (result: Result<Vec<u8>, OutOfBounds>)
        ensures
            match result {
                Ok(bytes) => bytes_read(self@, at, len) == Some(bytes@),
                Err(_) => bytes_read(self@, at, len) is None,
            },
    {
        if !self.contains(at as u64, len as u64) {
            return Err(OutOfBounds);
        }
        let size: usize = self.bytes.len();
        let mut bytes: Vec<u8> = Vec::with_capacity(len as usize);
        let mut i: usize = 0;
        while i < len as usize
            invariant
                i <= len,
                size == self@.len(),
                in_bounds(self@.len(), at as int, len as int),
                bytes@ == self@.subrange(at as int, at + i),
            decreases len - i,
        {
            bytes.push(self.bytes[at as usize + i]);
            i += 1;
        }
        Ok(bytes)
    }

    /// Reads the integer at `at`.
    pub fn read_u32(&self, at: u32) -> (result: Result<u32, OutOfBounds>)
        ensures
            match result {
                Ok(value) => in_bounds(self@.len(), at as int, 4) && value == u32_at(self@, at as int),
                Err(_) => !in_bounds(self@.len(), at as int, 4),
            },
    {
        if !self.contains(at as u64, 4) {
            return Err(OutOfBounds);
        }
        Ok(self.u32_inside(at as usize))
    }

    /// Reads the `len` integers that lie one after the other at `at`.
    pub fn read_u32s(&self, at: u32, len: u32) -> (result: Result<Vec<u32>, OutOfBounds>)
        ensures
            match result {
                Ok(values) => u32s_read(self@, at, len) == Some(values@),
                Err(_) => u32s_read(self@, at, len) is None,
            },
    {
        if !self.contains(at as u64, 4 * len as u64) {
            return Err(OutOfBounds);
        }
        let size: usize = self.bytes.len();
        let mut values: Vec<u32> = Vec::with_capacity(len as usize);
        let mut i: usize = 0;
        while i < len as usize
            invariant
                i <= len,
                in_bounds(self@.len(), at as int, 4 * len),
                size == self@.len(),
                values@ == Seq::new(i as nat, |j: int| u32_at(self@, at + 4 * j)),
            decreases len - i,
        {
            values.push(self.u32_inside(at as usize + 4 * i));
            i += 1;
        }
        Ok(values)
    }

    /// Writes `bytes` at `at`.
    pub fn write_bytes(&mut self, at: u32, bytes: &[u8]) -> (result: Result<(), OutOfBounds>)
        ensures
            match result {
                Ok(()) => bytes_written(old(self)@, at, bytes@) == Some(final(self)@),
                Err(_) => bytes_written(old(self)@, at, bytes@) is None && final(self)@ == old(self)@,
            },
    {
        if bytes.len() > self.bytes.len() || at as usize > self.bytes.len() - bytes.len() {
            return Err(OutOfBounds);
        }
        let size: usize = self.bytes.len();
        let ghost before = self@;
        let mut i: usize = 0;
        while i < bytes.len()
            invariant
                i <= bytes.len(),
                before == old(self)@,
                size == before.len(),
                in_bounds(before.len(), at as int, bytes@.len() as int),
                self@ == splice(before, at as int, bytes@.subrange(0, i as int)),
            decreases bytes.len() - i,
        {
            self.bytes.set(at as usize + i, bytes[i]);
            i += 1;
        }
        assert(bytes@.subrange(0, i as int) == bytes@);
        Ok(())
    }

    /// Writes the integer `value` at `at`.
    pub fn write_u32(&mut self, at: u32, value: u32) -> (result: Result<(), OutOfBounds>)
        ensures
            match result {
                Ok(()) => u32_written(old(self)@, at, value) == Some(final(self)@),
                Err(_) => u32_written(old(self)@, at, value) is None && final(self)@ == old(self)@,
            },
    {
        let mut bytes: Vec<u8> = Vec::with_capacity(4);
        push_u32(&mut bytes, value);
        assert(bytes@ == u32_bytes(value));
        self.write_bytes(at, bytes.as_slice())
    }
}

/// A write that succeeds puts its bytes where they were asked for, leaves every
/// other byte alone, and does not change the size of the memory.
pub proof fn law_write_is_local(mem: Seq<u8>, at: u32, bytes: Seq<u8>)
    requires
        bytes_written(mem, at, bytes) is Some,
    ensures
        bytes_written(mem, at, bytes)->0.len() == mem.len(),
        bytes_written(mem, at, bytes)->0.subrange(at as int, at + bytes.len()) == bytes,
        forall|i: int|
            0 <= i < mem.len() && !(at <= i < at + bytes.len()) ==> bytes_written(mem, at, bytes)->0[i]
                == mem[i],
{
}

/// A read gives back what a write wrote.
pub proof fn law_read_after_write(mem: Seq<u8>, at: u32, bytes: Seq<u8>)
    requires
        bytes.len() <= u32::MAX,
        bytes_written(mem, at, bytes) is Some,
    ensures
        bytes_read(bytes_written(mem, at, bytes)->0, at, bytes.len() as u32) == Some(bytes),
{
    law_write_is_local(mem, at, bytes);
}

/// The bytes of an integer read back as that integer.
pub proof fn lemma_u32_of_bytes(mem: Seq<u8>, at: int, value: u32)
    requires
        mem[at] == u32_bytes(value)[0],
        mem[at + 1] == u32_bytes(value)[1],
        mem[at + 2] == u32_bytes(value)[2],
        mem[at + 3] == u32_bytes(value)[3],
    ensures
        u32_at(mem, at) == value,
{
}

/// The bytes of the integer at an offset are the four bytes there.
pub proof fn lemma_bytes_of_u32(mem: Seq<u8>, at: int)
    ensures
        u32_bytes(u32_at(mem, at)) == seq![mem[at], mem[at + 1], mem[at + 2], mem[at + 3]],
{
    let (a, b, c, d) = (mem[at] as int, mem[at + 1] as int, mem[at + 2] as int, mem[at + 3] as int);
    let value = u32_at(mem, at);
    assert(value == a + 0x100 * b + 0x1_0000 * c + 0x100_0000 * d);
    assert(value % 0x100 == a);
    assert(value / 0x100 == b + 0x100 * c + 0x1_0000 * d);
    assert(value / 0x1_0000 == c + 0x100 * d);
    assert(value / 0x100_0000 == d);
}

/// The integer at an offset is the one that was last written there.
pub proof fn law_u32_read_after_write(mem: Seq<u8>, at: u32, value: u32)
    requires
        u32_written(mem, at, value) is Some,
    ensures
        u32_at(u32_written(mem, at, value)->0, at as int) == value,
{
    lemma_u32_of_bytes(u32_written(mem, at, value)->0, at as int, value);
}

/// The bytes of an integer in memory are its digits to the base 256, the lowest
/// first.
pub proof fn law_integers_are_little_endian(mem: Seq<u8>, at: int)
    ensures
        u32_at(mem, at) % 0x100 == mem[at],
        u32_at(mem, at) / 0x100 % 0x100 == mem[at + 1],
        u32_at(mem, at) / 0x1_0000 % 0x100 == mem[at + 2],
        u32_at(mem, at) / 0x100_0000 == mem[at + 3],
{
    let (a, b, c, d) = (mem[at] as int, mem[at + 1] as int, mem[at + 2] as int, mem[at + 3] as int);
    let value = u32_at(mem, at);
    assert(value == a + 0x100 * b + 0x1_0000 * c + 0x100_0000 * d);
    assert(value / 0x100 == b + 0x100 * c + 0x1_0000 * d);
    assert(value / 0x1_0000 == c + 0x100 * d);
}

/// A memory is made of the bytes that it was given and hands them out again.
pub proof fn law_a_memory_holds_its_bytes(given: Vec<u8>, memory: GuestMemory, size: usize, taken: Vec<u8>)
    requires
        call_ensures(GuestMemory::new, (given,), memory),
        call_ensures(GuestMemory::size, (&memory,), size),
        call_ensures(GuestMemory::into_bytes, (memory,), taken),
    ensures
        size == given@.len(),
        taken@ == given@,
{
}

/// A read of bytes succeeds exactly where all of them lie inside the memory, and
/// gives each of them in its place.
pub proof fn law_bytes_are_read_in_place(
    memory: &GuestMemory,
    at: u32,
    len: u32,
    result: Result<Vec<u8>, OutOfBounds>,
)
    requires
        call_ensures(GuestMemory::read_bytes, (memory, at, len), result),
    ensures
        result is Ok <==> at + len <= memory@.len(),
        result is Ok ==> {
            &&& result->Ok_0@.len() == len
            &&& forall|k: int| 0 <= k < len ==> #[trigger] result->Ok_0@[k] == memory@[at + k]
        },
{
}

/// A read of integers succeeds exactly where all of them lie inside the memory,
/// and gives each of them in its place, four bytes apart.
pub proof fn law_integers_are_read_in_place(
    memory: &GuestMemory,
    at: u32,
    len: u32,
    one: Result<u32, OutOfBounds>,
    several: Result<Vec<u32>, OutOfBounds>,
)
    requires
        call_ensures(GuestMemory::read_u32, (memory, at), one),
        call_ensures(GuestMemory::read_u32s, (memory, at, len), several),
    ensures
        one is Ok <==> at + 4 <= memory@.len(),
        one is Ok ==> one->Ok_0 == u32_at(memory@, at as int),
        several is Ok <==> at + 4 * len <= memory@.len(),
        several is Ok ==> {
            &&& several->Ok_0@.len() == len
            &&& forall|k: int| 0 <= k < len ==> #[trigger] several->Ok_0@[k] == u32_at(memory@, at + 4 * k)
        },
{
}

/// A write succeeds exactly where all of its bytes lie inside the memory. It puts
/// each of them in its place and leaves every other byte alone; one that is
/// refused leaves all of them alone.
pub proof fn law_bytes_are_written_in_place(
    memory: &mut GuestMemory,
    at: u32,
    bytes: &[u8],
    result: Result<(), OutOfBounds>,
)
    requires
        call_ensures(GuestMemory::write_bytes, (memory, at, bytes), result),
    ensures
        result is Ok <==> at + bytes@.len() <= old(memory)@.len(),
        result is Err ==> final(memory)@ == old(memory)@,
        result is Ok ==> {
            &&& final(memory)@.len() == old(memory)@.len()
            &&& forall|k: int| 0 <= k < bytes@.len() ==> final(memory)@[at + k] == #[trigger] bytes@[k]
            &&& forall|k: int|
                0 <= k < at || at + bytes@.len() <= k < old(memory)@.len() ==> #[trigger] final(memory)@[k]
                    == old(memory)@[k]
        },
{
}

/// A write of an integer succeeds exactly where its four bytes lie inside the
/// memory. The integer then reads back, and every other byte is left alone.
pub proof fn law_an_integer_is_written_in_place(
    memory: &mut GuestMemory,
    at: u32,
    value: u32,
    result: Result<(), OutOfBounds>,
)
    requires
        call_ensures(GuestMemory::write_u32, (memory, at, value), result),
    ensures
        result is Ok <==> at + 4 <= old(memory)@.len(),
        result is Err ==> final(memory)@ == old(memory)@,
        result is Ok ==> {
            &&& final(memory)@.len() == old(memory)@.len()
            &&& u32_at(final(memory)@, at as int) == value
            &&& forall|k: int|
                0 <= k < at || at + 4 <= k < old(memory)@.len() ==> #[trigger] final(memory)@[k]
                    == old(memory)@[k]
        },
{
    if result is Ok {
        law_u32_read_after_write(old(memory)@, at, value);
    }
}

/// An integer that is appended reads back behind the bytes that were there.
pub proof fn law_an_integer_is_appended(bytes: &mut Vec<u8>, value: u32)
    requires
        call_ensures(push_u32, (bytes, value), ()),
    ensures
        final(bytes)@.len() == old(bytes)@.len() + 4,
        final(bytes)@.take(old(bytes)@.len() as int) == old(bytes)@,
        u32_at(final(bytes)@, old(bytes)@.len() as int) == value,
{
    let at = old(bytes)@.len() as int;
    assert forall|k: int| 0 <= k < 4 implies final(bytes)@[at + k] == #[trigger] u32_bytes(value)[k] by {}
    assert(final(bytes)@[at + 0] == u32_bytes(value)[0]);
    lemma_u32_of_bytes(final(bytes)@, at, value);
}

/// A guest's signed integer and the offset it stands for differ by a multiple of
/// the size of the address space.
pub proof fn law_offsets_wrap(ptr: i32, at: u32)
    requires
        call_ensures(guest_offset, (ptr,), at),
    ensures
        at == ptr || at == ptr + 0x1_0000_0000,
{
}

/// `after` is `mem` with the integer `value` at `at` and every other byte as it
/// was.
pub open spec fn differs_by_integer(mem: Seq<u8>, after: Seq<u8>, at: int, value: u32) -> bool {
    &&& 0 <= at
    &&& at + 4 <= mem.len()
    &&& after.len() == mem.len()
    &&& u32_at(after, at) == value
    &&& forall|k: int| 0 <= k < at || at + 4 <= k < mem.len() ==> #[trigger] after[k] == mem[k]
}

/// An integer can be written exactly where its four bytes lie inside the memory,
/// and the memory then differs by that integer.
pub proof fn law_a_written_integer_is_the_difference(mem: Seq<u8>, at: u32, value: u32)
    ensures
        u32_written(mem, at, value) is Some <==> at + 4 <= mem.len(),
        u32_written(mem, at, value) is Some ==> differs_by_integer(
            mem,
            u32_written(mem, at, value)->0,
            at as int,
            value,
        ),
{
    if u32_written(mem, at, value) is Some {
        law_u32_read_after_write(mem, at, value);
    }
}

} // verus!
