//! Guest physical memory: a 1 MiB backing store that is visible twice in the
//! guest address space, once at 0 and once at 0x100000. Every access wraps
//! modulo the store size, so the two windows always observe the same bytes.

use vstd::prelude::*;
use vstd::arithmetic::div_mod::{lemma_add_mod_noop, lemma_mod_multiples_vanish, lemma_mod_self_0, lemma_small_mod, lemma_mod_bound};

verus! {

/// Size of the guest memory backing store in bytes (1 MiB).
pub const GUEST_MEM_SIZE: usize = 0x100000;

/// Failure of an operation that places bytes into guest memory.
#[derive(Debug, PartialEq, Eq, Structural, Clone, Copy)]
pub enum MemError {
    /// The requested range does not fit below `GUEST_MEM_SIZE`.
    OutOfRange,
}

/// The backing store address that a guest physical address reaches: the
/// address wrapped modulo the store size.
pub open spec fn wrap_spec(addr: int) -> int {
    addr % (GUEST_MEM_SIZE as int)
}

/// The byte observed by a read at guest physical address `addr`.
pub open spec fn read_spec(s: Seq<u8>, addr: int) -> u8 {
    s[wrap_spec(addr)]
}

/// The store contents after a write of `b` at guest physical address `addr`.
pub open spec fn write_spec(s: Seq<u8>, addr: int, b: u8) -> Seq<u8> {
    s.update(wrap_spec(addr), b)
}

/// The store contents after replicating the `size` bytes at `offset` through
/// the `total`-byte window that starts at `offset`. Degenerate arguments
/// (an empty chunk, or a chunk at least as large as the window) change
/// nothing.
pub open spec fn mirror_spec(s: Seq<u8>, offset: int, size: int, total: int) -> Seq<u8> {
    if size <= 0 || size >= total {
        s
    } else {
        Seq::new(
            s.len(),
            |i: int|
                if offset <= i < offset + total {
                    s[offset + (i - offset) % size]
                } else {
                    s[i]
                },
        )
    }
}

/// Guest physical memory. Reads and writes through either mapping of the
/// guest address space reach this one backing store.
pub struct GuestMemory {
    bytes: Vec<u8>,
}

impl View for GuestMemory {
    type V = Seq<u8>;

    closed spec fn view(&self) -> Seq<u8> {
        self.bytes@
    }
}

impl GuestMemory {
    /// The backing store holds exactly `GUEST_MEM_SIZE` bytes.
    pub open spec fn wf(&self) -> bool {
        self@.len() == GUEST_MEM_SIZE
    }

    /// A fresh guest memory, all bytes zero.
    pub fn new() -> (m: GuestMemory)
        ensures
            m.wf(),
            forall|i: int| 0 <= i < GUEST_MEM_SIZE ==> m@[i] == 0u8,
    {
        let bytes: Vec<u8> = vec![0u8; GUEST_MEM_SIZE];
        GuestMemory { bytes }
    }

    /// Read the byte that guest physical address `addr` reaches.
    pub fn read_byte(&self, addr: u64) -> (b: u8)
        requires
            self.wf(),
        ensures
            b == read_spec(self@, addr as int),
    {
        let idx: usize = (addr % (GUEST_MEM_SIZE as u64)) as usize;
        self.bytes[idx]
    }

    /// Write `b` at the store address that guest physical address `addr`
    /// reaches.
    pub fn write_byte(&mut self, addr: u64, b: u8)
        requires
            old(self).wf(),
        ensures
            final(self).wf(),
            final(self)@ == write_spec(old(self)@, addr as int, b),
    {
        let idx: usize = (addr % (GUEST_MEM_SIZE as u64)) as usize;
        self.bytes.set(idx, b);
    }

    /// Copy `data` into guest memory starting at `offset`. Succeeds exactly
    /// when the copy fits below `GUEST_MEM_SIZE`, returning the number of
    /// bytes placed; otherwise the memory is unchanged.
    pub fn load_at(&mut self, offset: usize, data: &Vec<u8>) -> (r: Result<usize, MemError>)
        requires
            old(self).wf(),
        ensures
            final(self).wf(),
            r is Ok <==> offset + data@.len() <= GUEST_MEM_SIZE,
            r is Ok ==> r == Ok::<usize, MemError>(data.len()),
            r is Ok ==> final(self)@.len() == old(self)@.len() && forall|i: int|
                0 <= i < GUEST_MEM_SIZE ==> final(self)@[i] == (if offset <= i < offset
                    + data@.len() {
                    data@[i - offset]
                } else {
                    old(self)@[i]
                }),
            r is Err ==> final(self)@ == old(self)@ && r == Err::<usize, MemError>(
                MemError::OutOfRange,
            ),
    {
        if offset > GUEST_MEM_SIZE || data.len() > GUEST_MEM_SIZE - offset {
            return Err(MemError::OutOfRange);
        }
        let ghost orig: Seq<u8> = self.bytes@;
        let mut j: usize = 0;
        while j < data.len()
            invariant
                self.bytes@.len() == orig.len() == GUEST_MEM_SIZE,
                j <= data@.len(),
                offset + data@.len() <= GUEST_MEM_SIZE,
                forall|i: int|
                    0 <= i < GUEST_MEM_SIZE ==> self.bytes@[i] == (if offset <= i < offset + j {
                        data@[i - offset]
                    } else {
                        orig[i]
                    }),
            decreases data@.len() - j,
        {
            self.bytes.set(offset + j, data[j]);
            j += 1;
        }
        Ok(data.len())
    }

    /// Replicate the `size` bytes at `offset` throughout the `total`-byte
    /// window starting at `offset`, truncating the last copy at the end of
    /// the window.
    pub fn mirror_region(&mut self, offset: usize, size: usize, total: usize)
        requires
            old(self).wf(),
            offset + total <= GUEST_MEM_SIZE,
        ensures
            final(self).wf(),
            final(self)@ == mirror_spec(old(self)@, offset as int, size as int, total as int),
    {
        if size == 0 || size >= total {
            assert(self.bytes@ =~= mirror_spec(self.bytes@, offset as int, size as int, total as int));
            return ;
        }
        let ghost orig: Seq<u8> = self.bytes@;
        let mut pos: usize = size;
        proof {
            lemma_mod_self_0(size as int);
            assert forall|i: int| offset <= i < offset + pos implies orig[offset + #[trigger] ((i
                - offset) % (size as int))] == orig[i] by {
                lemma_small_mod((i - offset) as nat, size as nat);
            }
        }
        while pos < total
            invariant
                self.bytes@.len() == orig.len() == GUEST_MEM_SIZE,
                0 < size < total,
                offset + total <= GUEST_MEM_SIZE,
                size <= pos,
                pos % size == 0,
                forall|i: int|
                    0 <= i < GUEST_MEM_SIZE ==> self.bytes@[i] == (if offset <= i < offset + pos
                        && i < offset + total {
                        orig[offset + (i - offset) % (size as int)]
                    } else {
                        orig[i]
                    }),
            decreases total + size - pos,
        {
            let chunk: usize = if total - pos < size {
                total - pos
            } else {
                size
            };
            let mut j: usize = 0;
            while j < chunk
                invariant
                    self.bytes@.len() == orig.len() == GUEST_MEM_SIZE,
                    0 < size < total,
                    offset + total <= GUEST_MEM_SIZE,
                    size <= pos < total,
                    pos % size == 0,
                    j <= chunk,
                    chunk <= size,
                    pos + chunk <= total,
                    forall|i: int|
                        0 <= i < GUEST_MEM_SIZE ==> self.bytes@[i] == (if offset <= i < offset + pos
                            + j && i < offset + total {
                            orig[offset + (i - offset) % (size as int)]
                        } else {
                            orig[i]
                        }),
                decreases chunk - j,
            {
                let src: u8 = self.bytes[offset + j];
                assert(src == orig[offset + j]) by {
                    lemma_small_mod(j as nat, size as nat);
                    assert(offset <= offset + j < offset + pos + j);
                }
                self.bytes.set(offset + pos + j, src);
                proof {
                    let s = size as int;
                    let p = pos as int;
                    let jj = j as int;
                    lemma_add_mod_noop(p, jj, s);
                    lemma_small_mod(jj as nat, s as nat);
                    assert((p + jj) % s == jj);
                }
                j += 1;
            }
            proof {
                let s = size as int;
                let p = pos as int;
                lemma_add_mod_noop(p, s, s);
                lemma_mod_self_0(s);
                lemma_small_mod(0nat, s as nat);
                assert((p + s) % s == 0);
                if chunk < size {
                    // the truncated final chunk reaches the end of the window
                    assert(pos + chunk == total);
                }
            }
            pos += size;
        }
        proof {
            assert forall|i: int| offset <= i < offset + total implies 0 <= #[trigger] ((i
                - offset) % (size as int)) < size by {
                lemma_mod_bound(i - offset, size as int);
            }
            assert(self.bytes@ =~= mirror_spec(orig, offset as int, size as int, total as int));
        }
    }

    /// Write the reset-vector far jump `EA 00 00 00 F0` (jmp F000:0000) at
    /// guest physical 0xFFFF0, for firmware that expects entry at F000:0000.
    pub fn patch_reset_vector(&mut self)
        requires
            old(self).wf(),
        ensures
            final(self).wf(),
            final(self)@.len() == old(self)@.len(),
            final(self)@[0xFFFF0] == 0xEAu8,
            final(self)@[0xFFFF1] == 0x00u8,
            final(self)@[0xFFFF2] == 0x00u8,
            final(self)@[0xFFFF3] == 0x00u8,
            final(self)@[0xFFFF4] == 0xF0u8,
            forall|i: int|
                0 <= i < GUEST_MEM_SIZE && !(0xFFFF0 <= i < 0xFFFF5) ==> final(self)@[i] == old(
                    self,
                )@[i],
    {
        self.bytes.set(0xFFFF0, 0xEA);
        self.bytes.set(0xFFFF1, 0x00);
        self.bytes.set(0xFFFF2, 0x00);
        self.bytes.set(0xFFFF3, 0x00);
        self.bytes.set(0xFFFF4, 0xF0);
    }

    /// Copy `len` bytes starting at store address `offset` out of guest
    /// memory.
    pub fn read_region(&self, offset: usize, len: usize) -> (out: Vec<u8>)
        requires
            self.wf(),
            offset + len <= GUEST_MEM_SIZE,
        ensures
            out@.len() == len,
            forall|i: int| 0 <= i < len ==> out@[i] == self@[offset + i],
    {
        let mut out: Vec<u8> = Vec::new();
        let mut j: usize = 0;
        while j < len
            invariant
                self.wf(),
                offset + len <= GUEST_MEM_SIZE,
                j <= len,
                out@.len() == j,
                forall|i: int| 0 <= i < j ==> out@[i] == self@[offset + i],
            decreases len - j,
        {
            out.push(self.bytes[offset + j]);
            j += 1;
        }
        out
    }
}

/// The backing-store index that byte `i` of a guest memory access at
/// physical address `gpa` reaches, as the host emulator's memory callback
/// computes it: the base wraps first, then each byte offset wraps again.
pub fn wrap_offset(gpa: u64, i: u64) -> (r: usize)
    requires
        i < GUEST_MEM_SIZE,
    ensures
        r == ((gpa % (GUEST_MEM_SIZE as u64)) + i) % (GUEST_MEM_SIZE as int),
        r < GUEST_MEM_SIZE,
{
    ((gpa % (GUEST_MEM_SIZE as u64)) as usize + i as usize) % GUEST_MEM_SIZE
}

/// A write through either mapping of the guest address space is observed,
/// unchanged, by reads through both mappings: address `o` and address
/// `o + 0x100000` name the same backing byte.
pub proof fn lemma_write_read_aliases(s: Seq<u8>, o: int, b: u8)
    requires
        s.len() == GUEST_MEM_SIZE,
        0 <= o < GUEST_MEM_SIZE,
    ensures
        write_spec(s, o, b) == write_spec(s, o + GUEST_MEM_SIZE, b),
        read_spec(write_spec(s, o, b), o) == b,
        read_spec(write_spec(s, o, b), o + GUEST_MEM_SIZE) == b,
{
    let n = GUEST_MEM_SIZE as int;
    lemma_mod_multiples_vanish(1, o, n);
    lemma_small_mod(o as nat, n as nat);
    assert(wrap_spec(o + n) == wrap_spec(o));
    assert(wrap_spec(o) == o);
}

/// Mirroring a region is idempotent: a second `mirror_region` with the same
/// arguments and no intervening writes leaves the store unchanged.
pub proof fn lemma_mirror_idempotent(s: Seq<u8>, offset: int, size: int, total: int)
    requires
        0 <= offset,
        0 <= size,
        0 <= total,
        offset + total <= s.len(),
    ensures
        mirror_spec(mirror_spec(s, offset, size, total), offset, size, total) == mirror_spec(
            s,
            offset,
            size,
            total,
        ),
{
    if size <= 0 || size >= total {
    } else {
        let m1 = mirror_spec(s, offset, size, total);
        let m2 = mirror_spec(m1, offset, size, total);
        assert forall|i: int| offset <= i < offset + total implies m2[i] == m1[i] by {
            lemma_mod_bound(i - offset, size);
            let r = (i - offset) % size;
            lemma_small_mod(r as nat, size as nat);
            assert(m1[offset + r] == s[offset + r % size]);
            assert(m2[i] == m1[offset + r]);
            assert(m1[i] == s[offset + r]);
        }
        assert(m2 =~= m1);
    }
}

} // verus!
