//! The emulated disk: a fixed 512-byte image with one rolling byte offset
//! shared by reads and writes, wrapping modulo the image size.

use vstd::prelude::*;
use vstd::arithmetic::div_mod::{
    lemma_add_mod_noop,
    lemma_mod_bound,
    lemma_mod_equivalence,
    lemma_mod_multiples_basic,
    lemma_small_mod,
};

verus! {

/// Size of the disk image in bytes.
pub const DISK_IMAGE_SIZE: usize = 512;

/// Mathematical state of the disk.
#[verifier::ext_equal]
pub struct DiskView {
    /// The 512 image bytes.
    pub data: Seq<u8>,
    /// The rolling offset in [0, 512).
    pub offset: int,
}

/// Whether a disk state is well formed.
pub open spec fn disk_wf(v: DiskView) -> bool {
    v.data.len() == DISK_IMAGE_SIZE && 0 <= v.offset < DISK_IMAGE_SIZE
}

/// The disk after writing one byte at the offset.
pub open spec fn disk_written(v: DiskView, b: u8) -> DiskView {
    DiskView {
        data: v.data.update(v.offset, b),
        offset: (v.offset + 1) % (DISK_IMAGE_SIZE as int),
    }
}

/// The byte a read at the offset returns.
pub open spec fn disk_read_value(v: DiskView) -> u8 {
    v.data[v.offset]
}

/// The disk after reading one byte.
pub open spec fn disk_after_read(v: DiskView) -> DiskView {
    DiskView { data: v.data, offset: (v.offset + 1) % (DISK_IMAGE_SIZE as int) }
}

/// The disk after writing the bytes of `ws` in order.
pub open spec fn disk_written_all(v: DiskView, ws: Seq<u8>) -> DiskView
    decreases ws.len(),
{
    if ws.len() == 0 {
        v
    } else {
        disk_written_all(disk_written(v, ws[0]), ws.drop_first())
    }
}

/// The bytes that `n` consecutive reads return.
pub open spec fn disk_read_all(v: DiskView, n: nat) -> Seq<u8>
    decreases n,
{
    if n == 0 {
        Seq::empty()
    } else {
        seq![disk_read_value(v)] + disk_read_all(disk_after_read(v), (n - 1) as nat)
    }
}

/// The emulated disk image.
pub struct DiskImage {
    data: Vec<u8>,
    offset: usize,
}

impl View for DiskImage {
    type V = DiskView;

    closed spec fn view(&self) -> DiskView {
        DiskView { data: self.data@, offset: self.offset as int }
    }
}

impl DiskImage {
    /// The image holds exactly 512 bytes and the offset stays inside it.
    pub open spec fn wf(&self) -> bool {
        disk_wf(self@)
    }

    /// An all-zero image with the offset at 0; reads then return zeros, as
    /// when no disk image file is present.
    pub fn new() -> (d: DiskImage)
        ensures
            d.wf(),
            d@.offset == 0,
            forall|i: int| 0 <= i < DISK_IMAGE_SIZE ==> d@.data[i] == 0u8,
    {
        let data: Vec<u8> = vec![0u8; DISK_IMAGE_SIZE];
        DiskImage { data, offset: 0 }
    }

    /// Replace the image contents, leaving the offset alone.
    pub fn load(&mut self, bytes: &Vec<u8>)
        requires
            old(self).wf(),
            bytes@.len() == DISK_IMAGE_SIZE,
        ensures
            final(self).wf(),
            final(self)@ == (DiskView { data: bytes@, offset: old(self)@.offset }),
    {
        let mut data: Vec<u8> = Vec::new();
        let mut i: usize = 0;
        while i < DISK_IMAGE_SIZE
            invariant
                bytes@.len() == DISK_IMAGE_SIZE,
                i <= DISK_IMAGE_SIZE,
                data@.len() == i,
                forall|k: int| 0 <= k < i ==> data@[k] == bytes@[k],
            decreases DISK_IMAGE_SIZE - i,
        {
            data.push(bytes[i]);
            i += 1;
        }
        self.data = data;
        proof {
            assert(self@.data =~= bytes@);
        }
    }

    /// The image byte at index `i`.
    pub fn data_at(&self, i: usize) -> (b: u8)
        requires
            self.wf(),
            i < DISK_IMAGE_SIZE,
        ensures
            b == self@.data[i as int],
    {
        self.data[i]
    }

    /// The rolling offset.
    pub fn current_offset(&self) -> (o: usize)
        ensures
            o == self@.offset,
    {
        self.offset
    }

    /// Read the byte at the offset and advance the offset, wrapping.
    pub fn read_byte(&mut self) -> (b: u8)
        requires
            old(self).wf(),
        ensures
            final(self).wf(),
            b == disk_read_value(old(self)@),
            final(self)@ == disk_after_read(old(self)@),
    {
        let b = self.data[self.offset];
        self.offset = (self.offset + 1) % DISK_IMAGE_SIZE;
        b
    }

    /// Write a byte at the offset and advance the offset, wrapping.
    pub fn write_byte(&mut self, b: u8)
        requires
            old(self).wf(),
        ensures
            final(self).wf(),
            final(self)@ == disk_written(old(self)@, b),
    {
        self.data.set(self.offset, b);
        self.offset = (self.offset + 1) % DISK_IMAGE_SIZE;
    }
}

/// What `n` reads return, byte for byte: the image contents starting at the
/// offset, wrapping around the image.
pub proof fn lemma_read_all_values(v: DiskView, n: nat)
    requires
        disk_wf(v),
        n <= DISK_IMAGE_SIZE,
    ensures
        disk_read_all(v, n).len() == n,
        forall|j: int|
            0 <= j < n ==> disk_read_all(v, n)[j] == v.data[(v.offset + j) % (
            DISK_IMAGE_SIZE as int)],
    decreases n,
{
    let m = DISK_IMAGE_SIZE as int;
    if n == 0 {
    } else {
        let v1 = disk_after_read(v);
        lemma_mod_bound(v.offset + 1, m);
        lemma_read_all_values(v1, (n - 1) as nat);
        assert forall|j: int| 0 <= j < n implies disk_read_all(v, n)[j] == v.data[(v.offset + j)
            % m] by {
            if j == 0 {
                lemma_small_mod(v.offset as nat, m as nat);
            } else {
                assert(disk_read_all(v, n)[j] == disk_read_all(v1, (n - 1) as nat)[j - 1]);
                assert(disk_read_all(v1, (n - 1) as nat)[j - 1] == v.data[(v1.offset + (j - 1))
                    % m]);
                lemma_add_mod_noop(v.offset + 1, j - 1, m);
                lemma_mod_bound(v.offset + 1, m);
                lemma_small_mod(((v.offset + 1) % m) as nat, m as nat);
                assert((v1.offset + (j - 1)) % m == (v.offset + j) % m);
            }
        }
    }
}

/// What writing `ws` leaves behind: each byte lands at its wrapped slot, the
/// rest of the image is untouched, and the offset moves by `ws.len()`.
pub proof fn lemma_write_all_values(v: DiskView, ws: Seq<u8>)
    requires
        disk_wf(v),
        ws.len() <= DISK_IMAGE_SIZE,
    ensures
        disk_wf(disk_written_all(v, ws)),
        disk_written_all(v, ws).offset == (v.offset + ws.len()) % (DISK_IMAGE_SIZE as int),
        forall|j: int|
            0 <= j < ws.len() ==> disk_written_all(v, ws).data[(v.offset + j) % (
            DISK_IMAGE_SIZE as int)] == ws[j],
        forall|a: int|
            0 <= a < DISK_IMAGE_SIZE && (forall|j: int|
                0 <= j < ws.len() ==> #[trigger] ((v.offset + j) % (DISK_IMAGE_SIZE as int)) != a)
                ==> #[trigger] disk_written_all(v, ws).data[a] == v.data[a],
    decreases ws.len(),
{
    let m = DISK_IMAGE_SIZE as int;
    if ws.len() == 0 {
        lemma_small_mod(v.offset as nat, m as nat);
    } else {
        let v1 = disk_written(v, ws[0]);
        lemma_mod_bound(v.offset + 1, m);
        lemma_write_all_values(v1, ws.drop_first());
        let vfin = disk_written_all(v, ws);
        assert(vfin == disk_written_all(v1, ws.drop_first()));
        // offset accounting
        assert(vfin.offset == (v1.offset + (ws.len() - 1)) % m);
        lemma_add_mod_noop(v.offset + 1, ws.len() - 1, m);
        lemma_small_mod(((v.offset + 1) % m) as nat, m as nat);
        assert((v1.offset + (ws.len() - 1)) % m == (v.offset + ws.len()) % m);
        // every written slot holds its byte
        assert forall|j: int| 0 <= j < ws.len() implies vfin.data[(v.offset + j) % m] == ws[j] by {
            if j == 0 {
                lemma_small_mod(v.offset as nat, m as nat);
                // the remaining writes never touch slot v.offset
                assert forall|k: int| 0 <= k < ws.drop_first().len() implies #[trigger] ((
                v1.offset + k) % m) != v.offset by {
                    lemma_add_mod_noop(v.offset + 1, k, m);
                    lemma_small_mod(((v.offset + 1) % m) as nat, m as nat);
                    assert((v1.offset + k) % m == (v.offset + 1 + k) % m);
                    if (v.offset + 1 + k) % m == v.offset {
                        lemma_small_mod(v.offset as nat, m as nat);
                        lemma_mod_equivalence(v.offset + 1 + k, v.offset, m);
                        lemma_small_mod((1 + k) as nat, m as nat);
                        assert((v.offset + 1 + k - v.offset) % m == (1 + k) % m);
                        assert((1 + k) % m == 1 + k);
                    }
                }
                assert(vfin.data[v.offset] == v1.data[v.offset]);
                assert(v1.data[v.offset] == ws[0]);
            } else {
                lemma_add_mod_noop(v.offset + 1, j - 1, m);
                lemma_small_mod(((v.offset + 1) % m) as nat, m as nat);
                assert((v1.offset + (j - 1)) % m == (v.offset + j) % m);
                assert(vfin.data[(v1.offset + (j - 1)) % m] == ws.drop_first()[j - 1]);
            }
        }
        // untouched slots keep their bytes
        assert forall|a: int|
            0 <= a < DISK_IMAGE_SIZE && (forall|j: int|
                0 <= j < ws.len() ==> #[trigger] ((v.offset + j) % m) != a) implies #[trigger] vfin
            .data[a] == v.data[a] by {
            lemma_small_mod(v.offset as nat, m as nat);
            assert((v.offset + 0) % m == v.offset);
            assert(a != v.offset);
            assert(v1.data[a] == v.data[a]);
            assert forall|k: int| 0 <= k < ws.drop_first().len() implies #[trigger] ((v1.offset
                + k) % m) != a by {
                lemma_add_mod_noop(v.offset + 1, k, m);
                lemma_small_mod(((v.offset + 1) % m) as nat, m as nat);
                assert((v1.offset + k) % m == (v.offset + (k + 1)) % m);
                assert(0 <= k + 1 < ws.len());
            }
        }
    }
}

/// Round trip: writing a full 512-byte sequence (one complete wrap of the
/// offset) and then reading 512 bytes returns exactly the written sequence.
pub proof fn lemma_disk_round_trip(v: DiskView, ws: Seq<u8>)
    requires
        disk_wf(v),
        ws.len() == DISK_IMAGE_SIZE,
    ensures
        disk_read_all(disk_written_all(v, ws), DISK_IMAGE_SIZE as nat) == ws,
{
    let m = DISK_IMAGE_SIZE as int;
    let vw = disk_written_all(v, ws);
    lemma_write_all_values(v, ws);
    lemma_mod_multiples_basic(1, m);
    lemma_mod_equivalence(v.offset + m, v.offset, m);
    lemma_small_mod(v.offset as nat, m as nat);
    assert(vw.offset == v.offset);
    lemma_read_all_values(vw, DISK_IMAGE_SIZE as nat);
    assert forall|j: int| 0 <= j < DISK_IMAGE_SIZE implies disk_read_all(
        vw,
        DISK_IMAGE_SIZE as nat,
    )[j] == ws[j] by {
        assert(disk_read_all(vw, DISK_IMAGE_SIZE as nat)[j] == vw.data[(vw.offset + j) % m]);
        assert(vw.data[(v.offset + j) % m] == ws[j]);
    }
    assert(disk_read_all(vw, DISK_IMAGE_SIZE as nat) =~= ws);
}

} // verus!
