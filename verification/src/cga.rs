//! The CGA text model: an 80×25 buffer of 16-bit cells (attribute high byte,
//! codepoint low byte), a cursor with scrolling, a shadow of the guest-RAM
//! text region used to find dirty cells after each vCPU exit, and the status
//! register whose vertical-retrace bit flips every 16 ms of wall time.

use vstd::prelude::*;

verus! {

/// Text columns.
pub const CGA_COLS: usize = 80;

/// Text rows.
pub const CGA_ROWS: usize = 25;

/// Total number of text cells.
pub const CGA_CELLS: usize = 2000;

/// A blank cell: space, light gray on black.
pub const CGA_BLANK_CELL: u16 = 0x0720;

/// Guest physical address of the CGA text framebuffer.
pub const CGA_RAM_BASE: usize = 0xB8000;

/// The vertical-retrace status bit flips after this much wall time, in
/// nanoseconds (16 ms).
pub const CGA_TOGGLE_PERIOD_NS: u64 = 16_000_000;

/// Mathematical state of the text buffer.
#[verifier::ext_equal]
pub struct CgaView {
    /// The 2000 cells of the core's own buffer.
    pub cells: Seq<u16>,
    /// The last cell values observed in guest RAM at the text region.
    pub shadow: Seq<u16>,
    /// Cursor index in [0, 2000).
    pub cursor: int,
}

/// The buffer scrolled up one row: row 0 is discarded, the last row blanked.
pub open spec fn scrolled(s: Seq<u16>) -> Seq<u16> {
    Seq::new(
        CGA_CELLS as nat,
        |i: int|
            if i < CGA_CELLS - CGA_COLS {
                s[i + CGA_COLS]
            } else {
                CGA_BLANK_CELL
            },
    )
}

/// The buffer after printing one byte: carriage return moves to column 0,
/// line feed moves down one row, anything else writes a light-gray cell at
/// the cursor and advances it. Whenever the cursor would reach 2000 the
/// buffer scrolls up one row and the cursor backs up one row.
pub open spec fn put_char_spec(v: CgaView, ch: u8) -> CgaView {
    if ch == 13 {
        CgaView { cursor: v.cursor - v.cursor % (CGA_COLS as int), ..v }
    } else if ch == 10 {
        if v.cursor + CGA_COLS >= CGA_CELLS {
            CgaView { cells: scrolled(v.cells), ..v }
        } else {
            CgaView { cursor: v.cursor + CGA_COLS, ..v }
        }
    } else {
        let written = v.cells.update(v.cursor, 0x0700u16 | (ch as u16));
        if v.cursor + 1 >= CGA_CELLS {
            CgaView { cells: scrolled(written), cursor: CGA_CELLS - CGA_COLS, ..v }
        } else {
            CgaView { cells: written, cursor: v.cursor + 1, ..v }
        }
    }
}

/// The buffer after reconciling with the guest-RAM words `w`: every cell
/// whose shadow disagrees with RAM is overwritten from RAM, and the shadow
/// itself becomes `w`.
pub open spec fn sync_spec(v: CgaView, w: Seq<u16>) -> CgaView {
    CgaView {
        cells: Seq::new(
            CGA_CELLS as nat,
            |i: int|
                if v.shadow[i] != w[i] {
                    w[i]
                } else {
                    v.cells[i]
                },
        ),
        shadow: w,
        cursor: v.cursor,
    }
}

/// The CGA text buffer with its guest-RAM shadow and cursor.
pub struct CgaText {
    cells: Vec<u16>,
    shadow: Vec<u16>,
    cursor: usize,
}

impl View for CgaText {
    type V = CgaView;

    closed spec fn view(&self) -> CgaView {
        CgaView { cells: self.cells@, shadow: self.shadow@, cursor: self.cursor as int }
    }
}

/// Scroll a 2000-cell buffer up one row in place.
fn scroll_up(cells: &mut Vec<u16>)
    requires
        old(cells)@.len() == CGA_CELLS,
    ensures
        final(cells)@ == scrolled(old(cells)@),
{
    let ghost orig: Seq<u16> = cells@;
    let mut i: usize = 0;
    while i < CGA_CELLS - CGA_COLS
        invariant
            cells@.len() == CGA_CELLS,
            i <= CGA_CELLS - CGA_COLS,
            forall|k: int| 0 <= k < i ==> cells@[k] == orig[k + CGA_COLS],
            forall|k: int| i <= k < CGA_CELLS ==> cells@[k] == orig[k],
        decreases CGA_CELLS - CGA_COLS - i,
    {
        let v = cells[i + CGA_COLS];
        cells.set(i, v);
        i += 1;
    }
    while i < CGA_CELLS
        invariant
            cells@.len() == CGA_CELLS,
            CGA_CELLS - CGA_COLS <= i <= CGA_CELLS,
            forall|k: int| 0 <= k < CGA_CELLS - CGA_COLS ==> cells@[k] == orig[k + CGA_COLS],
            forall|k: int| CGA_CELLS - CGA_COLS <= k < i ==> cells@[k] == CGA_BLANK_CELL,
        decreases CGA_CELLS - i,
    {
        cells.set(i, CGA_BLANK_CELL);
        i += 1;
    }
    assert(cells@ =~= scrolled(orig));
}

/// A well-formed text state: both buffers hold exactly 2000 cells and the
/// cursor is inside them.
pub open spec fn cga_wf(v: CgaView) -> bool {
    v.cells.len() == CGA_CELLS && v.shadow.len() == CGA_CELLS && 0 <= v.cursor < CGA_CELLS
}

impl CgaText {
    /// Both buffers hold exactly 2000 cells and the cursor is inside them.
    pub open spec fn wf(&self) -> bool {
        cga_wf(self@)
    }

    /// A fresh buffer: every cell and shadow cell blank, cursor at 0.
    pub fn new() -> (c: CgaText)
        ensures
            c.wf(),
            forall|i: int| 0 <= i < CGA_CELLS ==> c@.cells[i] == CGA_BLANK_CELL,
            forall|i: int| 0 <= i < CGA_CELLS ==> c@.shadow[i] == CGA_BLANK_CELL,
            c@.cursor == 0,
    {
        let cells: Vec<u16> = vec![CGA_BLANK_CELL; CGA_CELLS];
        let shadow: Vec<u16> = vec![CGA_BLANK_CELL; CGA_CELLS];
        CgaText { cells, shadow, cursor: 0 }
    }

    /// Blank every cell and shadow cell and move the cursor to 0.
    pub fn clear(&mut self)
        requires
            old(self).wf(),
        ensures
            final(self).wf(),
            forall|i: int| 0 <= i < CGA_CELLS ==> final(self)@.cells[i] == CGA_BLANK_CELL,
            forall|i: int| 0 <= i < CGA_CELLS ==> final(self)@.shadow[i] == CGA_BLANK_CELL,
            final(self)@.cursor == 0,
    {
        let mut i: usize = 0;
        while i < CGA_CELLS
            invariant
                self.wf(),
                i <= CGA_CELLS,
                forall|k: int| 0 <= k < i ==> self@.cells[k] == CGA_BLANK_CELL,
                forall|k: int| 0 <= k < i ==> self@.shadow[k] == CGA_BLANK_CELL,
                self@.cursor == 0 || self@.cursor == old(self)@.cursor,
            decreases CGA_CELLS - i,
        {
            self.cells.set(i, CGA_BLANK_CELL);
            self.shadow.set(i, CGA_BLANK_CELL);
            i += 1;
        }
        self.cursor = 0;
    }

    /// Print one byte at the cursor (see `put_char_spec`).
    pub fn put_char(&mut self, ch: u8)
        requires
            old(self).wf(),
        ensures
            final(self).wf(),
            final(self)@ == put_char_spec(old(self)@, ch),
    {
        if ch == 13 {
            self.cursor = self.cursor - self.cursor % CGA_COLS;
        } else if ch == 10 {
            if self.cursor + CGA_COLS >= CGA_CELLS {
                scroll_up(&mut self.cells);
            } else {
                self.cursor = self.cursor + CGA_COLS;
            }
        } else {
            self.cells.set(self.cursor, 0x0700u16 | (ch as u16));
            if self.cursor + 1 >= CGA_CELLS {
                scroll_up(&mut self.cells);
                self.cursor = CGA_CELLS - CGA_COLS;
            } else {
                self.cursor = self.cursor + 1;
            }
        }
        proof {
            assert(self@ =~= put_char_spec(old(self)@, ch));
        }
    }

    /// A copy of the whole cell buffer, for the frame sink.
    pub fn cells_vec(&self) -> (out: Vec<u16>)
        requires
            self.wf(),
        ensures
            out@ == self@.cells,
    {
        let mut out: Vec<u16> = Vec::new();
        let mut i: usize = 0;
        while i < CGA_CELLS
            invariant
                self.wf(),
                i <= CGA_CELLS,
                out@.len() == i,
                forall|k: int| 0 <= k < i ==> out@[k] == self@.cells[k],
            decreases CGA_CELLS - i,
        {
            out.push(self.cells[i]);
            i += 1;
        }
        proof {
            assert(out@ =~= self@.cells);
        }
        out
    }

    /// The cursor index.
    pub fn cursor_index(&self) -> (c: usize)
        ensures
            c == self@.cursor,
    {
        self.cursor
    }

    /// The cell at index `i` of the core's buffer.
    pub fn cell_at(&self, i: usize) -> (c: u16)
        requires
            self.wf(),
            i < CGA_CELLS,
        ensures
            c == self@.cells[i as int],
    {
        self.cells[i]
    }

    /// The shadow cell at index `i`.
    pub fn shadow_at(&self, i: usize) -> (c: u16)
        requires
            self.wf(),
            i < CGA_CELLS,
        ensures
            c == self@.shadow[i as int],
    {
        self.shadow[i]
    }

    /// Reconcile the buffer with the guest-RAM words `words`; true when any
    /// cell differed.
    pub fn sync_from_ram(&mut self, words: &Vec<u16>) -> (dirty: bool)
        requires
            old(self).wf(),
            words@.len() == CGA_CELLS,
        ensures
            final(self).wf(),
            final(self)@ == sync_spec(old(self)@, words@),
            dirty <==> exists|i: int|
                0 <= i < CGA_CELLS && old(self)@.shadow[i] != #[trigger] words@[i],
            old(self)@.cells == old(self)@.shadow ==> final(self)@.cells == words@,
    {
        let mut dirty = false;
        let mut i: usize = 0;
        while i < CGA_CELLS
            invariant
                self.wf(),
                words@.len() == CGA_CELLS,
                i <= CGA_CELLS,
                self@.cursor == old(self)@.cursor,
                forall|k: int| i <= k < CGA_CELLS ==> self@.cells[k] == old(self)@.cells[k],
                forall|k: int| i <= k < CGA_CELLS ==> self@.shadow[k] == old(self)@.shadow[k],
                forall|k: int|
                    0 <= k < i ==> self@.cells[k] == (if old(self)@.shadow[k] != words@[k] {
                        words@[k]
                    } else {
                        old(self)@.cells[k]
                    }),
                forall|k: int| 0 <= k < i ==> self@.shadow[k] == words@[k],
                dirty <==> exists|k: int|
                    0 <= k < i && old(self)@.shadow[k] != #[trigger] words@[k],
            decreases CGA_CELLS - i,
        {
            let w = words[i];
            if self.shadow[i] != w {
                self.shadow.set(i, w);
                self.cells.set(i, w);
                dirty = true;
            }
            i += 1;
        }
        proof {
            assert(self@ =~= sync_spec(old(self)@, words@));
            if old(self)@.cells == old(self)@.shadow {
                assert(self@.cells =~= words@);
            }
        }
        dirty
    }
}

/// After reconciling, the core's buffer agrees cell for cell with the
/// guest-RAM words, provided the buffer and its shadow agreed beforehand
/// (as they do along the run loop, where only the guest writes cells).
pub proof fn lemma_sync_matches_ram(v: CgaView, w: Seq<u16>)
    requires
        v.cells.len() == CGA_CELLS,
        w.len() == CGA_CELLS,
        v.cells == v.shadow,
    ensures
        sync_spec(v, w).cells == w,
        sync_spec(v, w).shadow == w,
{
    assert(sync_spec(v, w).cells =~= w);
}

/// Pair consecutive little-endian bytes into 16-bit cell values, as the
/// guest-RAM text region is read.
pub fn words_from_bytes(bytes: &Vec<u8>) -> (out: Vec<u16>)
    requires
        bytes@.len() % 2 == 0,
    ensures
        out@.len() == bytes@.len() / 2,
        forall|i: int|
            0 <= i < out@.len() ==> out@[i] == bytes@[2 * i] + 256 * (bytes@[2 * i + 1] as int),
{
    let mut out: Vec<u16> = Vec::new();
    let mut i: usize = 0;
    while i + 1 < bytes.len()
        invariant
            bytes@.len() % 2 == 0,
            i % 2 == 0,
            i <= bytes@.len(),
            out@.len() == i / 2,
            forall|k: int|
                0 <= k < out@.len() ==> out@[k] == bytes@[2 * k] + 256 * (bytes@[2 * k + 1] as int),
        decreases bytes@.len() - i,
    {
        let w: u16 = bytes[i] as u16 + 256 * (bytes[i + 1] as u16);
        out.push(w);
        i += 2;
    }
    out
}

/// The printable form of one text row of a cell buffer: the low byte of
/// each cell, with NUL shown as a space.
pub fn row_text(cells: &Vec<u16>, row: usize) -> (out: Vec<u8>)
    requires
        cells@.len() == CGA_CELLS,
        row < CGA_ROWS,
    ensures
        out@.len() == CGA_COLS,
        forall|c: int|
            0 <= c < CGA_COLS ==> out@[c] == (if cells@[row * CGA_COLS + c] as u8 == 0 {
                32u8
            } else {
                cells@[row * CGA_COLS + c] as u8
            }),
{
    let mut out: Vec<u8> = Vec::new();
    let mut c: usize = 0;
    while c < CGA_COLS
        invariant
            cells@.len() == CGA_CELLS,
            row < CGA_ROWS,
            c <= CGA_COLS,
            out@.len() == c,
            forall|k: int|
                0 <= k < c ==> out@[k] == (if cells@[row * CGA_COLS + k] as u8 == 0 {
                    32u8
                } else {
                    cells@[row * CGA_COLS + k] as u8
                }),
        decreases CGA_COLS - c,
    {
        let cell = cells[row * CGA_COLS + c];
        let ch = cell as u8;
        out.push(if ch == 0 {
            32
        } else {
            ch
        });
        c += 1;
    }
    out
}

/// The CGA status register and the wall-clock stamp of the last flip of its
/// vertical-retrace bit.
pub struct CgaStatus {
    status: u8,
    last_toggle: Option<u64>,
}

/// Mathematical state of the status register.
#[verifier::ext_equal]
pub struct CgaStatusView {
    /// The status byte returned by reads of the status port.
    pub status: u8,
    /// When the retrace bit last flipped, if the clock has started.
    pub last_toggle: Option<u64>,
}

impl View for CgaStatus {
    type V = CgaStatusView;

    closed spec fn view(&self) -> CgaStatusView {
        CgaStatusView { status: self.status, last_toggle: self.last_toggle }
    }
}

/// The status state after a poll at time `now`: the first poll starts the
/// clock; later polls flip the retrace bit only once 16 ms have passed
/// since the last flip.
pub open spec fn status_polled(v: CgaStatusView, now: u64) -> CgaStatusView {
    match v.last_toggle {
        Option::None => CgaStatusView { status: v.status, last_toggle: Some(now) },
        Option::Some(last) => if now >= last && now - last >= CGA_TOGGLE_PERIOD_NS {
            CgaStatusView { status: v.status ^ 0x08, last_toggle: Some(now) }
        } else {
            v
        },
    }
}

impl CgaStatus {
    /// Status register at power-on: zero, clock not started.
    pub fn new() -> (s: CgaStatus)
        ensures
            s@.status == 0u8,
            s@.last_toggle is None,
    {
        CgaStatus { status: 0, last_toggle: None }
    }

    /// Start the retrace clock at time `now`, as done once at program start.
    pub fn start_clock(&mut self, now: u64)
        ensures
            final(self)@ == (CgaStatusView { last_toggle: Some(now), ..old(self)@ }),
    {
        self.last_toggle = Some(now);
    }

    /// Poll the status register at time `now` and return its (possibly
    /// flipped) value.
    pub fn poll(&mut self, now: u64) -> (r: u8)
        ensures
            final(self)@ == status_polled(old(self)@, now),
            r == status_polled(old(self)@, now).status,
    {
        match self.last_toggle {
            None => {
                self.last_toggle = Some(now);
            },
            Some(last) => {
                if now >= last && now - last >= CGA_TOGGLE_PERIOD_NS {
                    self.status = self.status ^ 0x08;
                    self.last_toggle = Some(now);
                }
            },
        }
        self.status
    }

    /// Overwrite the status byte, as a write to the status port does.
    pub fn store(&mut self, b: u8)
        ensures
            final(self)@ == (CgaStatusView { status: b, ..old(self)@ }),
    {
        self.status = b;
    }
}

} // verus!
