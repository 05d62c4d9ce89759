use vstd::prelude::*;
use crate::color::Color;
use crate::position::Position;
use crate::text::{dec_nat, push_dec_nat, push_char};
use crate::user::User;

verus! {

/// Columns of the canvas.
pub const WIDTH: u32 = 1920;

/// Rows of the canvas.
pub const HEIGHT: u32 = 1080;

/// Bytes of one cell record: three of color, four of author id.
pub const RECORD_SIZE: u64 = 7;

/// Bytes of the whole canvas file.
pub const CANVAS_BYTES: usize = 14_515_200;

/// Why a canvas operation failed.
#[derive(Clone, Debug)]
pub enum StoreError {
    /// The position lies outside the canvas.
    OutOfBounds,
    /// Reading or writing the backing file failed, for the reason given.
    IoFailure(String),
}

impl StoreError {
    /// The human-readable text of the error.
    pub fn message(&self) -> (r: String)
        ensures
            r@ == store_error_text(*self),
    {
        match self {
            StoreError::OutOfBounds => String::from_str("Coordinates out of bounds."),
            StoreError::IoFailure(s) => s.clone(),
        }
    }
}

pub open spec fn store_error_text(e: StoreError) -> Seq<char> {
    match e {
        StoreError::OutOfBounds => "Coordinates out of bounds."@,
        StoreError::IoFailure(s) => s@,
    }
}

/// The position names a cell of the canvas.
pub open spec fn in_bounds(p: Position) -> bool {
    0 <= p.x < WIDTH && 0 <= p.y < HEIGHT
}

/// Where the record of the cell at `p` starts in the canvas file.
pub open spec fn record_offset(p: Position) -> int {
    (p.y as int * WIDTH as int + p.x as int) * RECORD_SIZE as int
}

/// The little-endian bytes of `id`.
pub open spec fn id_bytes(id: i32) -> Seq<u8> {
    let u = id as u32;
    seq![(u & 0xff) as u8, ((u >> 8) & 0xff) as u8, ((u >> 16) & 0xff) as u8, ((u >> 24) & 0xff) as u8]
}

/// The record of a cell painted with `c` by the account `id`.
pub open spec fn record(c: Color, id: i32) -> Seq<u8> {
    seq![c.r, c.g, c.b] + id_bytes(id)
}

/// `cells` with `bytes` written at `offset`.
pub open spec fn written(cells: Seq<u8>, offset: int, bytes: Seq<u8>) -> Seq<u8> {
    cells.subrange(0, offset) + bytes + cells.subrange(offset + bytes.len(), cells.len() as int)
}

/// One record to write into the canvas file: `bytes` at `offset`.
#[derive(Clone, Debug)]
pub struct CellWrite {
    pub offset: u64,
    pub bytes: Vec<u8>,
}

/// What painting `position` with `color` by `author` writes into the canvas
/// file, or `OutOfBounds` for a position outside the canvas.
pub fn process_written_cell(author: &User, position: Position, color: Color) -> (r: Result<
    CellWrite,
    StoreError,
>)
    ensures
        in_bounds(position) ==> (r matches Ok(w) && w.offset == record_offset(position)
            && w.bytes@ == record(color, author@.id as i32)),
        !in_bounds(position) ==> (r matches Err(e) && e is OutOfBounds),
{
    if position.x < 0 || position.x >= WIDTH as i32 || position.y < 0 || position.y
        >= HEIGHT as i32 {
        return Err(StoreError::OutOfBounds);
    }
    let id = author.id();
    let u = id as u32;
    let bytes: Vec<u8> = vec![
        color.r,
        color.g,
        color.b,
        (u & 0xff) as u8,
        ((u >> 8) & 0xff) as u8,
        ((u >> 16) & 0xff) as u8,
        ((u >> 24) & 0xff) as u8,
    ];
    let offset = ((position.y as u64) * (WIDTH as u64) + (position.x as u64)) * RECORD_SIZE;
    assert(bytes@ =~= record(color, id));
    Ok(CellWrite { offset, bytes })
}

/// The bytes of a canvas file that was just created: all zero.
pub fn blank_cells() -> (r: Vec<u8>)
    ensures
        r@.len() == CANVAS_BYTES,
        forall|i: int| 0 <= i < r@.len() ==> r@[i] == 0,
{
    vec![0u8; CANVAS_BYTES]
}

/// A snapshot of the canvas: its size and the bytes of its file.
#[derive(Clone, Debug)]
pub struct CanvasSpec {
    pub columns: u32,
    pub rows: u32,
    pub cells: Vec<u8>,
}

/// The text of the numbers `s`, separated by single spaces.
pub open spec fn joined(s: Seq<u8>) -> Seq<char>
    decreases s.len(),
{
    if s.len() == 0 {
        Seq::<char>::empty()
    } else if s.len() == 1 {
        dec_nat(s[0] as nat)
    } else {
        joined(s.drop_last()) + seq![' '] + dec_nat(s.last() as nat)
    }
}

/// The snapshot of a canvas file whose bytes are `cells`.
pub fn get_canvas_spec(cells: Vec<u8>) -> (r: CanvasSpec)
    ensures
        r.columns == WIDTH,
        r.rows == HEIGHT,
        r.cells@ == cells@,
{
    CanvasSpec { columns: WIDTH, rows: HEIGHT, cells }
}

impl CanvasSpec {
    /// The textual form `<columns>,<rows>,<cells>`, the cells as decimal
    /// numbers separated by spaces.
    pub open spec fn text(&self) -> Seq<char> {
        dec_nat(self.columns as nat) + seq![','] + dec_nat(self.rows as nat) + seq![',']
            + joined(self.cells@)
    }

    pub fn columns(&self) -> (r: u32)
        ensures
            r == self.columns,
    {
        self.columns
    }

    pub fn rows(&self) -> (r: u32)
        ensures
            r == self.rows,
    {
        self.rows
    }

    /// Appends the textual form to `out`.
    pub(crate) fn push_text(&self, out: &mut String)
        ensures
            final(out)@ == old(out)@ + self.text(),
    {
        push_dec_nat(out, self.columns as u64);
        push_char(out, ',');
        push_dec_nat(out, self.rows as u64);
        push_char(out, ',');
        let ghost start = out@;
        let mut i: usize = 0;
        while i < self.cells.len()
            invariant
                i <= self.cells.len(),
                out@ == start + joined(self.cells@.subrange(0, i as int)),
            decreases self.cells.len() - i,
        {
            let ghost pre = self.cells@.subrange(0, i as int);
            let ghost next = self.cells@.subrange(0, i + 1);
            assert(next.drop_last() == pre);
            if i > 0 {
                push_char(out, ' ');
            }
            push_dec_nat(out, self.cells[i] as u64);
            assert(out@ =~= start + joined(next));
            i = i + 1;
        }
        assert(self.cells@.subrange(0, self.cells.len() as int) == self.cells@);
        assert(final(out)@ =~= old(out)@ + self.text());
    }

    /// The textual form `<columns>,<rows>,<cells>`.
    pub fn to_string(&self) -> (r: String)
        ensures
            r@ == self.text(),
    {
        let mut out = String::new();
        self.push_text(&mut out);
        assert(out@ =~= self.text());
        out
    }

    /// Writes `w` into the snapshot; a record that would run past its end is
    /// an `IoFailure` and changes nothing.
    pub fn apply(&mut self, w: &CellWrite) -> (r: Result<(), StoreError>)
        ensures
            final(self).columns == old(self).columns,
            final(self).rows == old(self).rows,
            w.offset + w.bytes@.len() <= old(self).cells@.len() ==> r is Ok && final(self).cells@
                == written(old(self).cells@, w.offset as int, w.bytes@),
            w.offset + w.bytes@.len() > old(self).cells@.len() ==> (r matches Err(e)
                && e is IoFailure && final(self).cells@ == old(self).cells@),
    {
        if w.offset > self.cells.len() as u64 || w.bytes.len() as u64 > self.cells.len() as u64
            - w.offset {
            return Err(StoreError::IoFailure(String::from_str("Cannot write pixel")));
        }
        let start = w.offset as usize;
        let ghost before = self.cells@;
        let mut i: usize = 0;
        while i < w.bytes.len()
            invariant
                start + w.bytes@.len() <= before.len(),
                start == w.offset,
                i <= w.bytes.len(),
                self.cells@.len() == before.len(),
                self.columns == old(self).columns,
                self.rows == old(self).rows,
                forall|j: int|
                    0 <= j < before.len() ==> #[trigger] self.cells@[j] == if start <= j < start
                        + i {
                        w.bytes@[j - start]
                    } else {
                        before[j]
                    },
            decreases w.bytes.len() - i,
        {
            let len = self.cells.len();
            assert(start + i < len);
            self.cells.set(start + i, w.bytes[i]);
            i = i + 1;
        }
        assert(self.cells@ =~= written(before, start as int, w.bytes@));
        Ok(())
    }

    /// Paints `position` with `color` by `author` in the snapshot.
    pub fn write_cell(&mut self, author: &User, position: Position, color: Color) -> (r: Result<
        (),
        StoreError,
    >)
        requires
            old(self).cells@.len() == CANVAS_BYTES,
        ensures
            final(self).columns == old(self).columns,
            final(self).rows == old(self).rows,
            in_bounds(position) ==> r is Ok && final(self).cells@ == written(
                old(self).cells@,
                record_offset(position),
                record(color, author@.id as i32),
            ),
            !in_bounds(position) ==> (r matches Err(e) && e is OutOfBounds && final(self).cells@
                == old(self).cells@),
    {
        match process_written_cell(author, position, color) {
            Err(e) => Err(e),
            Ok(w) => {
                proof {
                    lemma_record_fits(position);
                }
                self.apply(&w)
            },
        }
    }

    /// The record of the cell at `position`: its three color bytes, then the
    /// four bytes of its author's id.
    pub fn read_cell(&self, position: Position) -> (r: Result<Vec<u8>, StoreError>)
        ensures
            in_bounds(position) && record_offset(position) + RECORD_SIZE <= self.cells@.len()
                ==> (r matches Ok(b) && b@ == self.cells@.subrange(
                record_offset(position),
                record_offset(position) + RECORD_SIZE,
            )),
            !in_bounds(position) ==> (r matches Err(e) && e is OutOfBounds),
            in_bounds(position) && record_offset(position) + RECORD_SIZE > self.cells@.len()
                ==> (r matches Err(e) && e is IoFailure),
    {
        if position.x < 0 || position.x >= WIDTH as i32 || position.y < 0 || position.y
            >= HEIGHT as i32 {
            return Err(StoreError::OutOfBounds);
        }
        let offset = ((position.y as u64) * (WIDTH as u64) + (position.x as u64)) * RECORD_SIZE;
        if offset > self.cells.len() as u64 || RECORD_SIZE > self.cells.len() as u64 - offset {
            return Err(StoreError::IoFailure(String::from_str("Cannot read pixel")));
        }
        let start = offset as usize;
        let mut out: Vec<u8> = Vec::new();
        let mut i: usize = 0;
        while i < 7
            invariant
                start == record_offset(position),
                start + 7 <= self.cells@.len(),
                i <= 7,
                out@ == self.cells@.subrange(start as int, start + i),
            decreases 7 - i,
        {
            let len = self.cells.len();
            assert(start + i < len);
            out.push(self.cells[start + i]);
            assert(out@ =~= self.cells@.subrange(start as int, start + i + 1));
            i = i + 1;
        }
        Ok(out)
    }
}

/// A record of a cell of the canvas lies within the canvas file.
pub proof fn lemma_record_fits(p: Position)
    requires
        in_bounds(p),
    ensures
        0 <= record_offset(p),
        record_offset(p) + RECORD_SIZE <= CANVAS_BYTES,
{
    assert(0 <= p.y as int * WIDTH as int <= (HEIGHT as int - 1) * WIDTH as int) by (nonlinear_arith)
        requires
            0 <= p.y < HEIGHT,
    ;
}

/// The records of two different cells do not overlap.
pub proof fn lemma_records_apart(p: Position, q: Position)
    requires
        in_bounds(p),
        in_bounds(q),
        p != q,
    ensures
        record_offset(p) + RECORD_SIZE <= record_offset(q) || record_offset(q) + RECORD_SIZE
            <= record_offset(p),
{
    let ip = p.y as int * WIDTH as int + p.x as int;
    let iq = q.y as int * WIDTH as int + q.x as int;
    if p.y == q.y {
        assert(ip != iq);
    } else if p.y < q.y {
        assert(p.y as int * WIDTH as int + WIDTH as int <= q.y as int * WIDTH as int) by (nonlinear_arith)
            requires
                p.y < q.y,
        ;
    } else {
        assert(q.y as int * WIDTH as int + WIDTH as int <= p.y as int * WIDTH as int) by (nonlinear_arith)
            requires
                q.y < p.y,
        ;
    }
    assert(ip != iq);
}

/// Writing the records of two different cells, in either order, leaves each
/// record readable as written: neither write touches the other's bytes.
pub proof fn lemma_cell_writes_independent(
    cells: Seq<u8>,
    p: Position,
    a: Seq<u8>,
    q: Position,
    b: Seq<u8>,
)
    requires
        cells.len() == CANVAS_BYTES,
        in_bounds(p),
        in_bounds(q),
        p != q,
        a.len() == RECORD_SIZE,
        b.len() == RECORD_SIZE,
    ensures
        ({
            let after = written(written(cells, record_offset(p), a), record_offset(q), b);
            &&& after.len() == CANVAS_BYTES
            &&& after.subrange(record_offset(p), record_offset(p) + RECORD_SIZE) == a
            &&& after.subrange(record_offset(q), record_offset(q) + RECORD_SIZE) == b
        }),
{
    lemma_record_fits(p);
    lemma_record_fits(q);
    lemma_records_apart(p, q);
    let op = record_offset(p);
    let oq = record_offset(q);
    let mid = written(cells, op, a);
    let after = written(mid, oq, b);
    assert(mid.len() == cells.len());
    assert(after.len() == cells.len());
    assert(after.subrange(oq, oq + 7) =~= b);
    assert forall|j: int| 0 <= j < 7 implies after.subrange(op, op + 7)[j] == a[j] by {
        assert(after[op + j] == mid[op + j]);
        assert(mid[op + j] == a[j]);
    }
    assert(after.subrange(op, op + 7) =~= a);
}

/// A record written into the canvas reads back as written.
pub proof fn lemma_cell_write_read(cells: Seq<u8>, p: Position, a: Seq<u8>)
    requires
        cells.len() == CANVAS_BYTES,
        in_bounds(p),
        a.len() == RECORD_SIZE,
    ensures
        written(cells, record_offset(p), a).len() == CANVAS_BYTES,
        written(cells, record_offset(p), a).subrange(
            record_offset(p),
            record_offset(p) + RECORD_SIZE,
        ) == a,
{
    lemma_record_fits(p);
    let op = record_offset(p);
    assert(written(cells, op, a).subrange(op, op + 7) =~= a);
}

} // verus!
