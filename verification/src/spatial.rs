//! Spatial hash grids for broad-phase collision queries: body indices are
//! stored in every cell that their bounding box overlaps, and a query
//! returns each body found in the cells of a box once, in scan order.
//!
//! Cells are addressed by integer coordinates; turning world coordinates
//! into cell coordinates (dividing by the cell size and flooring) is done
//! by the caller.
use vstd::prelude::*;
use std::collections::{HashMap, HashSet};
use std::marker::PhantomData;
use vstd::std_specs::hash::spec_keys_iter;
use vstd::std_specs::iter::IteratorSpec;

verus! {

broadcast use vstd::std_specs::hash::group_hash_axioms;

/// A cell address that packs into one number, distinct addresses into
/// distinct numbers, so that cells can be kept in a hash map.
pub trait CellKey: Copy + Sized {
    /// The number that the address packs into.
    spec fn packed(&self) -> u128;

    /// Packs the address into one number.
    fn pack(&self) -> (r: u128)
        ensures
            r == self.packed(),
    ;

    /// Distinct addresses pack into distinct numbers.
    proof fn lemma_packed_injective(a: Self, b: Self)
        ensures
            a.packed() == b.packed() ==> a == b,
    ;
}

/// The address of a cell of a 2D grid.
#[derive(Clone, Copy, Debug, PartialEq, Eq, Structural)]
pub struct Cell2D {
    pub col: i32,
    pub row: i32,
}

/// The address of a cell of a 3D grid.
#[derive(Clone, Copy, Debug, PartialEq, Eq, Structural)]
pub struct Cell3D {
    pub col: i32,
    pub row: i32,
    pub layer: i32,
}

/// A coordinate shifted into `0..2^32`.
pub open spec fn shifted(x: i32) -> int {
    x as int + 2147483648
}

/// Two-digit numbers in base `2^32` are equal only digit by digit.
proof fn lemma_base_digits(a: int, b: int, c: int, d: int)
    requires
        0 <= b < 4294967296,
        0 <= d < 4294967296,
        a * 4294967296 + b == c * 4294967296 + d,
    ensures
        a == c,
        b == d,
{
    if a < c {
        assert(c * 4294967296 >= a * 4294967296 + 4294967296);
    } else if a > c {
        assert(a * 4294967296 >= c * 4294967296 + 4294967296);
    }
}

impl CellKey for Cell2D {
    open spec fn packed(&self) -> u128 {
        (shifted(self.col) * 4294967296 + shifted(self.row)) as u128
    }

    fn pack(&self) -> (r: u128) {
        let c: u128 = (self.col as i64 + 2147483648i64) as u128;
        let r: u128 = (self.row as i64 + 2147483648i64) as u128;
        c * 4294967296 + r
    }

    proof fn lemma_packed_injective(a: Self, b: Self) {
        if a.packed() == b.packed() {
            lemma_base_digits(shifted(a.col), shifted(a.row), shifted(b.col), shifted(b.row));
        }
    }
}

impl CellKey for Cell3D {
    open spec fn packed(&self) -> u128 {
        ((shifted(self.col) * 4294967296 + shifted(self.row)) * 4294967296 + shifted(self.layer)) as u128
    }

    fn pack(&self) -> (r: u128) {
        let c: u128 = (self.col as i64 + 2147483648i64) as u128;
        let r: u128 = (self.row as i64 + 2147483648i64) as u128;
        let l: u128 = (self.layer as i64 + 2147483648i64) as u128;
        (c * 4294967296 + r) * 4294967296 + l
    }

    proof fn lemma_packed_injective(a: Self, b: Self) {
        if a.packed() == b.packed() {
            let ha = shifted(a.col) * 4294967296 + shifted(a.row);
            let hb = shifted(b.col) * 4294967296 + shifted(b.row);
            lemma_base_digits(ha, shifted(a.layer), hb, shifted(b.layer));
            lemma_base_digits(shifted(a.col), shifted(a.row), shifted(b.col), shifted(b.row));
        }
    }
}

/// The content of the cell at `k` of a map, empty for a cell never used.
pub open spec fn cell_of<K>(m: Map<K, Seq<usize>>, k: K) -> Seq<usize> {
    if m.contains_key(k) {
        m[k]
    } else {
        Seq::empty()
    }
}

/// The values of `s` with every repetition dropped, first occurrences kept
/// in order.
pub open spec fn first_occurrences(s: Seq<usize>) -> Seq<usize>
    decreases s.len(),
{
    if s.len() == 0 {
        Seq::empty()
    } else {
        let d = first_occurrences(s.drop_last());
        if d.contains(s.last()) {
            d
        } else {
            d.push(s.last())
        }
    }
}

pub proof fn lemma_first_occurrences(s: Seq<usize>)
    ensures
        forall|x: usize| first_occurrences(s).contains(x) <==> s.contains(x),
        first_occurrences(s).no_duplicates(),
    decreases s.len(),
{
    if s.len() > 0 {
        lemma_first_occurrences(s.drop_last());
        let d = first_occurrences(s.drop_last());
        assert forall|x: usize| first_occurrences(s).contains(x) <==> s.contains(x) by {
            if s.contains(x) {
                let i = choose|i: int| 0 <= i < s.len() && s[i] == x;
                if i < s.len() - 1 {
                    assert(s.drop_last()[i] == x);
                }
            }
            if s.drop_last().contains(x) {
                let i = choose|i: int| 0 <= i < s.drop_last().len() && s.drop_last()[i] == x;
                assert(s[i] == x);
            }
            if !d.contains(s.last()) && x == s.last() {
                assert(d.push(x)[d.len() as int] == x);
            }
            if !d.contains(s.last()) && d.push(s.last()).contains(x) {
                let i = choose|i: int| 0 <= i < d.push(s.last()).len() && d.push(s.last())[i] == x;
                if i < d.len() {
                    assert(d[i] == x);
                }
            }
            if d.contains(x) {
                let i = choose|i: int| 0 <= i < d.len() && d[i] == x;
                if !d.contains(s.last()) {
                    assert(d.push(s.last())[i] == x);
                }
            }
        }
    }
}

/// The cells of a grid, kept in a hash map under their packed addresses;
/// a cell, once used, stays (possibly empty).
pub struct SpatialCells<K> {
    cells: HashMap<u128, Vec<usize>>,
    address: PhantomData<K>,
}

impl<K: CellKey> SpatialCells<K> {
    /// The cells as a map from address to content.
    pub closed spec fn map(&self) -> Map<K, Seq<usize>> {
        Map::new(|k: K| self.cells@.contains_key(k.packed()), |k: K| self.cells@[k.packed()]@)
    }

    /// No cells.
    pub fn new() -> (r: Self)
        ensures
            r.map() == Map::<K, Seq<usize>>::empty(),
    {
        let r = SpatialCells { cells: HashMap::new(), address: PhantomData };
        assert(r.map() =~= Map::<K, Seq<usize>>::empty());
        r
    }

    /// The content of the cell at `k`, empty for a cell never used.
    pub fn get(&self, k: K) -> (r: &[usize])
        ensures
            r@ == cell_of(self.map(), k),
    {
        let key: u128 = k.pack();
        match self.cells.get(&key) {
            Some(content) => content.as_slice(),
            None => &[],
        }
    }

    /// Appends `index` to the cell at `k`, creating the cell if needed.
    pub fn add(&mut self, k: K, index: usize)
        ensures
            final(self).map() == old(self).map().insert(k, cell_of(old(self).map(), k).push(index)),
    {
        let ghost before = self.map();
        let key: u128 = k.pack();
        let mut content: Vec<usize> = match self.cells.remove(&key) {
            Some(v) => v,
            None => Vec::new(),
        };
        assert(content@ == cell_of(before, k));
        content.push(index);
        self.cells.insert(key, content);
        proof {
            assert forall|q: K| #[trigger] self.map().contains_key(q) == before.insert(
                k,
                cell_of(before, k).push(index),
            ).contains_key(q) && (self.map().contains_key(q) ==> self.map()[q] == before.insert(
                k,
                cell_of(before, k).push(index),
            )[q]) by {
                K::lemma_packed_injective(q, k);
            }
            assert(self.map() =~= before.insert(k, cell_of(before, k).push(index)));
        }
    }

    /// Empties every cell; the cells themselves stay.
    pub fn clear(&mut self)
        ensures
            final(self).map().dom() == old(self).map().dom(),
            forall|k: K| #[trigger] final(self).map().contains_key(k) ==> final(self).map()[k].len() == 0,
    {
        let ghost m0 = self.cells@;
        let ghost ks = spec_keys_iter(&self.cells).remaining();
        let mut keys: Vec<u128> = Vec::new();
        for key in it: self.cells.keys()
            invariant
                it.seq() == ks,
                keys@.len() == it.index(),
                forall|j: int| 0 <= j < keys@.len() ==> keys@[j] == *ks[j],
        {
            keys.push(*key);
        }
        proof {
            assert(keys@.len() == ks.len());
            assert forall|u: u128| m0.contains_key(u) implies keys@.contains(u) by {
                assert(ks.unref().to_set().contains(u));
                assert(ks.unref().contains(u));
                let j = choose|j: int| 0 <= j < ks.unref().len() && ks.unref()[j] == u;
                assert(keys@[j] == u);
            }
            assert forall|j: int| 0 <= j < keys@.len() implies m0.contains_key(#[trigger] keys@[j]) by {
                assert(ks.unref()[j] == keys@[j]);
                assert(ks.unref().contains(keys@[j]));
                assert(ks.unref().to_set().contains(keys@[j]));
            }
        }
        let mut i: usize = 0;
        while i < keys.len()
            invariant
                i <= keys@.len(),
                forall|j: int| 0 <= j < keys@.len() ==> m0.contains_key(#[trigger] keys@[j]),
                self.cells@.dom() == m0.dom(),
                forall|j: int| 0 <= j < i ==> (#[trigger] self.cells@[keys@[j]])@.len() == 0,
            decreases keys@.len() - i,
        {
            let key: u128 = keys[i];
            self.cells.insert(key, Vec::new());
            proof {
                assert(self.cells@.dom() =~= m0.dom());
                assert forall|j: int| 0 <= j < i + 1 implies (#[trigger] self.cells@[keys@[j]])@.len()
                    == 0 by {
                    if keys@[j] != key {
                        assert(j < i);
                    }
                }
            }
            i = i + 1;
        }
        proof {
            assert(self.map().dom() =~= old(self).map().dom());
            assert forall|k: K| #[trigger] self.map().contains_key(k) implies self.map()[k].len() == 0 by {
                let u = k.packed();
                assert(keys@.contains(u));
                let j = choose|j: int| 0 <= j < keys@.len() && keys@[j] == u;
                assert(self.cells@[keys@[j]]@.len() == 0);
            }
        }
    }
}

/// A box of cells in a 2D grid, corners included.
#[derive(Clone, Copy, Debug, PartialEq, Eq)]
pub struct CellRange2D {
    pub min_col: i32,
    pub min_row: i32,
    pub max_col: i32,
    pub max_row: i32,
}

/// The cell `k` lies in the box.
pub open spec fn in_range_2d(r: CellRange2D, k: Cell2D) -> bool {
    r.min_col <= k.col <= r.max_col && r.min_row <= k.row <= r.max_row
}

/// The contents of the cells of column `col` from row `r0` to row `r1`,
/// concatenated in row order.
pub open spec fn column_scan_2d(m: Map<Cell2D, Seq<usize>>, col: int, r0: int, r1: int) -> Seq<
    usize,
>
    decreases r1 - r0 + 1,
{
    if r1 < r0 {
        Seq::empty()
    } else {
        column_scan_2d(m, col, r0, r1 - 1) + cell_of(m, Cell2D { col: col as i32, row: r1 as i32 })
    }
}

/// The contents of the cells of columns `c0` to `c1`, rows `r0` to `r1`,
/// concatenated column by column.
pub open spec fn grid_scan_2d(m: Map<Cell2D, Seq<usize>>, c0: int, c1: int, r0: int, r1: int) -> Seq<
    usize,
>
    decreases c1 - c0 + 1,
{
    if c1 < c0 {
        Seq::empty()
    } else {
        grid_scan_2d(m, c0, c1 - 1, r0, r1) + column_scan_2d(m, c1, r0, r1)
    }
}

/// What a query of the box finds: each body of its cells once, in the order
/// of the scan.
pub open spec fn query_2d(m: Map<Cell2D, Seq<usize>>, r: CellRange2D) -> Seq<usize> {
    first_occurrences(
        grid_scan_2d(m, r.min_col as int, r.max_col as int, r.min_row as int, r.max_row as int),
    )
}

/// The map after inserting `index` into every cell of `r` that the scan
/// has reached before `(col, row)`.
pub open spec fn inserted_2d(
    m: Map<Cell2D, Seq<usize>>,
    r: CellRange2D,
    index: usize,
    col: int,
    row: int,
) -> Map<Cell2D, Seq<usize>> {
    let done = |k: Cell2D| in_range_2d(r, k) && (k.col < col || (k.col == col && k.row < row));
    Map::new(
        |k: Cell2D| m.contains_key(k) || done(k),
        |k: Cell2D| if done(k) { cell_of(m, k).push(index) } else { m[k] },
    )
}

/// A spatial hash grid over 2D cells.
pub struct SpatialHashGrid2D {
    cells: SpatialCells<Cell2D>,
}

/// Adds `x` to the result unless it was already found.
fn push_new(result: &mut Vec<usize>, seen: &mut HashSet<usize>, x: usize, Ghost(scanned): Ghost<Seq<usize>>)
    requires
        old(result)@ == first_occurrences(scanned),
        forall|y: usize| old(seen)@.contains(y) <==> scanned.contains(y),
    ensures
        final(result)@ == first_occurrences(scanned.push(x)),
        forall|y: usize| final(seen)@.contains(y) <==> scanned.push(x).contains(y),
{
    proof {
        lemma_first_occurrences(scanned);
        assert(scanned.push(x).drop_last() =~= scanned);
        assert(scanned.push(x).last() == x);
        assert(first_occurrences(scanned).contains(x) == scanned.contains(x));
        assert(old(seen)@.contains(x) == scanned.contains(x));
        assert(first_occurrences(scanned.push(x)) == if first_occurrences(scanned).contains(x) {
            first_occurrences(scanned)
        } else {
            first_occurrences(scanned).push(x)
        });
    }
    let fresh: bool = seen.insert(x);
    assert(fresh == !old(seen)@.contains(x));
    if fresh {
        result.push(x);
    }
    proof {
        assert forall|y: usize| seen@.contains(y) <==> scanned.push(x).contains(y) by {
            if scanned.contains(y) {
                let i = choose|i: int| 0 <= i < scanned.len() && scanned[i] == y;
                assert(scanned.push(x)[i] == y);
            }
            if y == x {
                assert(scanned.push(x)[scanned.len() as int] == y);
            }
            if scanned.push(x).contains(y) {
                let i = choose|i: int| 0 <= i < scanned.push(x).len() && scanned.push(x)[i] == y;
                if i < scanned.len() {
                    assert(scanned[i] == y);
                }
            }
        }
    }
}

impl SpatialHashGrid2D {
    /// The cells, as a map from address to the body indices they hold.
    pub closed spec fn view_cells(&self) -> Map<Cell2D, Seq<usize>> {
        self.cells.map()
    }

    /// An empty grid.
    pub fn new() -> (r: Self)
        ensures
            r.view_cells() == Map::<Cell2D, Seq<usize>>::empty(),
    {
        SpatialHashGrid2D { cells: SpatialCells::new() }
    }

    /// Inserts body `index` into every cell of the box `r`.
    pub fn insert(&mut self, index: usize, r: CellRange2D)
        ensures
            final(self).view_cells() == after_insert_2d(old(self).view_cells(), index, r),
    {
        let ghost m = self.view_cells();
        let mut col: i64 = r.min_col as i64;
        while col <= r.max_col as i64
            invariant
                r.min_col <= col <= r.max_col + 1 || (r.max_col < r.min_col && col == r.min_col),
                self.view_cells() == inserted_2d(m, r, index, col as int, r.min_row as int),
            decreases r.max_col - col + 1,
        {
            let mut row: i64 = r.min_row as i64;
            while row <= r.max_row as i64
                invariant
                        r.min_col <= col <= r.max_col,
                    r.min_row <= row <= r.max_row + 1 || (r.max_row < r.min_row && row == r.min_row),
                    self.view_cells() == inserted_2d(m, r, index, col as int, row as int),
                decreases r.max_row - row + 1,
            {
                let k: Cell2D = Cell2D { col: col as i32, row: row as i32 };
                let ghost before = self.view_cells();
                self.cells.add(k, index);
                proof {
                    assert(self.view_cells() =~= inserted_2d(m, r, index, col as int, row + 1));
                }
                row = row + 1;
            }
            proof {
                assert(inserted_2d(m, r, index, col as int, row as int) =~= inserted_2d(
                    m,
                    r,
                    index,
                    col + 1,
                    r.min_row as int,
                ));
            }
            col = col + 1;
        }
        proof {
            assert(self.view_cells() =~= after_insert_2d(m, index, r));
        }
    }

    /// Scans the cells of the box `r`, adding each body found to `out`
    /// unless `seen` has it.
    fn scan(&self, r: CellRange2D, out: &mut Vec<usize>, seen: &mut HashSet<usize>)
        requires
            old(out)@.len() == 0,
            old(seen)@ == Set::<usize>::empty(),
        ensures
            final(out)@ == query_2d(self.view_cells(), r),
            forall|y: usize| final(seen)@.contains(y) <==> final(out)@.contains(y),
    {
        let ghost m = self.view_cells();
        let ghost c0 = r.min_col as int;
        let ghost r0 = r.min_row as int;
        let ghost r1 = r.max_row as int;
        let ghost mut scanned: Seq<usize> = Seq::empty();
        assert(out@ =~= first_occurrences(scanned));
        let mut col: i64 = r.min_col as i64;
        while col <= r.max_col as i64
            invariant
                m == self.view_cells(),
                c0 == r.min_col && r0 == r.min_row && r1 == r.max_row,
                r.min_col <= col <= r.max_col + 1 || (r.max_col < r.min_col && col == r.min_col),
                scanned == grid_scan_2d(m, c0, col - 1, r0, r1),
                out@ == first_occurrences(scanned),
                forall|y: usize| seen@.contains(y) <==> scanned.contains(y),
            decreases r.max_col - col + 1,
        {
            let ghost before_col = scanned;
            let mut row: i64 = r.min_row as i64;
            while row <= r.max_row as i64
                invariant
                        m == self.view_cells(),
                    c0 == r.min_col && r0 == r.min_row && r1 == r.max_row,
                    r.min_col <= col <= r.max_col,
                    r.min_row <= row <= r.max_row + 1 || (r.max_row < r.min_row && row == r.min_row),
                    scanned == before_col + column_scan_2d(m, col as int, r0, row - 1),
                    out@ == first_occurrences(scanned),
                    forall|y: usize| seen@.contains(y) <==> scanned.contains(y),
                decreases r.max_row - row + 1,
            {
                let entries: &[usize] = self.cells.get(Cell2D { col: col as i32, row: row as i32 });
                let ghost before_cell = scanned;
                let mut j: usize = 0;
                while j < entries.len()
                    invariant
                        j <= entries@.len(),
                        scanned == before_cell + entries@.subrange(0, j as int),
                        out@ == first_occurrences(scanned),
                        forall|y: usize| seen@.contains(y) <==> scanned.contains(y),
                    decreases entries@.len() - j,
                {
                    push_new(out, seen, entries[j], Ghost(scanned));
                    proof {
                        scanned = scanned.push(entries@[j as int]);
                        assert(scanned =~= before_cell + entries@.subrange(0, j + 1));
                    }
                    j = j + 1;
                }
                proof {
                    assert(entries@.subrange(0, entries@.len() as int) =~= entries@);
                    assert(scanned =~= before_col + column_scan_2d(m, col as int, r0, row as int));
                }
                row = row + 1;
            }
            proof {
                assert(scanned =~= grid_scan_2d(m, c0, col as int, r0, r1));
            }
            col = col + 1;
        }
        proof {
            lemma_first_occurrences(scanned);
            assert forall|y: usize| seen@.contains(y) <==> out@.contains(y) by {
                assert(seen@.contains(y) <==> scanned.contains(y));
                assert(first_occurrences(scanned).contains(y) <==> scanned.contains(y));
            }
        }
    }

    /// Every body in the cells of the box `r`, each once, in the order the
    /// cells are scanned (column by column, row by row within a column).
    pub fn query(&self, r: CellRange2D) -> (result: Vec<usize>)
        ensures
            result@ == query_2d(self.view_cells(), r),
    {
        let mut seen: HashSet<usize> = HashSet::new();
        let mut result: Vec<usize> = Vec::new();
        self.scan(r, &mut result, &mut seen);
        result
    }

    /// `query`, writing into `out` and using `seen` as scratch space; both are
    /// cleared first so that the caller can reuse them across queries.
    pub fn query_into(&self, r: CellRange2D, out: &mut Vec<usize>, seen: &mut HashSet<usize>)
        ensures
            final(out)@ == query_2d(self.view_cells(), r),
            forall|y: usize| final(seen)@.contains(y) <==> final(out)@.contains(y),
    {
        out.clear();
        seen.clear();
        self.scan(r, out, seen);
    }

    /// Empties every cell, keeping the cells for the next round of inserts.
    pub fn clear(&mut self)
        ensures
            final(self).view_cells().dom() == old(self).view_cells().dom(),
            forall|k: Cell2D| #[trigger] final(self).view_cells().contains_key(k)
                ==> final(self).view_cells()[k].len() == 0,
    {
        self.cells.clear();
    }
}

/// A box of cells in a 3D grid, corners included.
#[derive(Clone, Copy, Debug, PartialEq, Eq)]
pub struct CellRange3D {
    pub min_col: i32,
    pub min_row: i32,
    pub min_layer: i32,
    pub max_col: i32,
    pub max_row: i32,
    pub max_layer: i32,
}

/// The cell `k` lies in the box.
pub open spec fn in_range_3d(r: CellRange3D, k: Cell3D) -> bool {
    &&& r.min_col <= k.col <= r.max_col
    &&& r.min_row <= k.row <= r.max_row
    &&& r.min_layer <= k.layer <= r.max_layer
}

/// The contents of the cells of one (column, row) line from layer `l0` to
/// layer `l1`, concatenated in layer order.
pub open spec fn line_scan_3d(m: Map<Cell3D, Seq<usize>>, col: int, row: int, l0: int, l1: int) -> Seq<
    usize,
>
    decreases l1 - l0 + 1,
{
    if l1 < l0 {
        Seq::empty()
    } else {
        line_scan_3d(m, col, row, l0, l1 - 1) + cell_of(
            m,
            Cell3D { col: col as i32, row: row as i32, layer: l1 as i32 },
        )
    }
}

/// The contents of the cells of column `col`, rows `r0` to `r1`, layers
/// `l0` to `l1`, concatenated row by row.
pub open spec fn column_scan_3d(
    m: Map<Cell3D, Seq<usize>>,
    col: int,
    r0: int,
    r1: int,
    l0: int,
    l1: int,
) -> Seq<usize>
    decreases r1 - r0 + 1,
{
    if r1 < r0 {
        Seq::empty()
    } else {
        column_scan_3d(m, col, r0, r1 - 1, l0, l1) + line_scan_3d(m, col, r1, l0, l1)
    }
}

/// The contents of the cells of the box, concatenated column by column.
pub open spec fn grid_scan_3d(
    m: Map<Cell3D, Seq<usize>>,
    c0: int,
    c1: int,
    r0: int,
    r1: int,
    l0: int,
    l1: int,
) -> Seq<usize>
    decreases c1 - c0 + 1,
{
    if c1 < c0 {
        Seq::empty()
    } else {
        grid_scan_3d(m, c0, c1 - 1, r0, r1, l0, l1) + column_scan_3d(m, c1, r0, r1, l0, l1)
    }
}

/// What a query of the box finds: each body of its cells once, in the order
/// of the scan.
pub open spec fn query_3d(m: Map<Cell3D, Seq<usize>>, r: CellRange3D) -> Seq<usize> {
    first_occurrences(
        grid_scan_3d(
            m,
            r.min_col as int,
            r.max_col as int,
            r.min_row as int,
            r.max_row as int,
            r.min_layer as int,
            r.max_layer as int,
        ),
    )
}

/// The cell `k` comes before `(col, row, layer)` in the scan order.
pub open spec fn before_3d(k: Cell3D, col: int, row: int, layer: int) -> bool {
    k.col < col || (k.col == col && (k.row < row || (k.row == row && k.layer < layer)))
}

/// The map after inserting `index` into every cell of `r` that the scan
/// has reached before `(col, row, layer)`.
pub open spec fn inserted_3d(
    m: Map<Cell3D, Seq<usize>>,
    r: CellRange3D,
    index: usize,
    col: int,
    row: int,
    layer: int,
) -> Map<Cell3D, Seq<usize>> {
    Map::new(
        |k: Cell3D| m.contains_key(k) || (in_range_3d(r, k) && before_3d(k, col, row, layer)),
        |k: Cell3D|
            if in_range_3d(r, k) && before_3d(k, col, row, layer) {
                cell_of(m, k).push(index)
            } else {
                m[k]
            },
    )
}

/// A spatial hash grid over 3D cells.
pub struct SpatialHashGrid3D {
    cells: SpatialCells<Cell3D>,
}

impl SpatialHashGrid3D {
    /// The cells, as a map from address to the body indices they hold.
    pub closed spec fn view_cells(&self) -> Map<Cell3D, Seq<usize>> {
        self.cells.map()
    }

    /// An empty grid.
    pub fn new() -> (r: Self)
        ensures
            r.view_cells() == Map::<Cell3D, Seq<usize>>::empty(),
    {
        SpatialHashGrid3D { cells: SpatialCells::new() }
    }

    /// Inserts body `index` into every cell of the box `r`.
    pub fn insert(&mut self, index: usize, r: CellRange3D)
        ensures
            final(self).view_cells() == after_insert_3d(old(self).view_cells(), index, r),
    {
        let ghost m = self.view_cells();
        let mut col: i64 = r.min_col as i64;
        while col <= r.max_col as i64
            invariant
                r.min_col <= col <= r.max_col + 1 || (r.max_col < r.min_col && col == r.min_col),
                self.view_cells() == inserted_3d(
                    m,
                    r,
                    index,
                    col as int,
                    r.min_row as int,
                    r.min_layer as int,
                ),
            decreases r.max_col - col + 1,
        {
            let mut row: i64 = r.min_row as i64;
            while row <= r.max_row as i64
                invariant
                        r.min_col <= col <= r.max_col,
                    r.min_row <= row <= r.max_row + 1 || (r.max_row < r.min_row && row == r.min_row),
                    self.view_cells() == inserted_3d(
                        m,
                        r,
                        index,
                        col as int,
                        row as int,
                        r.min_layer as int,
                    ),
                decreases r.max_row - row + 1,
            {
                let mut layer: i64 = r.min_layer as i64;
                while layer <= r.max_layer as i64
                    invariant
                                r.min_col <= col <= r.max_col,
                        r.min_row <= row <= r.max_row,
                        r.min_layer <= layer <= r.max_layer + 1 || (r.max_layer < r.min_layer
                            && layer == r.min_layer),
                        self.view_cells() == inserted_3d(
                            m,
                            r,
                            index,
                            col as int,
                            row as int,
                            layer as int,
                        ),
                    decreases r.max_layer - layer + 1,
                {
                    let k: Cell3D = Cell3D { col: col as i32, row: row as i32, layer: layer as i32 };
                    self.cells.add(k, index);
                    proof {
                        assert(self.view_cells() =~= inserted_3d(
                            m,
                            r,
                            index,
                            col as int,
                            row as int,
                            layer + 1,
                        ));
                    }
                    layer = layer + 1;
                }
                proof {
                    assert(inserted_3d(m, r, index, col as int, row as int, layer as int)
                        =~= inserted_3d(m, r, index, col as int, row + 1, r.min_layer as int));
                }
                row = row + 1;
            }
            proof {
                assert(inserted_3d(m, r, index, col as int, row as int, r.min_layer as int)
                    =~= inserted_3d(m, r, index, col + 1, r.min_row as int, r.min_layer as int));
            }
            col = col + 1;
        }
        proof {
            assert(self.view_cells() =~= after_insert_3d(m, index, r));
        }
    }

    /// Scans the cells of the box `r`, adding each body found to `out`
    /// unless `seen` has it.
    fn scan(&self, r: CellRange3D, out: &mut Vec<usize>, seen: &mut HashSet<usize>)
        requires
            old(out)@.len() == 0,
            old(seen)@ == Set::<usize>::empty(),
        ensures
            final(out)@ == query_3d(self.view_cells(), r),
            forall|y: usize| final(seen)@.contains(y) <==> final(out)@.contains(y),
    {
        let ghost m = self.view_cells();
        let ghost c0 = r.min_col as int;
        let ghost r0 = r.min_row as int;
        let ghost r1 = r.max_row as int;
        let ghost l0 = r.min_layer as int;
        let ghost l1 = r.max_layer as int;
        let ghost mut scanned: Seq<usize> = Seq::empty();
        assert(out@ =~= first_occurrences(scanned));
        let mut col: i64 = r.min_col as i64;
        while col <= r.max_col as i64
            invariant
                m == self.view_cells(),
                c0 == r.min_col && r0 == r.min_row && r1 == r.max_row,
                l0 == r.min_layer && l1 == r.max_layer,
                r.min_col <= col <= r.max_col + 1 || (r.max_col < r.min_col && col == r.min_col),
                scanned == grid_scan_3d(m, c0, col - 1, r0, r1, l0, l1),
                out@ == first_occurrences(scanned),
                forall|y: usize| seen@.contains(y) <==> scanned.contains(y),
            decreases r.max_col - col + 1,
        {
            let ghost before_col = scanned;
            let mut row: i64 = r.min_row as i64;
            while row <= r.max_row as i64
                invariant
                        m == self.view_cells(),
                    c0 == r.min_col && r0 == r.min_row && r1 == r.max_row,
                    l0 == r.min_layer && l1 == r.max_layer,
                    r.min_col <= col <= r.max_col,
                    r.min_row <= row <= r.max_row + 1 || (r.max_row < r.min_row && row == r.min_row),
                    scanned == before_col + column_scan_3d(m, col as int, r0, row - 1, l0, l1),
                    out@ == first_occurrences(scanned),
                    forall|y: usize| seen@.contains(y) <==> scanned.contains(y),
                decreases r.max_row - row + 1,
            {
                let ghost before_row = scanned;
                let mut layer: i64 = r.min_layer as i64;
                while layer <= r.max_layer as i64
                    invariant
                                m == self.view_cells(),
                        l0 == r.min_layer && l1 == r.max_layer,
                        r.min_col <= col <= r.max_col,
                        r.min_row <= row <= r.max_row,
                        r.min_layer <= layer <= r.max_layer + 1 || (r.max_layer < r.min_layer
                            && layer == r.min_layer),
                        scanned == before_row + line_scan_3d(m, col as int, row as int, l0, layer - 1),
                        out@ == first_occurrences(scanned),
                        forall|y: usize| seen@.contains(y) <==> scanned.contains(y),
                    decreases r.max_layer - layer + 1,
                {
                    let entries: &[usize] = self.cells.get(
                        Cell3D { col: col as i32, row: row as i32, layer: layer as i32 },
                    );
                    let ghost before_cell = scanned;
                    let mut j: usize = 0;
                    while j < entries.len()
                        invariant
                            j <= entries@.len(),
                            scanned == before_cell + entries@.subrange(0, j as int),
                            out@ == first_occurrences(scanned),
                            forall|y: usize| seen@.contains(y) <==> scanned.contains(y),
                        decreases entries@.len() - j,
                    {
                        push_new(out, seen, entries[j], Ghost(scanned));
                        proof {
                            scanned = scanned.push(entries@[j as int]);
                            assert(scanned =~= before_cell + entries@.subrange(0, j + 1));
                        }
                        j = j + 1;
                    }
                    proof {
                        assert(entries@.subrange(0, entries@.len() as int) =~= entries@);
                        assert(scanned =~= before_row + line_scan_3d(
                            m,
                            col as int,
                            row as int,
                            l0,
                            layer as int,
                        ));
                    }
                    layer = layer + 1;
                }
                proof {
                    assert(scanned =~= before_col + column_scan_3d(
                        m,
                        col as int,
                        r0,
                        row as int,
                        l0,
                        l1,
                    ));
                }
                row = row + 1;
            }
            proof {
                assert(scanned =~= grid_scan_3d(m, c0, col as int, r0, r1, l0, l1));
            }
            col = col + 1;
        }
        proof {
            lemma_first_occurrences(scanned);
            assert forall|y: usize| seen@.contains(y) <==> out@.contains(y) by {
                assert(seen@.contains(y) <==> scanned.contains(y));
                assert(first_occurrences(scanned).contains(y) <==> scanned.contains(y));
            }
        }
    }

    /// Every body in the cells of the box `r`, each once, in the order the
    /// cells are scanned (by column, then row, then layer).
    pub fn query(&self, r: CellRange3D) -> (result: Vec<usize>)
        ensures
            result@ == query_3d(self.view_cells(), r),
    {
        let mut seen: HashSet<usize> = HashSet::new();
        let mut result: Vec<usize> = Vec::new();
        self.scan(r, &mut result, &mut seen);
        result
    }

    /// `query`, writing into `out` and using `seen` as scratch space; both are
    /// cleared first so that the caller can reuse them across queries.
    pub fn query_into(&self, r: CellRange3D, out: &mut Vec<usize>, seen: &mut HashSet<usize>)
        ensures
            final(out)@ == query_3d(self.view_cells(), r),
            forall|y: usize| final(seen)@.contains(y) <==> final(out)@.contains(y),
    {
        out.clear();
        seen.clear();
        self.scan(r, out, seen);
    }

    /// Empties every cell, keeping the cells for the next round of inserts.
    pub fn clear(&mut self)
        ensures
            final(self).view_cells().dom() == old(self).view_cells().dom(),
            forall|k: Cell3D| #[trigger] final(self).view_cells().contains_key(k)
                ==> final(self).view_cells()[k].len() == 0,
    {
        self.cells.clear();
    }
}


// ---------------------------------------------------------------------
// Laws
// ---------------------------------------------------------------------

/// Some cell of column `col`, rows `r0` to `r1`, holds `x`.
pub open spec fn column_holds_2d(m: Map<Cell2D, Seq<usize>>, col: int, r0: int, r1: int, x: usize) -> bool {
    exists|row: int| r0 <= row <= r1 && #[trigger] cell_of(m, Cell2D { col: col as i32, row: row as i32 }).contains(x)
}

/// Some cell of columns `c0` to `c1`, rows `r0` to `r1`, holds `x`.
pub open spec fn box_holds_2d(m: Map<Cell2D, Seq<usize>>, c0: int, c1: int, r0: int, r1: int, x: usize) -> bool {
    exists|col: int| c0 <= col <= c1 && #[trigger] column_holds_2d(m, col, r0, r1, x)
}

proof fn lemma_column_scan_2d(m: Map<Cell2D, Seq<usize>>, col: int, r0: int, r1: int, x: usize)
    ensures
        column_scan_2d(m, col, r0, r1).contains(x) <==> column_holds_2d(m, col, r0, r1, x),
    decreases r1 - r0 + 1,
{
    broadcast use vstd::seq_lib::lemma_seq_concat_contains_all_elements;
    if r1 >= r0 {
        lemma_column_scan_2d(m, col, r0, r1 - 1, x);
        let c = cell_of(m, Cell2D { col: col as i32, row: r1 as i32 });
        if column_holds_2d(m, col, r0, r1, x) && !c.contains(x) {
            let row = choose|row: int| r0 <= row <= r1 && #[trigger] cell_of(m, Cell2D { col: col as i32, row: row as i32 }).contains(x);
            assert(row != r1);
            assert(column_holds_2d(m, col, r0, r1 - 1, x));
        }
        if column_holds_2d(m, col, r0, r1 - 1, x) {
            let row = choose|row: int| r0 <= row <= r1 - 1 && #[trigger] cell_of(m, Cell2D { col: col as i32, row: row as i32 }).contains(x);
            assert(cell_of(m, Cell2D { col: col as i32, row: row as i32 }).contains(x));
        }
        if c.contains(x) {
            assert(cell_of(m, Cell2D { col: col as i32, row: r1 as i32 }).contains(x));
        }
    } else {
        if column_holds_2d(m, col, r0, r1, x) {
            let row = choose|row: int| r0 <= row <= r1 && #[trigger] cell_of(m, Cell2D { col: col as i32, row: row as i32 }).contains(x);
        }
    }
}

proof fn lemma_grid_scan_2d(m: Map<Cell2D, Seq<usize>>, c0: int, c1: int, r0: int, r1: int, x: usize)
    ensures
        grid_scan_2d(m, c0, c1, r0, r1).contains(x) <==> box_holds_2d(m, c0, c1, r0, r1, x),
    decreases c1 - c0 + 1,
{
    broadcast use vstd::seq_lib::lemma_seq_concat_contains_all_elements;
    if c1 >= c0 {
        lemma_grid_scan_2d(m, c0, c1 - 1, r0, r1, x);
        lemma_column_scan_2d(m, c1, r0, r1, x);
        if box_holds_2d(m, c0, c1, r0, r1, x) && !column_holds_2d(m, c1, r0, r1, x) {
            let col = choose|col: int| c0 <= col <= c1 && #[trigger] column_holds_2d(m, col, r0, r1, x);
            assert(box_holds_2d(m, c0, c1 - 1, r0, r1, x));
        }
        if box_holds_2d(m, c0, c1 - 1, r0, r1, x) {
            let col = choose|col: int| c0 <= col <= c1 - 1 && #[trigger] column_holds_2d(m, col, r0, r1, x);
            assert(column_holds_2d(m, col, r0, r1, x));
        }
        if column_holds_2d(m, c1, r0, r1, x) {
            assert(box_holds_2d(m, c0, c1, r0, r1, x));
        }
    } else {
        if box_holds_2d(m, c0, c1, r0, r1, x) {
            let col = choose|col: int| c0 <= col <= c1 && #[trigger] column_holds_2d(m, col, r0, r1, x);
        }
    }
}

/// A query of a box returns each body stored in one of its cells, and only
/// those, each exactly once.
pub proof fn law_query_2d_exact(m: Map<Cell2D, Seq<usize>>, r: CellRange2D)
    ensures
        query_2d(m, r).no_duplicates(),
        forall|x: usize| #[trigger] query_2d(m, r).contains(x) <==> exists|k: Cell2D|
            in_range_2d(r, k) && #[trigger] cell_of(m, k).contains(x),
{
    let g = grid_scan_2d(m, r.min_col as int, r.max_col as int, r.min_row as int, r.max_row as int);
    lemma_first_occurrences(g);
    assert forall|x: usize| #[trigger] query_2d(m, r).contains(x) <==> exists|k: Cell2D|
        in_range_2d(r, k) && #[trigger] cell_of(m, k).contains(x) by {
        lemma_grid_scan_2d(m, r.min_col as int, r.max_col as int, r.min_row as int, r.max_row as int, x);
        if box_holds_2d(m, r.min_col as int, r.max_col as int, r.min_row as int, r.max_row as int, x) {
            let col = choose|col: int| r.min_col <= col <= r.max_col && #[trigger] column_holds_2d(m, col, r.min_row as int, r.max_row as int, x);
            let row = choose|row: int| r.min_row <= row <= r.max_row && #[trigger] cell_of(m, Cell2D { col: col as i32, row: row as i32 }).contains(x);
            let k = Cell2D { col: col as i32, row: row as i32 };
            assert(in_range_2d(r, k));
        }
        if exists|k: Cell2D| in_range_2d(r, k) && #[trigger] cell_of(m, k).contains(x) {
            let k = choose|k: Cell2D| in_range_2d(r, k) && #[trigger] cell_of(m, k).contains(x);
            assert(k == Cell2D { col: k.col as int as i32, row: k.row as int as i32 });
            assert(column_holds_2d(m, k.col as int, r.min_row as int, r.max_row as int, x));
            assert(box_holds_2d(m, r.min_col as int, r.max_col as int, r.min_row as int, r.max_row as int, x));
        }
    }
}

/// The cell map after inserting `index` into every cell of `r`, as
/// `SpatialHashGrid2D::insert` leaves it.
pub open spec fn after_insert_2d(m: Map<Cell2D, Seq<usize>>, index: usize, r: CellRange2D) -> Map<Cell2D, Seq<usize>> {
    Map::new(
        |k: Cell2D| m.contains_key(k) || in_range_2d(r, k),
        |k: Cell2D| if in_range_2d(r, k) { cell_of(m, k).push(index) } else { m[k] },
    )
}

/// A body inserted into the cells of one box is found by every query of a
/// box that shares a cell with it.
pub proof fn law_inserted_body_found_2d(m: Map<Cell2D, Seq<usize>>, index: usize, r: CellRange2D, q: CellRange2D, k: Cell2D)
    requires
        in_range_2d(r, k),
        in_range_2d(q, k),
    ensures
        query_2d(after_insert_2d(m, index, r), q).contains(index),
{
    let m2 = after_insert_2d(m, index, r);
    assert(cell_of(m2, k) == cell_of(m, k).push(index));
    assert(cell_of(m2, k)[cell_of(m, k).len() as int] == index);
    assert(cell_of(m2, k).contains(index));
    law_query_2d_exact(m2, q);
}

/// A later insert never loses a body: whatever a query of box `q` finds, it
/// still finds after any body is inserted into any box, so a body stays
/// found across inserts until the grid is cleared.
pub proof fn law_insert_keeps_found_2d(m: Map<Cell2D, Seq<usize>>, index: usize, r: CellRange2D, q: CellRange2D, body: usize)
    requires
        query_2d(m, q).contains(body),
    ensures
        query_2d(after_insert_2d(m, index, r), q).contains(body),
{
    law_query_2d_exact(m, q);
    let k = choose|k: Cell2D| in_range_2d(q, k) && #[trigger] cell_of(m, k).contains(body);
    let m2 = after_insert_2d(m, index, r);
    let i = choose|i: int| 0 <= i < cell_of(m, k).len() && cell_of(m, k)[i] == body;
    if in_range_2d(r, k) {
        assert(cell_of(m2, k) == cell_of(m, k).push(index));
        assert(cell_of(m2, k)[i] == body);
    } else {
        assert(cell_of(m2, k) == cell_of(m, k));
    }
    assert(cell_of(m2, k).contains(body));
    law_query_2d_exact(m2, q);
}

/// The cell map after the inserts of `ops`, in order; each is a body index
/// and the box of cells it goes into.
pub open spec fn inserts_2d(m: Map<Cell2D, Seq<usize>>, ops: Seq<(usize, CellRange2D)>) -> Map<Cell2D, Seq<usize>>
    decreases ops.len(),
{
    if ops.len() == 0 {
        m
    } else {
        after_insert_2d(inserts_2d(m, ops.drop_last()), ops.last().0, ops.last().1)
    }
}

/// Every cell is empty, as `clear` leaves the grid.
pub open spec fn all_empty_2d(m: Map<Cell2D, Seq<usize>>) -> bool {
    forall|k: Cell2D| #[trigger] m.contains_key(k) ==> m[k].len() == 0
}

proof fn lemma_inserts_found_2d(m: Map<Cell2D, Seq<usize>>, ops: Seq<(usize, CellRange2D)>, q: CellRange2D, j: int, k: Cell2D)
    requires
        0 <= j < ops.len(),
        in_range_2d(ops[j].1, k),
        in_range_2d(q, k),
    ensures
        query_2d(inserts_2d(m, ops), q).contains(ops[j].0),
    decreases ops.len(),
{
    let prefix = ops.drop_last();
    if j == ops.len() - 1 {
        law_inserted_body_found_2d(inserts_2d(m, prefix), ops[j].0, ops[j].1, q, k);
    } else {
        assert(prefix[j] == ops[j]);
        lemma_inserts_found_2d(m, prefix, q, j, k);
        law_insert_keeps_found_2d(inserts_2d(m, prefix), ops.last().0, ops.last().1, q, ops[j].0);
    }
}

proof fn lemma_inserts_origin_2d(m: Map<Cell2D, Seq<usize>>, ops: Seq<(usize, CellRange2D)>, k: Cell2D, x: usize)
    requires
        cell_of(inserts_2d(m, ops), k).contains(x),
    ensures
        cell_of(m, k).contains(x) || exists|j: int|
            0 <= j < ops.len() && (#[trigger] ops[j]).0 == x && in_range_2d(ops[j].1, k),
    decreases ops.len(),
{
    if ops.len() > 0 {
        let prefix = ops.drop_last();
        let m1 = inserts_2d(m, prefix);
        let idx = ops.last().0;
        let r = ops.last().1;
        let c1 = cell_of(m1, k);
        if in_range_2d(r, k) {
            assert(cell_of(inserts_2d(m, ops), k) == c1.push(idx));
            if x == idx {
                assert(ops[ops.len() - 1].0 == x);
            } else {
                let i = choose|i: int| 0 <= i < c1.push(idx).len() && c1.push(idx)[i] == x;
                assert(i < c1.len());
                assert(c1[i] == x);
            }
        } else {
            assert(cell_of(inserts_2d(m, ops), k) == c1);
        }
        if x != idx || !in_range_2d(r, k) {
            assert(c1.contains(x));
            lemma_inserts_origin_2d(m, prefix, k, x);
            if !cell_of(m, k).contains(x) {
                let j = choose|j: int| 0 <= j < prefix.len() && (#[trigger] prefix[j]).0 == x && in_range_2d(prefix[j].1, k);
                assert(ops[j] == prefix[j]);
            }
        }
    }
}

/// What a query finds after a clear and a run of inserts: each body at
/// most once; only bodies inserted since the clear into a cell of the
/// query's box; and every body inserted since the clear into a cell of
/// the query's box.
pub proof fn law_query_after_inserts_2d(m: Map<Cell2D, Seq<usize>>, ops: Seq<(usize, CellRange2D)>, q: CellRange2D)
    requires
        all_empty_2d(m),
    ensures
        query_2d(inserts_2d(m, ops), q).no_duplicates(),
        forall|x: usize| #[trigger] query_2d(inserts_2d(m, ops), q).contains(x) ==> exists|j: int, k: Cell2D|
            0 <= j < ops.len() && (#[trigger] ops[j]).0 == x && in_range_2d(ops[j].1, k) && #[trigger] in_range_2d(q, k),
        forall|j: int, k: Cell2D| 0 <= j < ops.len() && in_range_2d(#[trigger] ops[j].1, k) && #[trigger] in_range_2d(q, k)
            ==> query_2d(inserts_2d(m, ops), q).contains(ops[j].0),
{
    let n = inserts_2d(m, ops);
    law_query_2d_exact(n, q);
    assert forall|x: usize| #[trigger] query_2d(n, q).contains(x) implies exists|j: int, k: Cell2D|
        0 <= j < ops.len() && (#[trigger] ops[j]).0 == x && in_range_2d(ops[j].1, k) && #[trigger] in_range_2d(q, k) by {
        let k = choose|k: Cell2D| in_range_2d(q, k) && #[trigger] cell_of(n, k).contains(x);
        lemma_inserts_origin_2d(m, ops, k, x);
        assert(!cell_of(m, k).contains(x));
        let j = choose|j: int| 0 <= j < ops.len() && (#[trigger] ops[j]).0 == x && in_range_2d(ops[j].1, k);
    }
    assert forall|j: int, k: Cell2D| 0 <= j < ops.len() && in_range_2d(#[trigger] ops[j].1, k) && #[trigger] in_range_2d(q, k)
        implies query_2d(n, q).contains(ops[j].0) by {
        lemma_inserts_found_2d(m, ops, q, j, k);
    }
}


/// Some cell of line (`col`, `row`), layers `l0` to `l1`, holds `x`.
pub open spec fn line_holds_3d(m: Map<Cell3D, Seq<usize>>, col: int, row: int, l0: int, l1: int, x: usize) -> bool {
    exists|layer: int| l0 <= layer <= l1 && #[trigger] cell_of(m, Cell3D { col: col as i32, row: row as i32, layer: layer as i32 }).contains(x)
}

/// Some line of column `col`, rows `r0` to `r1`, holds `x`.
pub open spec fn column_holds_3d(m: Map<Cell3D, Seq<usize>>, col: int, r0: int, r1: int, l0: int, l1: int, x: usize) -> bool {
    exists|row: int| r0 <= row <= r1 && #[trigger] line_holds_3d(m, col, row, l0, l1, x)
}

/// Some column of the box holds `x`.
pub open spec fn box_holds_3d(m: Map<Cell3D, Seq<usize>>, c0: int, c1: int, r0: int, r1: int, l0: int, l1: int, x: usize) -> bool {
    exists|col: int| c0 <= col <= c1 && #[trigger] column_holds_3d(m, col, r0, r1, l0, l1, x)
}

proof fn lemma_line_scan_3d(m: Map<Cell3D, Seq<usize>>, col: int, row: int, l0: int, l1: int, x: usize)
    ensures
        line_scan_3d(m, col, row, l0, l1).contains(x) <==> line_holds_3d(m, col, row, l0, l1, x),
    decreases l1 - l0 + 1,
{
    broadcast use vstd::seq_lib::lemma_seq_concat_contains_all_elements;
    if l1 >= l0 {
        lemma_line_scan_3d(m, col, row, l0, l1 - 1, x);
        let c = cell_of(m, Cell3D { col: col as i32, row: row as i32, layer: l1 as i32 });
        if line_holds_3d(m, col, row, l0, l1, x) && !c.contains(x) {
            let layer = choose|layer: int| l0 <= layer <= l1 && #[trigger] cell_of(m, Cell3D { col: col as i32, row: row as i32, layer: layer as i32 }).contains(x);
            assert(layer != l1);
            assert(line_holds_3d(m, col, row, l0, l1 - 1, x));
        }
        if line_holds_3d(m, col, row, l0, l1 - 1, x) {
            let layer = choose|layer: int| l0 <= layer <= l1 - 1 && #[trigger] cell_of(m, Cell3D { col: col as i32, row: row as i32, layer: layer as i32 }).contains(x);
            assert(cell_of(m, Cell3D { col: col as i32, row: row as i32, layer: layer as i32 }).contains(x));
        }
        if c.contains(x) {
            assert(cell_of(m, Cell3D { col: col as i32, row: row as i32, layer: l1 as i32 }).contains(x));
        }
    } else {
        if line_holds_3d(m, col, row, l0, l1, x) {
            let layer = choose|layer: int| l0 <= layer <= l1 && #[trigger] cell_of(m, Cell3D { col: col as i32, row: row as i32, layer: layer as i32 }).contains(x);
        }
    }
}

proof fn lemma_column_scan_3d(m: Map<Cell3D, Seq<usize>>, col: int, r0: int, r1: int, l0: int, l1: int, x: usize)
    ensures
        column_scan_3d(m, col, r0, r1, l0, l1).contains(x) <==> column_holds_3d(m, col, r0, r1, l0, l1, x),
    decreases r1 - r0 + 1,
{
    broadcast use vstd::seq_lib::lemma_seq_concat_contains_all_elements;
    if r1 >= r0 {
        lemma_column_scan_3d(m, col, r0, r1 - 1, l0, l1, x);
        lemma_line_scan_3d(m, col, r1, l0, l1, x);
        if column_holds_3d(m, col, r0, r1, l0, l1, x) && !line_holds_3d(m, col, r1, l0, l1, x) {
            let row = choose|row: int| r0 <= row <= r1 && #[trigger] line_holds_3d(m, col, row, l0, l1, x);
            assert(column_holds_3d(m, col, r0, r1 - 1, l0, l1, x));
        }
        if column_holds_3d(m, col, r0, r1 - 1, l0, l1, x) {
            let row = choose|row: int| r0 <= row <= r1 - 1 && #[trigger] line_holds_3d(m, col, row, l0, l1, x);
            assert(line_holds_3d(m, col, row, l0, l1, x));
        }
        if line_holds_3d(m, col, r1, l0, l1, x) {
            assert(column_holds_3d(m, col, r0, r1, l0, l1, x));
        }
    } else {
        if column_holds_3d(m, col, r0, r1, l0, l1, x) {
            let row = choose|row: int| r0 <= row <= r1 && #[trigger] line_holds_3d(m, col, row, l0, l1, x);
        }
    }
}

proof fn lemma_grid_scan_3d(m: Map<Cell3D, Seq<usize>>, c0: int, c1: int, r0: int, r1: int, l0: int, l1: int, x: usize)
    ensures
        grid_scan_3d(m, c0, c1, r0, r1, l0, l1).contains(x) <==> box_holds_3d(m, c0, c1, r0, r1, l0, l1, x),
    decreases c1 - c0 + 1,
{
    broadcast use vstd::seq_lib::lemma_seq_concat_contains_all_elements;
    if c1 >= c0 {
        lemma_grid_scan_3d(m, c0, c1 - 1, r0, r1, l0, l1, x);
        lemma_column_scan_3d(m, c1, r0, r1, l0, l1, x);
        if box_holds_3d(m, c0, c1, r0, r1, l0, l1, x) && !column_holds_3d(m, c1, r0, r1, l0, l1, x) {
            let col = choose|col: int| c0 <= col <= c1 && #[trigger] column_holds_3d(m, col, r0, r1, l0, l1, x);
            assert(box_holds_3d(m, c0, c1 - 1, r0, r1, l0, l1, x));
        }
        if box_holds_3d(m, c0, c1 - 1, r0, r1, l0, l1, x) {
            let col = choose|col: int| c0 <= col <= c1 - 1 && #[trigger] column_holds_3d(m, col, r0, r1, l0, l1, x);
            assert(column_holds_3d(m, col, r0, r1, l0, l1, x));
        }
        if column_holds_3d(m, c1, r0, r1, l0, l1, x) {
            assert(box_holds_3d(m, c0, c1, r0, r1, l0, l1, x));
        }
    } else {
        if box_holds_3d(m, c0, c1, r0, r1, l0, l1, x) {
            let col = choose|col: int| c0 <= col <= c1 && #[trigger] column_holds_3d(m, col, r0, r1, l0, l1, x);
        }
    }
}

/// A query of a 3D box returns each body stored in one of its cells, and
/// only those, each exactly once.
pub proof fn law_query_3d_exact(m: Map<Cell3D, Seq<usize>>, r: CellRange3D)
    ensures
        query_3d(m, r).no_duplicates(),
        forall|x: usize| #[trigger] query_3d(m, r).contains(x) <==> exists|k: Cell3D|
            in_range_3d(r, k) && #[trigger] cell_of(m, k).contains(x),
{
    let c0 = r.min_col as int;
    let c1 = r.max_col as int;
    let r0 = r.min_row as int;
    let r1 = r.max_row as int;
    let l0 = r.min_layer as int;
    let l1 = r.max_layer as int;
    let g = grid_scan_3d(m, c0, c1, r0, r1, l0, l1);
    lemma_first_occurrences(g);
    assert forall|x: usize| #[trigger] query_3d(m, r).contains(x) <==> exists|k: Cell3D|
        in_range_3d(r, k) && #[trigger] cell_of(m, k).contains(x) by {
        lemma_grid_scan_3d(m, c0, c1, r0, r1, l0, l1, x);
        if box_holds_3d(m, c0, c1, r0, r1, l0, l1, x) {
            let col = choose|col: int| c0 <= col <= c1 && #[trigger] column_holds_3d(m, col, r0, r1, l0, l1, x);
            let row = choose|row: int| r0 <= row <= r1 && #[trigger] line_holds_3d(m, col, row, l0, l1, x);
            let layer = choose|layer: int| l0 <= layer <= l1 && #[trigger] cell_of(m, Cell3D { col: col as i32, row: row as i32, layer: layer as i32 }).contains(x);
            let k = Cell3D { col: col as i32, row: row as i32, layer: layer as i32 };
            assert(in_range_3d(r, k));
        }
        if exists|k: Cell3D| in_range_3d(r, k) && #[trigger] cell_of(m, k).contains(x) {
            let k = choose|k: Cell3D| in_range_3d(r, k) && #[trigger] cell_of(m, k).contains(x);
            assert(k == Cell3D { col: k.col as int as i32, row: k.row as int as i32, layer: k.layer as int as i32 });
            assert(line_holds_3d(m, k.col as int, k.row as int, l0, l1, x));
            assert(column_holds_3d(m, k.col as int, r0, r1, l0, l1, x));
            assert(box_holds_3d(m, c0, c1, r0, r1, l0, l1, x));
        }
    }
}

/// The cell map after inserting `index` into every cell of `r`, as
/// `SpatialHashGrid3D::insert` leaves it.
pub open spec fn after_insert_3d(m: Map<Cell3D, Seq<usize>>, index: usize, r: CellRange3D) -> Map<Cell3D, Seq<usize>> {
    Map::new(
        |k: Cell3D| m.contains_key(k) || in_range_3d(r, k),
        |k: Cell3D| if in_range_3d(r, k) { cell_of(m, k).push(index) } else { m[k] },
    )
}

/// A body inserted into the cells of one 3D box is found by every query of
/// a box that shares a cell with it.
pub proof fn law_inserted_body_found_3d(m: Map<Cell3D, Seq<usize>>, index: usize, r: CellRange3D, q: CellRange3D, k: Cell3D)
    requires
        in_range_3d(r, k),
        in_range_3d(q, k),
    ensures
        query_3d(after_insert_3d(m, index, r), q).contains(index),
{
    let m2 = after_insert_3d(m, index, r);
    assert(cell_of(m2, k) == cell_of(m, k).push(index));
    assert(cell_of(m2, k)[cell_of(m, k).len() as int] == index);
    assert(cell_of(m2, k).contains(index));
    law_query_3d_exact(m2, q);
}

/// A later insert never loses a body: whatever a query of box `q` finds, it
/// still finds after any body is inserted into any box, so a body stays
/// found across inserts until the grid is cleared.
pub proof fn law_insert_keeps_found_3d(m: Map<Cell3D, Seq<usize>>, index: usize, r: CellRange3D, q: CellRange3D, body: usize)
    requires
        query_3d(m, q).contains(body),
    ensures
        query_3d(after_insert_3d(m, index, r), q).contains(body),
{
    law_query_3d_exact(m, q);
    let k = choose|k: Cell3D| in_range_3d(q, k) && #[trigger] cell_of(m, k).contains(body);
    let m2 = after_insert_3d(m, index, r);
    let i = choose|i: int| 0 <= i < cell_of(m, k).len() && cell_of(m, k)[i] == body;
    if in_range_3d(r, k) {
        assert(cell_of(m2, k) == cell_of(m, k).push(index));
        assert(cell_of(m2, k)[i] == body);
    } else {
        assert(cell_of(m2, k) == cell_of(m, k));
    }
    assert(cell_of(m2, k).contains(body));
    law_query_3d_exact(m2, q);
}

/// The cell map after the inserts of `ops`, in order; each is a body index
/// and the box of cells it goes into.
pub open spec fn inserts_3d(m: Map<Cell3D, Seq<usize>>, ops: Seq<(usize, CellRange3D)>) -> Map<Cell3D, Seq<usize>>
    decreases ops.len(),
{
    if ops.len() == 0 {
        m
    } else {
        after_insert_3d(inserts_3d(m, ops.drop_last()), ops.last().0, ops.last().1)
    }
}

/// Every cell is empty, as `clear` leaves the grid.
pub open spec fn all_empty_3d(m: Map<Cell3D, Seq<usize>>) -> bool {
    forall|k: Cell3D| #[trigger] m.contains_key(k) ==> m[k].len() == 0
}

proof fn lemma_inserts_found_3d(m: Map<Cell3D, Seq<usize>>, ops: Seq<(usize, CellRange3D)>, q: CellRange3D, j: int, k: Cell3D)
    requires
        0 <= j < ops.len(),
        in_range_3d(ops[j].1, k),
        in_range_3d(q, k),
    ensures
        query_3d(inserts_3d(m, ops), q).contains(ops[j].0),
    decreases ops.len(),
{
    let prefix = ops.drop_last();
    if j == ops.len() - 1 {
        law_inserted_body_found_3d(inserts_3d(m, prefix), ops[j].0, ops[j].1, q, k);
    } else {
        assert(prefix[j] == ops[j]);
        lemma_inserts_found_3d(m, prefix, q, j, k);
        law_insert_keeps_found_3d(inserts_3d(m, prefix), ops.last().0, ops.last().1, q, ops[j].0);
    }
}

proof fn lemma_inserts_origin_3d(m: Map<Cell3D, Seq<usize>>, ops: Seq<(usize, CellRange3D)>, k: Cell3D, x: usize)
    requires
        cell_of(inserts_3d(m, ops), k).contains(x),
    ensures
        cell_of(m, k).contains(x) || exists|j: int|
            0 <= j < ops.len() && (#[trigger] ops[j]).0 == x && in_range_3d(ops[j].1, k),
    decreases ops.len(),
{
    if ops.len() > 0 {
        let prefix = ops.drop_last();
        let m1 = inserts_3d(m, prefix);
        let idx = ops.last().0;
        let r = ops.last().1;
        let c1 = cell_of(m1, k);
        if in_range_3d(r, k) {
            assert(cell_of(inserts_3d(m, ops), k) == c1.push(idx));
            if x == idx {
                assert(ops[ops.len() - 1].0 == x);
            } else {
                let i = choose|i: int| 0 <= i < c1.push(idx).len() && c1.push(idx)[i] == x;
                assert(i < c1.len());
                assert(c1[i] == x);
            }
        } else {
            assert(cell_of(inserts_3d(m, ops), k) == c1);
        }
        if x != idx || !in_range_3d(r, k) {
            assert(c1.contains(x));
            lemma_inserts_origin_3d(m, prefix, k, x);
            if !cell_of(m, k).contains(x) {
                let j = choose|j: int| 0 <= j < prefix.len() && (#[trigger] prefix[j]).0 == x && in_range_3d(prefix[j].1, k);
                assert(ops[j] == prefix[j]);
            }
        }
    }
}

/// What a query finds after a clear and a run of inserts: each body at
/// most once; only bodies inserted since the clear into a cell of the
/// query's box; and every body inserted since the clear into a cell of
/// the query's box.
pub proof fn law_query_after_inserts_3d(m: Map<Cell3D, Seq<usize>>, ops: Seq<(usize, CellRange3D)>, q: CellRange3D)
    requires
        all_empty_3d(m),
    ensures
        query_3d(inserts_3d(m, ops), q).no_duplicates(),
        forall|x: usize| #[trigger] query_3d(inserts_3d(m, ops), q).contains(x) ==> exists|j: int, k: Cell3D|
            0 <= j < ops.len() && (#[trigger] ops[j]).0 == x && in_range_3d(ops[j].1, k) && #[trigger] in_range_3d(q, k),
        forall|j: int, k: Cell3D| 0 <= j < ops.len() && in_range_3d(#[trigger] ops[j].1, k) && #[trigger] in_range_3d(q, k)
            ==> query_3d(inserts_3d(m, ops), q).contains(ops[j].0),
{
    let n = inserts_3d(m, ops);
    law_query_3d_exact(n, q);
    assert forall|x: usize| #[trigger] query_3d(n, q).contains(x) implies exists|j: int, k: Cell3D|
        0 <= j < ops.len() && (#[trigger] ops[j]).0 == x && in_range_3d(ops[j].1, k) && #[trigger] in_range_3d(q, k) by {
        let k = choose|k: Cell3D| in_range_3d(q, k) && #[trigger] cell_of(n, k).contains(x);
        lemma_inserts_origin_3d(m, ops, k, x);
        assert(!cell_of(m, k).contains(x));
        let j = choose|j: int| 0 <= j < ops.len() && (#[trigger] ops[j]).0 == x && in_range_3d(ops[j].1, k);
    }
    assert forall|j: int, k: Cell3D| 0 <= j < ops.len() && in_range_3d(#[trigger] ops[j].1, k) && #[trigger] in_range_3d(q, k)
        implies query_3d(n, q).contains(ops[j].0) by {
        lemma_inserts_found_3d(m, ops, q, j, k);
    }
}

} // verus!
