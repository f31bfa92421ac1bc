//! Wall boards: a table size, the walls inside the table, and the table
//! drawn as glyphs with a frame around it.

use crate::point::Point;
use vstd::prelude::*;

verus! {

/// What a board holds: the side of its table and its walls in the order in
/// which they were given.
pub struct BoardView {
    pub table_size: u16,
    pub walls: Seq<Point>,
}

/// A square table with walls on some of its cells.
#[derive(Debug)]
pub struct Board {
    table_size: u16,
    walls: Vec<Point>,
}

impl View for Board {
    type V = BoardView;

    closed spec fn view(&self) -> BoardView {
        BoardView { table_size: self.table_size, walls: self.walls@ }
    }
}

/// The table size read as a signed 16-bit number: sizes from 32768 on stand
/// for the negative numbers from -32768 on.
pub open spec fn modulus(table_size: u16) -> int {
    if table_size < 32768 {
        table_size as int
    } else {
        table_size - 65536
    }
}

/// The remainder of `v` by `m` that is not negative.
pub open spec fn wrap(v: int, m: int) -> int {
    v % m
}

/// Whether the remainder of `v` by `m` can be taken in 16 bits.
pub open spec fn can_wrap(v: int, m: int) -> bool {
    m != 0 && !(v == -32768 && m == -1)
}

/// Whether both coordinates of `p` can be wrapped by `m`.
pub open spec fn can_wrap_point(p: Point, m: int) -> bool {
    can_wrap(p.x as int, m) && can_wrap(p.y as int, m)
}

/// The point `p` with both coordinates wrapped by `m`.
pub open spec fn wrap_point(p: Point, m: int) -> Point {
    Point { x: wrap(p.x as int, m) as i16, y: wrap(p.y as int, m) as i16 }
}

/// The walls `walls` with every coordinate wrapped by `m`, in their order.
pub open spec fn wrap_walls(walls: Seq<Point>, m: int) -> Seq<Point> {
    Seq::new(walls.len(), |k: int| wrap_point(walls[k], m))
}

/// Whether `p` is another point than `q`.
pub open spec fn differs(q: Point) -> spec_fn(Point) -> bool {
    |p: Point| p != q
}

/// The side of the drawn table: the table and its frame.
pub open spec fn drawn_side(b: BoardView) -> int {
    b.table_size + 2
}

/// Whether the wall `p` has a glyph of its own on the drawn table of a
/// board of side `table_size`: it lies on the table or on the frame, and the
/// row and column below and right of it can be counted in 16 bits.
pub open spec fn drawn_inside(p: Point, table_size: int) -> bool {
    &&& -1 <= p.x <= table_size
    &&& -1 <= p.y <= table_size
    &&& p.x < 32767
    &&& p.y < 32767
}

/// Whether the table of `b` can be drawn: its side with the frame fits in 16
/// bits, and every wall lies on the table or on the frame.
pub open spec fn drawable(b: BoardView) -> bool {
    &&& b.table_size <= 65533
    &&& forall|k: int|
        0 <= k < b.walls.len() ==> drawn_inside(#[trigger] b.walls[k], b.table_size as int)
}

/// The glyph of the frame at row `i` and column `j` of a drawn table of side
/// `side`.
pub open spec fn frame_glyph(side: int, i: int, j: int) -> Seq<char> {
    if i == 0 {
        if j == 0 {
            "┌"@
        } else if j == side - 1 {
            "┐"@
        } else {
            "─"@
        }
    } else if i == side - 1 {
        if j == 0 {
            "└"@
        } else if j == side - 1 {
            "┘"@
        } else {
            "─"@
        }
    } else {
        "│"@
    }
}

/// Whether row `i` and column `j` belong to the frame of a drawn table of
/// side `side`.
pub open spec fn on_frame(side: int, i: int, j: int) -> bool {
    i == 0 || i == side - 1 || j == 0 || j == side - 1
}

/// Whether a wall of `walls` is drawn at row `i` and column `j`: a wall is
/// drawn one row below its first coordinate and one column right of its
/// second.
pub open spec fn wall_at(walls: Seq<Point>, i: int, j: int) -> bool {
    exists|k: int| 0 <= k < walls.len() && (#[trigger] walls[k]).x + 1 == i && walls[k].y + 1 == j
}

/// The glyph at row `i` and column `j` of the drawn table of `b`: the frame
/// covers the walls, and the walls cover the blanks.
pub open spec fn glyph(b: BoardView, i: int, j: int) -> Seq<char> {
    if on_frame(drawn_side(b), i, j) {
        frame_glyph(drawn_side(b), i, j)
    } else if wall_at(b.walls, i, j) {
        "█"@
    } else {
        " "@
    }
}

/// Whether `table` has `side` rows of `side` glyphs.
pub open spec fn is_square(table: Seq<Vec<String>>, side: int) -> bool {
    table.len() == side && forall|i: int| 0 <= i < side ==> (#[trigger] table[i])@.len() == side
}

impl Clone for Board {
    fn clone(&self) -> (copy: Board)
        ensures
            copy@ == self@,
    {
        let mut walls: Vec<Point> = Vec::new();
        let mut k: usize = 0;
        while k < self.walls.len()
            invariant
                k <= self.walls@.len(),
                walls@ == self.walls@.take(k as int),
            decreases self.walls@.len() - k,
        {
            walls.push(self.walls[k]);
            assert(walls@ =~= self.walls@.take(k + 1));
            k += 1;
        }
        assert(walls@ =~= self.walls@);
        Board { table_size: self.table_size, walls }
    }
}

impl<'a> IntoIterator for &'a Board {
    type Item = &'a Point;

    type IntoIter = std::slice::Iter<'a, Point>;

    /// An iterator over the walls, in their order.
    fn into_iter(self) -> (walls: std::slice::Iter<'a, Point>)
        ensures
            vstd::std_specs::slice::into_iter_elts(walls) == self@.walls,
    {
        self.walls.iter()
    }
}

impl Board {
    /// The board of side `table_size` whose walls are `walls`, each
    /// coordinate wrapped into the table by the remainder that is not
    /// negative.
    ///
    /// The remainder is taken by the table size as a signed 16-bit number,
    /// so a board with walls has a size other than 0, and one of size 65535
    /// has no coordinate -32768.
    pub fn new(table_size: u16, walls: Vec<Point>) -> (board: Board)
        requires
            forall|k: int|
                0 <= k < walls@.len() ==> can_wrap_point(#[trigger] walls@[k], modulus(table_size)),
        ensures
            board@.table_size == table_size,
            board@.walls == wrap_walls(walls@, modulus(table_size)),
    {
        let m: i16 = if table_size < 32768 {
            table_size as i16
        } else {
            (table_size as i32 - 65536) as i16
        };
        let mut wrapped: Vec<Point> = Vec::new();
        let mut k: usize = 0;
        while k < walls.len()
            invariant
                k <= walls@.len(),
                m == modulus(table_size),
                forall|i: int|
                    0 <= i < walls@.len() ==> can_wrap_point(#[trigger] walls@[i], m as int),
                wrapped@.len() == k,
                forall|i: int|
                    0 <= i < k ==> #[trigger] wrapped@[i] == wrap_point(walls@[i], m as int),
            decreases walls@.len() - k,
        {
            let p = walls[k];
            let x = p.get_x().checked_rem_euclid(m).unwrap();
            let y = p.get_y().checked_rem_euclid(m).unwrap();
            wrapped.push(Point::new(x, y));
            k += 1;
        }
        assert(wrapped@ =~= wrap_walls(walls@, modulus(table_size)));
        Board { table_size, walls: wrapped }
    }

    /// The board of side 10 with one wall, at (5, 5).
    pub fn default() -> (board: Board)
        ensures
            board@.table_size == 10,
            board@.walls == seq![Point { x: 5, y: 5 }],
    {
        let mut walls: Vec<Point> = Vec::new();
        walls.push(Point::new(5, 5));
        assert(walls@ =~= seq![Point { x: 5, y: 5 }]);
        Board { table_size: 10, walls }
    }

    /// The side of the table.
    pub fn get_size(&self) -> (size: u16)
        ensures
            size == self@.table_size,
    {
        self.table_size
    }

    /// The walls, in their order.
    pub fn walls(&self) -> (walls: &Vec<Point>)
        ensures
            walls@ == self@.walls,
    {
        &self.walls
    }

    /// Whether `point` is one of the walls.
    pub fn is_wall(&self, point: &Point) -> (found: bool)
        ensures
            found == self@.walls.contains(*point),
    {
        let mut k: usize = 0;
        while k < self.walls.len()
            invariant
                k <= self.walls@.len(),
                forall|i: int| 0 <= i < k ==> self.walls@[i] != *point,
            decreases self.walls@.len() - k,
        {
            if self.walls[k] == *point {
                return true;
            }
            k += 1;
        }
        false
    }

    /// Adds `point` behind the walls, as it is given.
    pub fn add_point(&mut self, point: Point)
        ensures
            final(self)@.table_size == old(self)@.table_size,
            final(self)@.walls == old(self)@.walls.push(point),
    {
        self.walls.push(point);
    }

    /// Removes every wall that equals `point`; the others keep their order.
    pub fn remove_point(&mut self, point: &Point)
        ensures
            final(self)@.table_size == old(self)@.table_size,
            final(self)@.walls == old(self)@.walls.filter(differs(*point)),
    {
        let ghost before = self.walls@;
        let mut kept: Vec<Point> = Vec::new();
        let mut k: usize = 0;
        while k < self.walls.len()
            invariant
                k <= self.walls@.len(),
                self.walls@ == before,
                kept@ == before.take(k as int).filter(differs(*point)),
            decreases self.walls@.len() - k,
        {
            let p = self.walls[k];
            proof {
                reveal_with_fuel(Seq::filter, 2);
                assert(before.take(k + 1).drop_last() =~= before.take(k as int));
            }
            if p != *point {
                kept.push(p);
            }
            k += 1;
        }
        assert(before.take(k as int) =~= before);
        self.walls = kept;
    }

    /// Whether the table can be drawn.
    pub fn can_draw(&self) -> (fits: bool)
        ensures
            fits == drawable(self@),
    {
        if self.table_size > 65533 {
            return false;
        }
        let size: i32 = self.table_size as i32;
        let mut k: usize = 0;
        while k < self.walls.len()
            invariant
                k <= self.walls@.len(),
                size == self.table_size,
                forall|i: int| 0 <= i < k ==> drawn_inside(#[trigger] self.walls@[i], size as int),
            decreases self.walls@.len() - k,
        {
            let x: i32 = self.walls[k].get_x() as i32;
            let y: i32 = self.walls[k].get_y() as i32;
            if x < -1 || x > size || x >= 32767 || y < -1 || y > size || y >= 32767 {
                assert(!drawn_inside(self@.walls[k as int], size as int));
                return false;
            }
            k += 1;
        }
        true
    }

    /// The table drawn as glyphs, with a frame of one glyph around it: a row
    /// for each first coordinate from -1 to the table size, a column for each
    /// second coordinate.
    pub fn get_table(&self) -> (table: Vec<Vec<String>>)
        requires
            drawable(self@),
        ensures
            is_square(table@, drawn_side(self@)),
            forall|i: int, j: int|
                0 <= i < drawn_side(self@) && 0 <= j < drawn_side(self@) ==> (
                #[trigger] table@[i]@[j])@ == glyph(self@, i, j),
    {
        let len: usize = (self.get_size() + 2) as usize;
        let mut result: Vec<Vec<String>> = Vec::new();
        let mut i: usize = 0;
        while i < len
            invariant
                i <= len,
                result@.len() == i,
                forall|a: int| 0 <= a < i ==> (#[trigger] result@[a])@.len() == len,
                forall|a: int, b: int|
                    0 <= a < i && 0 <= b < len ==> (#[trigger] result@[a]@[b])@ == " "@,
            decreases len - i,
        {
            let mut row: Vec<String> = Vec::new();
            let mut j: usize = 0;
            while j < len
                invariant
                    j <= len,
                    row@.len() == j,
                    forall|b: int| 0 <= b < j ==> (#[trigger] row@[b])@ == " "@,
                decreases len - j,
            {
                row.push(" ".to_string());
                j += 1;
            }
            result.push(row);
            i += 1;
        }
        proof {
            assert forall|k: int| 0 <= k < self.walls@.len() implies drawn_inside(
                #[trigger] self.walls@[k],
                len - 2,
            ) by {
                assert(drawn_inside(self@.walls[k], self@.table_size as int));
            }
        }
        Self::put_walls(&mut result, &self.walls);
        Self::put_boarder(&mut result, len);
        result
    }

    /// Draws each wall over the glyph one row below its first coordinate
    /// and one column right of its second.
    fn put_walls(result: &mut Vec<Vec<String>>, walls: &Vec<Point>)
        requires
            is_square(old(result)@, old(result)@.len() as int),
            2 <= old(result)@.len(),
            forall|k: int|
                0 <= k < walls@.len() ==> drawn_inside(
                    #[trigger] walls@[k],
                    old(result)@.len() - 2,
                ),
        ensures
            is_square(final(result)@, old(result)@.len() as int),
            forall|i: int, j: int|
                0 <= i < old(result)@.len() && 0 <= j < old(result)@.len() ==> (
                #[trigger] final(result)@[i]@[j])@ == (if wall_at(walls@, i, j) {
                    "█"@
                } else {
                    old(result)@[i]@[j]@
                }),
    {
        let ghost before = result@;
        let ghost side = result@.len() as int;
        let mut k: usize = 0;
        while k < walls.len()
            invariant
                k <= walls@.len(),
                is_square(before, side),
                is_square(result@, side),
                forall|a: int|
                    0 <= a < walls@.len() ==> drawn_inside(#[trigger] walls@[a], side - 2),
                forall|i: int, j: int|
                    0 <= i < side && 0 <= j < side ==> (#[trigger] result@[i]@[j])@ == (if wall_at(
                        walls@.take(k as int),
                        i,
                        j,
                    ) {
                        "█"@
                    } else {
                        before[i][j]@
                    }),
            decreases walls@.len() - k,
        {
            let p = walls[k];
            let row: usize = (p.get_x() + 1) as usize;
            let col: usize = (p.get_y() + 1) as usize;
            let ghost drawn = result@;
            assert(drawn[row as int]@.len() == side);
            result[row][col] = "█".to_string();
            proof {
                let shorter = walls@.take(k as int);
                let longer = walls@.take(k + 1);
                assert(longer[k as int] == p);
                assert forall|i: int| 0 <= i < side implies (#[trigger] result@[i])@.len()
                    == side by {
                    assert(drawn[i]@.len() == side);
                }
                assert forall|i: int, j: int| 0 <= i < side && 0 <= j < side implies (
                #[trigger] result@[i]@[j])@ == (if wall_at(longer, i, j) {
                    "█"@
                } else {
                    before[i][j]@
                }) by {
                    assert(drawn[i]@.len() == side);
                    if wall_at(shorter, i, j) {
                        let a = choose|a: int|
                            0 <= a < shorter.len() && (#[trigger] shorter[a]).x + 1 == i
                                && shorter[a].y + 1 == j;
                        assert(longer[a] == shorter[a]);
                    }
                    if wall_at(longer, i, j) {
                        let a = choose|a: int|
                            0 <= a < longer.len() && (#[trigger] longer[a]).x + 1 == i
                                && longer[a].y + 1 == j;
                        if a < k {
                            assert(shorter[a] == longer[a]);
                        }
                    }
                    assert(result@[i]@[j]@ == (if i == row && j == col {
                        "█"@
                    } else {
                        drawn[i]@[j]@
                    }));
                }
            }
            k += 1;
        }
        assert(walls@.take(k as int) =~= walls@);
    }

    /// Draws the frame: the outer ring of the table of side `len`.
    fn put_boarder(result: &mut Vec<Vec<String>>, len: usize)
        requires
            2 <= len,
            is_square(old(result)@, len as int),
        ensures
            is_square(final(result)@, len as int),
            forall|i: int, j: int|
                0 <= i < len && 0 <= j < len ==> (#[trigger] final(result)@[i]@[j])@ == (
                if on_frame(len as int, i, j) {
                    frame_glyph(len as int, i, j)
                } else {
                    old(result)@[i]@[j]@
                }),
    {
        let ghost before = result@;
        let last: usize = len - 1;
        let mut j: usize = 0;
        while j < len
            invariant
                j <= len,
                2 <= len,
                last == len - 1,
                is_square(before, len as int),
                result@.len() == len,
                forall|a: int| 0 <= a < len ==> (#[trigger] result@[a])@.len() == len,
                forall|a: int, b: int|
                    0 <= a < len && 0 <= b < len ==> (#[trigger] result@[a]@[b])@ == (if (a == 0
                        || a == last) && b < j {
                        "─"@
                    } else {
                        before[a][b]@
                    }),
            decreases len - j,
        {
            result[0][j] = "─".to_string();
            result[last][j] = "─".to_string();
            j += 1;
        }
        result[0][0] = "┌".to_string();
        result[0][last] = "┐".to_string();
        result[last][0] = "└".to_string();
        result[last][last] = "┘".to_string();
        let mut i: usize = 1;
        while i < last
            invariant
                1 <= i <= last,
                2 <= len,
                last == len - 1,
                is_square(before, len as int),
                result@.len() == len,
                forall|a: int| 0 <= a < len ==> (#[trigger] result@[a])@.len() == len,
                forall|a: int, b: int|
                    0 <= a < len && 0 <= b < len ==> (#[trigger] result@[a]@[b])@ == (if on_frame(
                        len as int,
                        a,
                        b,
                    ) && (a < i || a == last) {
                        frame_glyph(len as int, a, b)
                    } else {
                        before[a][b]@
                    }),
            decreases last - i,
        {
            result[i][0] = "│".to_string();
            result[i][last] = "│".to_string();
            i += 1;
        }
    }
}

} // verus!
