use vstd::prelude::*;

verus! {

/// Width in pixels of one tile job.
pub const BLOCK_WIDTH: u32 = 32;

/// Height in pixels of one tile job.
pub const BLOCK_HEIGHT: u32 = 32;

/// Index of column `col`, row `row` in a row-major buffer `width` wide.
pub open spec fn row_major(width: int, col: int, row: int) -> int {
    row * width + col
}

/// Row-major positions in rows `width` wide name distinct cells.
pub proof fn lemma_row_major_injective(width: int, c1: int, r1: int, c2: int, r2: int)
    requires
        0 <= c1 < width,
        0 <= c2 < width,
        0 <= r1,
        0 <= r2,
        row_major(width, c1, r1) == row_major(width, c2, r2),
    ensures
        c1 == c2,
        r1 == r2,
{
    if r1 < r2 {
        assert(r2 * width >= (r1 + 1) * width) by (nonlinear_arith)
            requires
                r1 + 1 <= r2,
                width > 0,
        ;
        assert((r1 + 1) * width == r1 * width + width) by (nonlinear_arith);
    } else if r2 < r1 {
        assert(r1 * width >= (r2 + 1) * width) by (nonlinear_arith)
            requires
                r2 + 1 <= r1,
                width > 0,
        ;
        assert((r2 + 1) * width == r2 * width + width) by (nonlinear_arith);
    }
}

/// Number of whole tiles across and down a frame; pixels past the last whole
/// tile are not rendered.
pub fn tile_grid(width: u32, height: u32) -> (r: (u32, u32))
    ensures
        r.0 == width / BLOCK_WIDTH,
        r.1 == height / BLOCK_HEIGHT,
{
    (width / BLOCK_WIDTH, height / BLOCK_HEIGHT)
}

/// Top-left pixel of the `k`-th tile, counting row by row over a grid
/// `grid_width` tiles wide.
pub open spec fn tile_origin(grid_width: int, k: int) -> (int, int) {
    ((k % grid_width) * BLOCK_WIDTH, (k / grid_width) * BLOCK_HEIGHT)
}

/// Top-left pixel of every tile of a frame, one job per tile, row by row.
pub fn tile_origins(width: u32, height: u32) -> (r: Vec<(u32, u32)>)
    ensures
        r@.len() == (width / BLOCK_WIDTH) * (height / BLOCK_HEIGHT),
        forall|k: int|
            0 <= k < r@.len() ==> ((#[trigger] r@[k]).0 as int, r@[k].1 as int) == tile_origin(
                (width / BLOCK_WIDTH) as int,
                k,
            ),
        forall|k: int|
            0 <= k < r@.len() ==> (#[trigger] r@[k]).0 + BLOCK_WIDTH <= width && r@[k].1
                + BLOCK_HEIGHT <= height,
{
    let (grid_width, grid_height) = tile_grid(width, height);
    let mut r: Vec<(u32, u32)> = Vec::new();
    let mut grid_y: u32 = 0;
    while grid_y < grid_height
        invariant
            grid_width == width / BLOCK_WIDTH,
            grid_height == height / BLOCK_HEIGHT,
            grid_y <= grid_height,
            r@.len() == grid_y * grid_width,
            forall|k: int|
                0 <= k < r@.len() ==> ((#[trigger] r@[k]).0 as int, r@[k].1 as int)
                    == tile_origin(grid_width as int, k),
            forall|k: int|
                0 <= k < r@.len() ==> (#[trigger] r@[k]).0 + BLOCK_WIDTH <= width && r@[k].1
                    + BLOCK_HEIGHT <= height,
        decreases grid_height - grid_y,
    {
        assert(grid_y * BLOCK_HEIGHT + BLOCK_HEIGHT <= height) by (nonlinear_arith)
            requires
                grid_y < grid_height,
                grid_height == height / 32,
        ;
        let mut grid_x: u32 = 0;
        while grid_x < grid_width
            invariant
                grid_width == width / BLOCK_WIDTH,
                grid_height == height / BLOCK_HEIGHT,
                grid_y < grid_height,
                grid_x <= grid_width,
                grid_y * BLOCK_HEIGHT + BLOCK_HEIGHT <= height,
                r@.len() == grid_y * grid_width + grid_x,
                forall|k: int|
                    0 <= k < r@.len() ==> ((#[trigger] r@[k]).0 as int, r@[k].1 as int)
                        == tile_origin(grid_width as int, k),
                forall|k: int|
                    0 <= k < r@.len() ==> (#[trigger] r@[k]).0 + BLOCK_WIDTH <= width && r@[k].1
                        + BLOCK_HEIGHT <= height,
            decreases grid_width - grid_x,
        {
            assert(grid_x * BLOCK_WIDTH + BLOCK_WIDTH <= width) by (nonlinear_arith)
                requires
                    grid_x < grid_width,
                    grid_width == width / 32,
            ;
            let ghost k: int = r@.len() as int;
            proof {
                vstd::arithmetic::div_mod::lemma_fundamental_div_mod_converse(
                    k,
                    grid_width as int,
                    grid_y as int,
                    grid_x as int,
                );
            }
            r.push((grid_x * BLOCK_WIDTH, grid_y * BLOCK_HEIGHT));
            grid_x = grid_x + 1;
        }
        grid_y = grid_y + 1;
        assert(r@.len() == grid_y * grid_width) by (nonlinear_arith)
            requires
                r@.len() == (grid_y - 1) * grid_width + grid_width,
        ;
    }
    assert(r@.len() == grid_width * grid_height) by (nonlinear_arith)
        requires
            r@.len() == grid_y * grid_width,
            grid_y == grid_height,
    ;
    r
}

/// A rectangle of pixel values produced by one tile job, stored row by row.
pub struct TextureBlock<T> {
    pub width: u32,
    pub height: u32,
    pub data: Vec<T>,
}

impl<T: Copy> TextureBlock<T> {
    /// One value for every pixel of the rectangle.
    pub open spec fn wf(&self) -> bool {
        self.data@.len() == self.width * self.height
    }

    /// The value stored for column `x`, row `y`.
    pub open spec fn at(&self, x: int, y: int) -> T {
        self.data@[row_major(self.width as int, x, y)]
    }

    /// A `width` by `height` block with every pixel set to `fill`.
    pub fn new(width: u32, height: u32, fill: T) -> (r: Self)
        requires
            width * height <= u32::MAX,
        ensures
            r.wf(),
            r.width == width,
            r.height == height,
            forall|i: int| 0 <= i < r.data@.len() ==> #[trigger] r.data@[i] == fill,
    {
        let n: u32 = width * height;
        let mut data: Vec<T> = Vec::new();
        let mut i: u32 = 0;
        while i < n
            invariant
                i <= n,
                data@.len() == i,
                forall|j: int| 0 <= j < i ==> #[trigger] data@[j] == fill,
            decreases n - i,
        {
            data.push(fill);
            i = i + 1;
        }
        TextureBlock { width, height, data }
    }

    /// Position of column `x`, row `y` in `data`.
    fn index(&self, x: u32, y: u32) -> (r: usize)
        requires
            self.wf(),
            x < self.width,
            y < self.height,
        ensures
            r == row_major(self.width as int, x as int, y as int),
            r < self.data@.len(),
    {
        let len = self.data.len();
        assert(y * self.width + x < self.width * self.height) by (nonlinear_arith)
            requires
                x < self.width,
                y < self.height,
        ;
        assert(y * self.width <= y * self.width + x);
        (y as usize) * (self.width as usize) + (x as usize)
    }

    /// Stores `color` for column `x`, row `y`.
    pub fn set(&mut self, x: u32, y: u32, color: T)
        requires
            old(self).wf(),
            x < old(self).width,
            y < old(self).height,
        ensures
            final(self).width == old(self).width,
            final(self).height == old(self).height,
            final(self).data@ == old(self).data@.update(
                row_major(old(self).width as int, x as int, y as int),
                color,
            ),
    {
        let index = self.index(x, y);
        self.data[index] = color;
    }

    /// The value stored for column `x`, row `y`.
    pub fn get(&self, x: u32, y: u32) -> (r: &T)
        requires
            self.wf(),
            x < self.width,
            y < self.height,
        ensures
            *r == self.at(x as int, y as int),
    {
        let index = self.index(x, y);
        &self.data[index]
    }
}

/// Whether `i` is the position in a frame `frame_width` wide of a pixel of the
/// `width` by `height` rectangle whose top-left pixel is `(x, y)`.
pub open spec fn in_block(frame_width: int, x: int, y: int, width: int, height: int, i: int) -> bool {
    exists|bx: int, by: int|
        0 <= bx < width && 0 <= by < height && i == #[trigger] row_major(
            frame_width,
            x + bx,
            y + by,
        )
}

impl<T: Copy> TextureBlock<T> {
    /// Folds the block into `target`, a row-major frame `frame_width` wide,
    /// with its top-left pixel at `(x, y)`: each covered frame pixel becomes
    /// `combine(previous, block pixel)`; the other pixels keep their value.
    pub fn merge_into<F: Fn(T, T) -> T>(
        &self,
        target: &mut Vec<T>,
        frame_width: u32,
        x: u32,
        y: u32,
        combine: F,
    )
        requires
            self.wf(),
            x + self.width <= frame_width,
            (y + self.height) * frame_width <= old(target)@.len(),
            forall|a: T, b: T| combine.requires((a, b)),
        ensures
            final(target)@.len() == old(target)@.len(),
            forall|bx: int, by: int|
                0 <= bx < self.width && 0 <= by < self.height ==> combine.ensures(
                    (
                        old(target)@[row_major(frame_width as int, x + bx, y + by)],
                        #[trigger] self.at(bx, by),
                    ),
                    final(target)@[row_major(frame_width as int, x + bx, y + by)],
                ),
            forall|i: int|
                0 <= i < old(target)@.len() && !in_block(
                    frame_width as int,
                    x as int,
                    y as int,
                    self.width as int,
                    self.height as int,
                    i,
                ) ==> #[trigger] final(target)@[i] == old(target)@[i],
    {
        let ghost start = target@;
        let ghost fw = frame_width as int;
        let mut by: u32 = 0;
        while by < self.height
            invariant
                self.wf(),
                x + self.width <= frame_width,
                (y + self.height) * frame_width <= start.len(),
                forall|a: T, b: T| combine.requires((a, b)),
                fw == frame_width as int,
                by <= self.height,
                target@.len() == start.len(),
                forall|bx: int, by2: int|
                    0 <= bx < self.width && 0 <= by2 < self.height ==> if by2 < by {
                        combine.ensures(
                            (start[row_major(fw, x + bx, y + by2)], #[trigger] self.at(bx, by2)),
                            target@[row_major(fw, x + bx, y + by2)],
                        )
                    } else {
                        target@[row_major(fw, x + bx, y + by2)] == start[row_major(
                            fw,
                            x + bx,
                            y + by2,
                        )]
                    },
                forall|i: int|
                    0 <= i < start.len() && !in_block(
                        fw,
                        x as int,
                        y as int,
                        self.width as int,
                        self.height as int,
                        i,
                    ) ==> #[trigger] target@[i] == start[i],
            decreases self.height - by,
        {
            let mut bx: u32 = 0;
            while bx < self.width
                invariant
                    self.wf(),
                    x + self.width <= frame_width,
                    (y + self.height) * frame_width <= start.len(),
                    forall|a: T, b: T| combine.requires((a, b)),
                    fw == frame_width as int,
                    by < self.height,
                    bx <= self.width,
                    target@.len() == start.len(),
                    forall|bx2: int, by2: int|
                        0 <= bx2 < self.width && 0 <= by2 < self.height ==> if by2 < by || (by2
                            == by && bx2 < bx) {
                            combine.ensures(
                                (
                                    start[row_major(fw, x + bx2, y + by2)],
                                    #[trigger] self.at(bx2, by2),
                                ),
                                target@[row_major(fw, x + bx2, y + by2)],
                            )
                        } else {
                            target@[row_major(fw, x + bx2, y + by2)] == start[row_major(
                                fw,
                                x + bx2,
                                y + by2,
                            )]
                        },
                    forall|i: int|
                        0 <= i < start.len() && !in_block(
                            fw,
                            x as int,
                            y as int,
                            self.width as int,
                            self.height as int,
                            i,
                        ) ==> #[trigger] target@[i] == start[i],
                decreases self.width - bx,
            {
                let ghost idx: int = row_major(fw, x + bx, y + by);
                proof {
                    assert((y + by) * fw + fw <= (y + self.height) * fw) by (nonlinear_arith)
                        requires
                            by < self.height,
                            fw >= 0,
                    ;
                    assert(idx < start.len());
                    assert((y + by) * fw <= idx);
                }
                let len = target.len();
                assert(len == start.len());
                assert(fw >= 1);
                assert(y + by <= (y + by) * fw) by (nonlinear_arith)
                    requires
                        fw >= 1,
                ;
                let row: usize = y as usize + by as usize;
                let index: usize = row * (frame_width as usize) + (x as usize) + (bx as usize);
                let pixel = *self.get(bx, by);
                let combined = combine(target[index], pixel);
                let ghost before = target@;
                target[index] = combined;
                proof {
                    assert forall|bx2: int, by2: int|
                        0 <= bx2 < self.width && 0 <= by2 < self.height && (bx2 != bx || by2
                            != by) implies target@[row_major(fw, x + bx2, y + by2)]
                        == before[row_major(fw, x + bx2, y + by2)] && #[trigger] self.at(bx2, by2)
                        == self.at(bx2, by2) by {
                        assert((y + by2) * fw + fw <= (y + self.height) * fw) by (nonlinear_arith)
                            requires
                                by2 < self.height,
                                fw >= 0,
                        ;
                        if row_major(fw, x + bx2, y + by2) == idx {
                            lemma_row_major_injective(
                                fw,
                                x + bx2,
                                y + by2,
                                x + bx,
                                y + by,
                            );
                        }
                    }
                    assert forall|i: int|
                        0 <= i < start.len() && !in_block(
                            fw,
                            x as int,
                            y as int,
                            self.width as int,
                            self.height as int,
                            i,
                        ) implies #[trigger] target@[i] == start[i] by {
                        if i == idx {
                            assert(in_block(
                                fw,
                                x as int,
                                y as int,
                                self.width as int,
                                self.height as int,
                                i,
                            ));
                        }
                        assert(target@[i] == before[i]);
                    }
                }
                bx = bx + 1;
            }
            by = by + 1;
        }
    }
}

} // verus!
