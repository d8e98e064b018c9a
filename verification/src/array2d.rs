//! A fixed-size, row-major two-dimensional container over one flat backing
//! store. The value at `(x, y)` lives at flat index `x + y * width`.

use vstd::prelude::*;

verus! {

pub struct Array2D<T> {
    width: usize,
    height: usize,
    data: Vec<T>,
}

impl<T> Array2D<T> {
    /// The backing store holds exactly `width * height` values.
    pub closed spec fn wf(&self) -> bool {
        self.data@.len() == self.width as int * self.height as int
    }

    pub closed spec fn spec_width(&self) -> usize {
        self.width
    }

    pub closed spec fn spec_height(&self) -> usize {
        self.height
    }

    /// The value at `(x, y)`, as a total spec function.
    pub closed spec fn spec_at(&self, x: int, y: int) -> T
        recommends
            0 <= x < self.spec_width(),
            0 <= y < self.spec_height(),
    {
        self.data@[x + y * self.spec_width()]
    }

    pub fn width(&self) -> (r: usize)
        ensures
            r == self.spec_width(),
    {
        self.width
    }

    pub fn height(&self) -> (r: usize)
        ensures
            r == self.spec_height(),
    {
        self.height
    }

    /// A reference to the value at `(x, y)`.
    pub fn get(&self, x: usize, y: usize) -> (r: &T)
        requires
            self.wf(),
            x < self.spec_width(),
            y < self.spec_height(),
        ensures
            *r == self.spec_at(x as int, y as int),
    {
        let n = self.data.len();
        proof {
            lemma_row_major_in_range(
                x as int,
                y as int,
                self.width as int,
                self.height as int,
            );
            assert(x as int + y as int * (self.width as int) < n);
        }
        &self.data[x + y * self.width]
    }

    /// Replace the value at `(x, y)`; every other position is unchanged.
    pub fn set(&mut self, x: usize, y: usize, value: T)
        requires
            old(self).wf(),
            x < old(self).spec_width(),
            y < old(self).spec_height(),
        ensures
            final(self).wf(),
            final(self).spec_width() == old(self).spec_width(),
            final(self).spec_height() == old(self).spec_height(),
            final(self).spec_at(x as int, y as int) == value,
            forall|i: int, j: int|
                0 <= i < final(self).spec_width() && 0 <= j < final(self).spec_height()
                    && !(i == x && j == y) ==> final(self).spec_at(i, j) == old(self).spec_at(i, j),
    {
        let n = self.data.len();
        proof {
            lemma_row_major_in_range(
                x as int,
                y as int,
                self.width as int,
                self.height as int,
            );
            assert(x as int + y as int * (self.width as int) < n);
        }
        let idx: usize = x + y * self.width;
        self.data[idx] = value;
        proof {
            assert forall|i: int, j: int|
                0 <= i < self.spec_width() && 0 <= j < self.spec_height()
                    && !(i == x && j == y) implies self.spec_at(i, j) == old(self).spec_at(
                i,
                j,
            ) by {
                lemma_row_major_in_range(i, j, self.width as int, self.height as int);
                if i + j * (self.width as int) == x + y * (self.width as int) {
                    lemma_row_major_injective(
                        i,
                        j,
                        x as int,
                        y as int,
                        self.width as int,
                    );
                }
            }
        }
    }
}

impl<T: Copy> Array2D<T> {
    /// A `width` by `height` container with every position holding `fill`.
    pub fn new(width: usize, height: usize, fill: T) -> (r: Array2D<T>)
        requires
            width * height <= usize::MAX,
        ensures
            r.wf(),
            r.spec_width() == width,
            r.spec_height() == height,
            forall|i: int, j: int|
                0 <= i < width && 0 <= j < height ==> r.spec_at(i, j) == fill,
    {
        let n = width * height;
        let mut data: Vec<T> = Vec::new();
        let mut k: usize = 0;
        while k < n
            invariant
                k <= n,
                data@.len() == k,
                forall|m: int| 0 <= m < k ==> data@[m] == fill,
            decreases n - k,
        {
            data.push(fill);
            k = k + 1;
        }
        let r = Array2D { width, height, data };
        proof {
            assert forall|i: int, j: int|
                0 <= i < width && 0 <= j < height implies r.spec_at(i, j) == fill by {
                lemma_row_major_in_range(i, j, width as int, height as int);
            }
        }
        r
    }

    /// Set every position to `fill`, keeping the dimensions.
    pub fn fill(&mut self, fill: T)
        requires
            old(self).wf(),
        ensures
            final(self).wf(),
            final(self).spec_width() == old(self).spec_width(),
            final(self).spec_height() == old(self).spec_height(),
            forall|i: int, j: int|
                0 <= i < final(self).spec_width() && 0 <= j < final(self).spec_height()
                    ==> final(self).spec_at(i, j) == fill,
    {
        let w = self.width;
        let h = self.height;
        let mut y: usize = 0;
        while y < h
            invariant
                self.wf(),
                self.spec_width() == w,
                self.spec_height() == h,
                w == old(self).spec_width(),
                h == old(self).spec_height(),
                y <= h,
                forall|i: int, j: int|
                    0 <= i < w && 0 <= j < y ==> self.spec_at(i, j) == fill,
            decreases h - y,
        {
            let mut x: usize = 0;
            while x < w
                invariant
                    self.wf(),
                    self.spec_width() == w,
                    self.spec_height() == h,
                    x <= w,
                    y < h,
                    forall|i: int, j: int|
                        0 <= i < w && 0 <= j < y ==> self.spec_at(i, j) == fill,
                    forall|i: int| 0 <= i < x ==> self.spec_at(i, y as int) == fill,
                decreases w - x,
            {
                self.set(x, y, fill);
                x = x + 1;
            }
            y = y + 1;
        }
    }
}

/// Row-major flat indices of in-range positions are in range.
pub proof fn lemma_row_major_in_range(x: int, y: int, w: int, h: int)
    requires
        0 <= x < w,
        0 <= y < h,
    ensures
        0 <= x + y * w,
        x + y * w < w * h,
{
    assert(0 <= x && x < w && 0 <= y && y < h ==> 0 <= x + y * w && x + y * w < w * h)
        by (nonlinear_arith);
}

/// Row-major flat indexing is injective over in-range positions.
pub proof fn lemma_row_major_injective(x1: int, y1: int, x2: int, y2: int, w: int)
    requires
        0 <= x1 < w,
        0 <= x2 < w,
        0 <= y1,
        0 <= y2,
        x1 + y1 * w == x2 + y2 * w,
    ensures
        x1 == x2,
        y1 == y2,
{
    assert(0 <= x1 < w && 0 <= x2 < w && 0 <= y1 && 0 <= y2 && x1 + y1 * w == x2 + y2 * w
        ==> x1 == x2 && y1 == y2) by (nonlinear_arith);
}

} // verus!
