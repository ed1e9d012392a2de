//! The channel-0 raster of a screenshot, the template scanner that finds the
//! message's anchor and every eye, and the classifier of an eye's gaze.

use vstd::prelude::*;

use crate::direction::Direction;

verus! {

/// An eye centre in message-local coordinates: pixels right of and below the
/// anchor's top-left pixel (negative for an eye left of or above it).
pub type PupilLocation = (i64, i64);

/// Channel 0 of an image, row by row: `rows[y][x]` is the pixel at `(x, y)`.
/// A pixel is bright when its value is above zero, dark otherwise.
pub struct Raster {
    pub width: usize,
    pub rows: Vec<Vec<u8>>,
}

impl Raster {
    /// Every row is `width` pixels long, and both sides fit in a `u32`.
    pub open spec fn wf(&self) -> bool {
        &&& self.width <= u32::MAX
        &&& self.rows@.len() <= u32::MAX
        &&& forall|y: int| 0 <= y < self.rows@.len() ==> (#[trigger] self.rows@[y])@.len() == self.width
    }

    /// The number of rows.
    pub open spec fn height(&self) -> int {
        self.rows@.len() as int
    }

    /// The value of the pixel at `(x, y)`.
    pub open spec fn value(&self, x: int, y: int) -> u8 {
        self.rows@[y]@[x]
    }

    /// The value of the pixel at `(x, y)` is above zero.
    pub open spec fn bright(&self, x: int, y: int) -> bool {
        self.value(x, y) > 0
    }

    /// The pixel at `(x, y)` lies in the image and is dark.
    pub open spec fn dark(&self, x: int, y: int) -> bool {
        &&& 0 <= x < self.width
        &&& 0 <= y < self.height()
        &&& self.value(x, y) == 0
    }

    /// A raster from its rows, or `None` when they differ in length or a
    /// side does not fit in a `u32`.
    pub fn from_rows(width: usize, rows: Vec<Vec<u8>>) -> (r: Option<Raster>)
        ensures
            r matches Some(img) ==> img.wf() && img.width == width && img.rows@ == rows@,
            r is None ==> !(Raster { width, rows }).wf(),
    {
        if width > 4294967295 || rows.len() > 4294967295 {
            return None;
        }
        let mut y: usize = 0;
        while y < rows.len()
            invariant
                y <= rows@.len(),
                forall|k: int| 0 <= k < y ==> (#[trigger] rows@[k])@.len() == width,
            decreases rows@.len() - y,
        {
            if rows[y].len() != width {
                return None;
            }
            y = y + 1;
        }
        Some(Raster { width, rows })
    }

    /// Whether the pixel at `(x, y)` lies in the image and is dark.
    pub fn is_dark(&self, x: i64, y: i64) -> (r: bool)
        requires
            self.wf(),
        ensures
            r == self.dark(x as int, y as int),
    {
        if x < 0 || y < 0 || x as u64 >= self.width as u64 || y as u64 >= self.rows.len() as u64 {
            return false;
        }
        let row = &self.rows[y as usize];
        row[x as usize] == 0
    }
}

/// The two pixel templates of the scanner.
#[derive(Clone, Copy, PartialEq, Eq, Structural, Debug)]
pub enum Template {
    /// The 3 by 7 pattern of the message's top-left corner.
    Anchor,
    /// The 3 by 3 plus-shaped pupil of one eye.
    Iris,
}

/// The template's width in pixels.
pub open spec fn template_width(t: Template) -> int {
    3
}

/// The template's height in pixels.
pub open spec fn template_height(t: Template) -> int {
    match t {
        Template::Anchor => 7,
        Template::Iris => 3,
    }
}

/// Whether the template wants the pixel `i` right of and `j` below its
/// top-left corner bright.
pub open spec fn template_cell(t: Template, i: int, j: int) -> bool {
    match t {
        Template::Anchor => if i == 0 {
            j != 3
        } else if i == 1 {
            j != 2 && j != 4
        } else {
            j != 1 && j != 5
        },
        Template::Iris => i != 1 && j != 1,
    }
}

/// The template fits in the image with its top-left corner at `(x, y)`, and
/// every pixel under it is bright exactly where the template says so.
pub open spec fn matches_at(img: &Raster, t: Template, x: int, y: int) -> bool {
    &&& x + template_width(t) <= img.width
    &&& y + template_height(t) <= img.height()
    &&& forall|i: int, j: int|
        0 <= i < template_width(t) && 0 <= j < template_height(t) ==> #[trigger] img.bright(
            x + i,
            y + j,
        ) == template_cell(t, i, j)
}

impl Template {
    /// The template's width in pixels.
    pub fn width(self) -> (r: usize)
        ensures
            r == template_width(self),
    {
        3
    }

    /// The template's height in pixels.
    pub fn height(self) -> (r: usize)
        ensures
            r == template_height(self),
    {
        match self {
            Template::Anchor => 7,
            Template::Iris => 3,
        }
    }

    /// Whether the template wants pixel `(i, j)` of its area bright.
    pub fn cell(self, i: usize, j: usize) -> (r: bool)
        ensures
            r == template_cell(self, i as int, j as int),
    {
        match self {
            Template::Anchor => if i == 0 {
                j != 3
            } else if i == 1 {
                j != 2 && j != 4
            } else {
                j != 1 && j != 5
            },
            Template::Iris => i != 1 && j != 1,
        }
    }
}

/// Whether `template` matches with its top-left corner at `(x, y)`.
pub fn template_matches(img: &Raster, template: Template, x: usize, y: usize) -> (r: bool)
    requires
        img.wf(),
    ensures
        r == matches_at(img, template, x as int, y as int),
{
    let w = template.width();
    let h = template.height();
    if x > img.width || img.width - x < w || y > img.rows.len() || img.rows.len() - y < h {
        return false;
    }
    let mut j: usize = 0;
    while j < h
        invariant
            img.wf(),
            w == template_width(template),
            h == template_height(template),
            x + w <= img.width,
            y + h <= img.height(),
            j <= h,
            forall|i2: int, j2: int|
                0 <= i2 < w && 0 <= j2 < j ==> #[trigger] img.bright(x + i2, y + j2)
                    == template_cell(template, i2, j2),
        decreases h - j,
    {
        let row = &img.rows[y + j];
        let mut i: usize = 0;
        while i < w
            invariant
                img.wf(),
                w == template_width(template),
                h == template_height(template),
                x + w <= img.width,
                y + h <= img.height(),
                j < h,
                i <= w,
                *row == img.rows@[y + j],
                forall|i2: int, j2: int|
                    0 <= i2 < w && 0 <= j2 < j ==> #[trigger] img.bright(x + i2, y + j2)
                        == template_cell(template, i2, j2),
                forall|i2: int|
                    0 <= i2 < i ==> #[trigger] img.bright(x + i2, y + j) == template_cell(
                        template,
                        i2,
                        j as int,
                    ),
            decreases w - i,
        {
            assert(row@.len() == img.width);
            if (row[x + i] > 0) != template.cell(i, j) {
                assert(img.bright(x + i, y + j) != template_cell(template, i as int, j as int));
                return false;
            }
            i = i + 1;
        }
        j = j + 1;
    }
    true
}

/// The centres `(x + 1, y + 1)` of the irises whose top-left corner lies in
/// row `y` left of column `n`, left to right.
pub open spec fn irises_in_row(img: &Raster, y: int, n: int) -> Seq<(int, int)>
    decreases n,
{
    if n <= 0 {
        Seq::empty()
    } else if matches_at(img, Template::Iris, n - 1, y) {
        irises_in_row(img, y, n - 1).push((n, y + 1))
    } else {
        irises_in_row(img, y, n - 1)
    }
}

/// The iris centres of the first `m` rows, in raster order.
pub open spec fn irises_in_rows(img: &Raster, m: int) -> Seq<(int, int)>
    decreases m,
{
    if m <= 0 {
        Seq::empty()
    } else {
        irises_in_rows(img, m - 1) + irises_in_row(img, m - 1, img.width as int)
    }
}

/// The first anchor in row `y` left of column `n`.
pub open spec fn anchor_in_row(img: &Raster, y: int, n: int) -> Option<(int, int)>
    decreases n,
{
    if n <= 0 {
        None
    } else {
        match anchor_in_row(img, y, n - 1) {
            Some(p) => Some(p),
            None => if matches_at(img, Template::Anchor, n - 1, y) {
                Some((n - 1, y))
            } else {
                None
            },
        }
    }
}

/// The first anchor of the first `m` rows, in raster order.
pub open spec fn anchor_in_rows(img: &Raster, m: int) -> Option<(int, int)>
    decreases m,
{
    if m <= 0 {
        None
    } else {
        match anchor_in_rows(img, m - 1) {
            Some(p) => Some(p),
            None => anchor_in_row(img, m - 1, img.width as int),
        }
    }
}

/// The first anchor before position `(x, y)` in raster order.
pub open spec fn anchor_before(img: &Raster, y: int, x: int) -> Option<(int, int)> {
    match anchor_in_rows(img, y) {
        Some(p) => Some(p),
        None => anchor_in_row(img, y, x),
    }
}

/// The message's origin: the first anchor in raster order, else `(0, 0)`.
pub open spec fn anchor_origin(img: &Raster) -> (int, int) {
    match anchor_in_rows(img, img.height()) {
        Some(p) => p,
        None => (0, 0),
    }
}

/// Every iris centre of the image in raster order, less the origin.
pub open spec fn eye_centers(img: &Raster) -> Seq<(int, int)> {
    irises_in_rows(img, img.height()).map_values(
        |p: (int, int)| (p.0 - anchor_origin(img).0, p.1 - anchor_origin(img).1),
    )
}

/// Pairs of machine integers as pairs of integers.
pub open spec fn as_points(v: Seq<(usize, usize)>) -> Seq<(int, int)> {
    v.map_values(|p: (usize, usize)| (p.0 as int, p.1 as int))
}

/// Scans the image in raster order (top to bottom, each row left to right)
/// for the first anchor and for every iris, and returns each iris centre
/// relative to that anchor; without an anchor, relative to `(0, 0)`.
pub fn process_pixels(img_buff: &Raster) -> (r: Vec<PupilLocation>)
    requires
        img_buff.wf(),
    ensures
        r@.len() == eye_centers(img_buff).len(),
        forall|k: int|
            0 <= k < r@.len() ==> (#[trigger] r@[k].0 as int, r@[k].1 as int) == eye_centers(
                img_buff,
            )[k],
{
    let img = img_buff;
    let height = img.rows.len();
    let mut found = false;
    let mut origin_x: usize = 0;
    let mut origin_y: usize = 0;
    let mut centers: Vec<(usize, usize)> = Vec::new();
    let mut y: usize = 0;
    while y < height
        invariant
            img.wf(),
            height == img.height(),
            y <= height,
            as_points(centers@) == irises_in_rows(img, y as int),
            forall|k: int|
                0 <= k < centers@.len() ==> (#[trigger] centers@[k]).0 <= img.width
                    && centers@[k].1 <= height,
            found <==> anchor_in_rows(img, y as int) is Some,
            found ==> anchor_in_rows(img, y as int) == Some((origin_x as int, origin_y as int)),
            !found ==> origin_x == 0 && origin_y == 0,
            origin_x <= img.width,
            origin_y <= height,
        decreases height - y,
    {
        let ghost before_row = centers@;
        let mut x: usize = 0;
        while x < img.width
            invariant
                img.wf(),
                height == img.height(),
                y < height,
                x <= img.width,
                as_points(centers@) == irises_in_rows(img, y as int) + irises_in_row(
                    img,
                    y as int,
                    x as int,
                ),
                forall|k: int|
                    0 <= k < centers@.len() ==> (#[trigger] centers@[k]).0 <= img.width
                        && centers@[k].1 <= height,
                found <==> anchor_before(img, y as int, x as int) is Some,
                found ==> anchor_before(img, y as int, x as int) == Some(
                    (origin_x as int, origin_y as int),
                ),
                !found ==> origin_x == 0 && origin_y == 0,
                origin_x <= img.width,
                origin_y <= height,
            decreases img.width - x,
        {
            if !found && template_matches(img, Template::Anchor, x, y) {
                found = true;
                origin_x = x;
                origin_y = y;
            }
            let ghost old_centers = centers@;
            if template_matches(img, Template::Iris, x, y) {
                centers.push((x + 1, y + 1));
                assert(as_points(centers@) =~= as_points(old_centers).push(
                    ((x + 1) as int, (y + 1) as int),
                ));
            }
            x = x + 1;
        }
        y = y + 1;
    }
    let ghost all = centers@;
    let ox = origin_x as i64;
    let oy = origin_y as i64;
    let ghost origin = anchor_origin(img);
    assert(origin == (ox as int, oy as int));
    let mut out: Vec<PupilLocation> = Vec::new();
    let mut k: usize = 0;
    while k < centers.len()
        invariant
            img.wf(),
            height == img.height(),
            all == centers@,
            as_points(all) == irises_in_rows(img, height as int),
            forall|k2: int|
                0 <= k2 < all.len() ==> (#[trigger] all[k2]).0 <= img.width && all[k2].1
                    <= height,
            origin == anchor_origin(img),
            origin == (ox as int, oy as int),
            0 <= ox <= u32::MAX,
            0 <= oy <= u32::MAX,
            k <= all.len(),
            out@.len() == k,
            forall|k2: int|
                0 <= k2 < k ==> (#[trigger] out@[k2].0 as int, out@[k2].1 as int) == (
                    as_points(all)[k2].0 - origin.0,
                    as_points(all)[k2].1 - origin.1,
                ),
        decreases all.len() - k,
    {
        let c = centers[k];
        assert(c == all[k as int]);
        out.push((c.0 as i64 - ox, c.1 as i64 - oy));
        k = k + 1;
    }
    out
}

/// Which way an eye at `(x, y)` gazes: the first dark pixel of
/// `(x, y+2)`, `(x, y-2)`, `(x+1, y-2)`, `(x-1, y-2)` gives down, up,
/// right, left; none gives centre.
pub open spec fn gaze(img: &Raster, x: int, y: int) -> Direction {
    if img.dark(x, y + 2) {
        Direction::Down
    } else if img.dark(x, y - 2) {
        Direction::Up
    } else if img.dark(x + 1, y - 2) {
        Direction::Right
    } else if img.dark(x - 1, y - 2) {
        Direction::Left
    } else {
        Direction::Center
    }
}

/// Classifies the gaze of the eye centred at `(x, y)`; probes that fall
/// outside the image count as bright.
pub fn classify_gaze(img: &Raster, x: i64, y: i64) -> (r: Direction)
    requires
        img.wf(),
        i64::MIN < x < i64::MAX,
        i64::MIN + 2 <= y <= i64::MAX - 2,
    ensures
        r == gaze(img, x as int, y as int),
{
    if img.is_dark(x, y + 2) {
        Direction::Down
    } else if img.is_dark(x, y - 2) {
        Direction::Up
    } else if img.is_dark(x + 1, y - 2) {
        Direction::Right
    } else if img.is_dark(x - 1, y - 2) {
        Direction::Left
    } else {
        Direction::Center
    }
}

} // verus!
