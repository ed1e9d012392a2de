//! Placement of eyes into the grid of trigrams. Trigram tiles are 18 pixels
//! wide and 14 tall; the message's leftmost 3 pixels belong to no column.

use vstd::prelude::*;

use crate::direction::{blank_trigram, symbol_of, symbols_of, Direction, Trigram};
use crate::error::DecodeError;
use crate::raster::{classify_gaze, eye_centers, gaze, PupilLocation, Raster};

verus! {

/// Rows of three-letter trigram strings such as `"clr"`.
pub type TrigramMessage = Vec<Vec<String>>;

/// The slot that a fraction `num / den` of a tile's width gives: below 0.37
/// slot 0, above 0.51 slot 2, else slot 1 (both bounds belong to slot 1).
pub open spec fn slot_of_ratio(num: int, den: int) -> int {
    if 100 * num < 37 * den {
        0
    } else if 100 * num > 51 * den {
        2
    } else {
        1
    }
}

/// The slot for the fraction `numerator / denominator` of a tile's width.
pub fn slot_for_ratio(numerator: u32, denominator: u32) -> (r: usize)
    requires
        denominator > 0,
    ensures
        r == slot_of_ratio(numerator as int, denominator as int),
{
    let n = numerator as u64;
    let d = denominator as u64;
    if 100 * n < 37 * d {
        0
    } else if 100 * n > 51 * d {
        2
    } else {
        1
    }
}

/// The eye lies right of the padding, not above the message, and within
/// the coordinates of an image.
pub open spec fn eye_inside(p: (int, int)) -> bool {
    3 <= p.0 <= u32::MAX && 0 <= p.1 <= u32::MAX
}

/// Row, column and slot of an eye at message-local `p`.
pub open spec fn eye_cell(p: (int, int)) -> (int, int, int) {
    (p.1 / 14, (p.0 - 3) / 18, slot_of_ratio((p.0 - 3) % 18, 18))
}

/// Row, column and slot of the eye at `location`, or `None` when it lies
/// outside the message.
pub fn locate_eye(location: PupilLocation) -> (r: Option<(usize, usize, usize)>)
    ensures
        r is Some <==> eye_inside((location.0 as int, location.1 as int)),
        r matches Some(c) ==> (c.0 as int, c.1 as int, c.2 as int) == eye_cell(
            (location.0 as int, location.1 as int),
        ),
{
    let (x, y) = location;
    if x < 3 || x > 4294967295 || y < 0 || y > 4294967295 {
        return None;
    }
    let shifted = (x - 3) as u32;
    let row = (y as u32 / 14) as usize;
    let col = (shifted / 18) as usize;
    let slot = slot_for_ratio(shifted % 18, 18);
    Some((row, col, slot))
}

/// A grid as rows of trigrams.
pub open spec fn grid_view(g: Seq<Vec<Trigram>>) -> Seq<Seq<Trigram>> {
    g.map_values(|line: Vec<Trigram>| line@)
}

/// `g` with slot `slot` of cell `(row, col)` set to `d`: missing rows are
/// appended empty, and a short row is filled with blank trigrams up to and
/// including column `col`.
pub open spec fn place(
    g: Seq<Seq<Trigram>>,
    row: int,
    col: int,
    slot: int,
    d: Direction,
) -> Seq<Seq<Trigram>> {
    let rows = if row < g.len() {
        g
    } else {
        g + Seq::new((row + 1 - g.len()) as nat, |i: int| Seq::<Trigram>::empty())
    };
    let line = rows[row];
    let cells = if col < line.len() {
        line
    } else {
        line + Seq::new((col + 1 - line.len()) as nat, |i: int| blank_trigram())
    };
    rows.update(row, cells.update(col, cells[col].set_slot(slot, d)))
}

/// Pairs of `i64` as pairs of integers.
pub open spec fn locations_of(v: Seq<PupilLocation>) -> Seq<(int, int)> {
    v.map_values(|p: PupilLocation| (p.0 as int, p.1 as int))
}

/// The grid that placing every eye in turn, with the gaze read from `img`,
/// builds from an empty one.
pub open spec fn build_grid(img: &Raster, eyes: Seq<(int, int)>) -> Seq<Seq<Trigram>>
    decreases eyes.len(),
{
    if eyes.len() == 0 {
        Seq::empty()
    } else {
        let p = eyes.last();
        let c = eye_cell(p);
        place(build_grid(img, eyes.drop_last()), c.0, c.1, c.2, gaze(img, p.0, p.1))
    }
}

/// Sets slot `slot` of cell `(row, col)` to `d`, growing the grid as
/// [`place`] says.
fn place_eye(grid: &mut Vec<Vec<Trigram>>, row: usize, col: usize, slot: usize, d: Direction)
    requires
        slot < 3,
        row < usize::MAX,
        col < usize::MAX,
    ensures
        grid_view(final(grid)@) == place(grid_view(old(grid)@), row as int, col as int, slot as int, d),
{
    let ghost g0 = grid_view(grid@);
    while grid.len() <= row
        invariant
            row < usize::MAX,
            g0.len() <= grid@.len(),
            forall|i: int| 0 <= i < g0.len() ==> (#[trigger] grid@[i])@ == g0[i],
            forall|i: int| g0.len() <= i < grid@.len() ==> (#[trigger] grid@[i])@.len() == 0,
            row >= g0.len() ==> grid@.len() <= row + 1,
            row < g0.len() ==> grid@.len() == g0.len(),
        decreases row + 1 - grid@.len(),
    {
        grid.push(Vec::new());
    }
    let ghost rows = if row < g0.len() {
        g0
    } else {
        g0 + Seq::new((row + 1 - g0.len()) as nat, |i: int| Seq::<Trigram>::empty())
    };
    assert forall|i: int| 0 <= i < rows.len() implies grid_view(grid@)[i] == rows[i] by {
        if i >= g0.len() {
            assert(grid@[i]@ =~= rows[i]);
        }
    }
    assert(grid_view(grid@) =~= rows);
    while grid[row].len() <= col
        invariant
            row < grid@.len(),
            col < usize::MAX,
            grid_view(grid@).len() == rows.len(),
            forall|i: int| 0 <= i < rows.len() && i != row ==> (#[trigger] grid@[i])@ == rows[i],
            rows[row as int].len() <= grid@[row as int]@.len(),
            forall|j: int|
                0 <= j < rows[row as int].len() ==> (#[trigger] grid@[row as int]@[j])
                    == rows[row as int][j],
            forall|j: int|
                rows[row as int].len() <= j < grid@[row as int]@.len() ==> (#[trigger] grid@[row as int]@[j])
                    == blank_trigram(),
            col < rows[row as int].len() ==> grid@[row as int]@.len() == rows[row as int].len(),
            col >= rows[row as int].len() ==> grid@[row as int]@.len() <= col + 1,
        decreases col + 1 - grid@[row as int]@.len(),
    {
        grid[row].push(Trigram::blank());
    }
    let ghost line = rows[row as int];
    let ghost cells = if (col as int) < line.len() {
        line
    } else {
        line + Seq::new((col + 1 - line.len()) as nat, |i: int| blank_trigram())
    };
    assert(grid@[row as int]@ =~= cells);
    let updated = grid[row][col].with_slot(slot, d);
    grid[row][col] = updated;
    assert(grid_view(grid@) =~= rows.update(
        row as int,
        cells.update(col as int, cells[col as int].set_slot(slot as int, d)),
    ));
}

/// Places every eye in turn into an empty grid, with the gaze that `img`
/// shows around it; fails on the first eye outside the message.
pub fn build_trigram_grid(pupil_locations: &Vec<PupilLocation>, img: &Raster) -> (r: Result<
    Vec<Vec<Trigram>>,
    DecodeError,
>)
    requires
        img.wf(),
    ensures
        r is Ok <==> (forall|k: int|
            0 <= k < pupil_locations@.len() ==> eye_inside(
                #[trigger] locations_of(pupil_locations@)[k],
            )),
        r matches Ok(g) ==> grid_view(g@) == build_grid(img, locations_of(pupil_locations@)),
        r matches Err(e) ==> e == DecodeError::EyeOutsideMessage,
{
    let ghost eyes = locations_of(pupil_locations@);
    let mut grid: Vec<Vec<Trigram>> = Vec::new();
    let mut k: usize = 0;
    while k < pupil_locations.len()
        invariant
            img.wf(),
            eyes == locations_of(pupil_locations@),
            k <= eyes.len(),
            forall|k2: int| 0 <= k2 < k ==> eye_inside(#[trigger] eyes[k2]),
            grid_view(grid@) == build_grid(img, eyes.subrange(0, k as int)),
        decreases eyes.len() - k,
    {
        let location = pupil_locations[k];
        assert(eyes[k as int] == (location.0 as int, location.1 as int));
        match locate_eye(location) {
            None => {
                return Err(DecodeError::EyeOutsideMessage);
            },
            Some((row, col, slot)) => {
                let d = classify_gaze(img, location.0, location.1);
                place_eye(&mut grid, row, col, slot, d);
                assert(eyes.subrange(0, k + 1).drop_last() =~= eyes.subrange(0, k as int));
            },
        }
        k = k + 1;
    }
    assert(eyes.subrange(0, eyes.len() as int) =~= eyes);
    Ok(grid)
}

/// A grid written as rows of trigram strings.
pub open spec fn message_of(g: Seq<Seq<Trigram>>) -> Seq<Seq<Seq<char>>> {
    g.map_values(|line: Seq<Trigram>| line.map_values(|t: Trigram| symbols_of(t)))
}

/// Writes every trigram of a grid as its three-letter string.
pub fn message_of_grid(grid: &Vec<Vec<Trigram>>) -> (r: TrigramMessage)
    ensures
        r.deep_view() == message_of(grid_view(grid@)),
{
    let mut rows: TrigramMessage = Vec::new();
    let mut i: usize = 0;
    while i < grid.len()
        invariant
            i <= grid@.len(),
            rows@.len() == i,
            forall|i2: int|
                0 <= i2 < i ==> (#[trigger] rows@[i2]).deep_view() == message_of(grid_view(grid@))[i2],
        decreases grid@.len() - i,
    {
        let line = &grid[i];
        let mut out: Vec<String> = Vec::new();
        let mut j: usize = 0;
        while j < line.len()
            invariant
                i < grid@.len(),
                *line == grid@[i as int],
                j <= line@.len(),
                out@.len() == j,
                forall|j2: int| 0 <= j2 < j ==> (#[trigger] out@[j2])@ == symbols_of(line@[j2]),
            decreases line@.len() - j,
        {
            out.push(line[j].to_state());
            j = j + 1;
        }
        assert(out.deep_view() =~= message_of(grid_view(grid@))[i as int]);
        rows.push(out);
        i = i + 1;
    }
    assert(rows.deep_view() =~= message_of(grid_view(grid@)));
    rows
}

/// Places every eye into the trigram grid and writes the grid as rows of
/// trigram strings; unset slots read as `c`. Fails on the first eye outside
/// the message.
pub fn process_pupils(pupil_locations: Vec<PupilLocation>, img_buff: &Raster) -> (r: Result<
    TrigramMessage,
    DecodeError,
>)
    requires
        img_buff.wf(),
    ensures
        r is Ok <==> (forall|k: int|
            0 <= k < pupil_locations@.len() ==> eye_inside(
                #[trigger] locations_of(pupil_locations@)[k],
            )),
        r matches Ok(m) ==> m.deep_view() == message_of(
            build_grid(img_buff, locations_of(pupil_locations@)),
        ),
        r matches Err(e) ==> e == DecodeError::EyeOutsideMessage,
{
    match build_trigram_grid(&pupil_locations, img_buff) {
        Ok(grid) => Ok(message_of_grid(&grid)),
        Err(e) => Err(e),
    }
}

/// Placing an eye sets its slot, grows the grid to hold its cell, and keeps
/// every other slot of every cell that was already there.
pub proof fn lemma_place(g: Seq<Seq<Trigram>>, row: int, col: int, slot: int, d: Direction)
    requires
        0 <= row,
        0 <= col,
        0 <= slot < 3,
    ensures
        ({
            let p = place(g, row, col, slot, d);
            &&& row < p.len()
            &&& col < p[row].len()
            &&& p[row][col].slot(slot) == d
            &&& g.len() <= p.len()
            &&& forall|r: int| 0 <= r < g.len() ==> g[r].len() <= (#[trigger] p[r]).len()
            &&& forall|r: int, c: int, s: int|
                0 <= r < g.len() && 0 <= c < g[r].len() && 0 <= s < 3 && (r, c, s) != (
                    row,
                    col,
                    slot,
                ) ==> #[trigger] p[r][c].slot(s) == g[r][c].slot(s)
        }),
{
}

/// The eye that comes last among those placed into one slot decides that
/// slot: the grid holds its cell, and the slot shows the eye's gaze.
pub proof fn last_eye_decides_slot(img: &Raster, eyes: Seq<(int, int)>, k: int)
    requires
        0 <= k < eyes.len(),
        forall|j: int| 0 <= j < eyes.len() ==> eye_inside(#[trigger] eyes[j]),
        forall|j: int| k < j < eyes.len() ==> eye_cell(#[trigger] eyes[j]) != eye_cell(eyes[k]),
    ensures
        ({
            let c = eye_cell(eyes[k]);
            let g = build_grid(img, eyes);
            &&& c.0 < g.len()
            &&& c.1 < g[c.0].len()
            &&& g[c.0][c.1].slot(c.2) == gaze(img, eyes[k].0, eyes[k].1)
            &&& message_of(g)[c.0][c.1][c.2] == symbol_of(gaze(img, eyes[k].0, eyes[k].1))
        }),
    decreases eyes.len(),
{
    let c = eye_cell(eyes[k]);
    let prev = eyes.drop_last();
    let last = eyes.last();
    let lc = eye_cell(last);
    assert(eye_inside(eyes[eyes.len() - 1]));
    lemma_place(build_grid(img, prev), lc.0, lc.1, lc.2, gaze(img, last.0, last.1));
    if k < eyes.len() - 1 {
        assert forall|j: int| 0 <= j < prev.len() implies eye_inside(#[trigger] prev[j]) by {
            assert(eye_inside(eyes[j]));
        }
        assert forall|j: int| k < j < prev.len() implies eye_cell(#[trigger] prev[j]) != eye_cell(
            prev[k],
        ) by {
            assert(eye_cell(eyes[j]) != eye_cell(eyes[k]));
        }
        last_eye_decides_slot(img, prev, k);
        assert(eye_cell(eyes[eyes.len() - 1]) != c);
    }
    let g = build_grid(img, eyes);
    assert(message_of(g)[c.0][c.1] == symbols_of(g[c.0][c.1]));
}

/// An image whose one eye lies in the first tile gives a grid of one row
/// of one trigram: the eye's slot shows its gaze, the other two are centred.
pub proof fn single_eye_single_cell(img: &Raster)
    requires
        eye_centers(img).len() == 1,
        eye_inside(eye_centers(img)[0]),
        eye_cell(eye_centers(img)[0]).0 == 0,
        eye_cell(eye_centers(img)[0]).1 == 0,
    ensures
        ({
            let p = eye_centers(img)[0];
            let g = build_grid(img, eye_centers(img));
            &&& g.len() == 1
            &&& g[0].len() == 1
            &&& g[0][0] == blank_trigram().set_slot(eye_cell(p).2, gaze(img, p.0, p.1))
            &&& message_of(g).len() == 1
            &&& message_of(g)[0].len() == 1
            &&& message_of(g)[0][0].len() == 3
            &&& message_of(g)[0][0][eye_cell(p).2] == symbol_of(gaze(img, p.0, p.1))
            &&& forall|s: int|
                0 <= s < 3 && s != eye_cell(p).2 ==> #[trigger] message_of(g)[0][0][s] == 'c'
        }),
{
    let eyes = eye_centers(img);
    let p = eyes[0];
    assert(eyes.drop_last() =~= Seq::<(int, int)>::empty());
    assert(build_grid(img, eyes.drop_last()) =~= Seq::<Seq<Trigram>>::empty());
    let g = build_grid(img, eyes);
    assert(message_of(g)[0][0] == symbols_of(g[0][0]));
}

} // verus!
