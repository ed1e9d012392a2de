//! The triangle catalog: each of the 125 trigram codes read as a triangle
//! whose corners are the three eye centres, keyed by its sorted squared side
//! lengths, and the list of distinct keys in order of first occurrence.

use vstd::prelude::*;

use crate::direction::{state_code, trigram_of_code, trigram_state_to_decimal, Direction, Trigram};
use crate::error::DecodeError;

verus! {

/// A point of the icon's plane; `x` grows rightwards, `y` downwards.
pub type Point = (i32, i32);

/// The congruence key of a triangle: its three squared side lengths in
/// ascending order.
#[derive(Clone, Copy, PartialEq, Eq, Structural, Debug)]
pub struct Signature {
    pub short: i32,
    pub middle: i32,
    pub long: i32,
}

/// The nominal centre of the eye in slot `i` of an icon.
pub open spec fn base_vertex(i: int) -> (int, int) {
    if i == 0 {
        (0, 0)
    } else if i == 1 {
        (6, 7)
    } else {
        (12, 0)
    }
}

/// How far a gaze moves the pupil from the eye's centre.
pub open spec fn offset_of(d: Direction) -> (int, int) {
    match d {
        Direction::Center => (0, 0),
        Direction::Left => (-1, 0),
        Direction::Right => (1, 0),
        Direction::Up => (0, -1),
        Direction::Down => (0, 1),
    }
}

/// The corner of a trigram's triangle in slot `i`.
pub open spec fn corner(t: Trigram, i: int) -> (int, int) {
    (base_vertex(i).0 + offset_of(t.slot(i)).0, base_vertex(i).1 + offset_of(t.slot(i)).1)
}

/// The squared distance between two points.
pub open spec fn sq_dist(p: (int, int), q: (int, int)) -> int {
    (p.0 - q.0) * (p.0 - q.0) + (p.1 - q.1) * (p.1 - q.1)
}

/// Three integers in ascending order.
pub open spec fn sort3(a: int, b: int, c: int) -> (int, int, int) {
    if a <= b {
        if b <= c {
            (a, b, c)
        } else if a <= c {
            (a, c, b)
        } else {
            (c, a, b)
        }
    } else {
        if a <= c {
            (b, a, c)
        } else if b <= c {
            (b, c, a)
        } else {
            (c, b, a)
        }
    }
}

/// The signature of a triangle given by its unsorted squared sides.
pub open spec fn signature_from_sides(a: int, b: int, c: int) -> Signature {
    Signature {
        short: sort3(a, b, c).0 as i32,
        middle: sort3(a, b, c).1 as i32,
        long: sort3(a, b, c).2 as i32,
    }
}

/// The signature of the triangle that a trigram draws, from the sides
/// corner 1 to corner 0, corner 2 to corner 1 and corner 0 to corner 2.
pub open spec fn triangle_signature(t: Trigram) -> Signature {
    signature_from_sides(
        sq_dist(corner(t, 1), corner(t, 0)),
        sq_dist(corner(t, 2), corner(t, 1)),
        sq_dist(corner(t, 0), corner(t, 2)),
    )
}

/// The signature of every code, indexed by code.
pub open spec fn all_signatures() -> Seq<Signature> {
    Seq::new(125, |code: int| triangle_signature(trigram_of_code(code)))
}

/// `s` without repeats, each value kept where it first occurs.
pub open spec fn unique_of<A>(s: Seq<A>) -> Seq<A>
    decreases s.len(),
{
    if s.len() == 0 {
        Seq::empty()
    } else {
        let u = unique_of(s.drop_last());
        if u.contains(s.last()) {
            u
        } else {
            u.push(s.last())
        }
    }
}

/// The distinct signatures in order of first occurrence.
pub open spec fn unique_signatures() -> Seq<Signature> {
    unique_of(all_signatures())
}

/// The canonical index of a code: where its signature stands among the
/// distinct ones.
pub open spec fn canonical_index(code: int) -> int {
    unique_signatures().index_of(all_signatures()[code])
}

/// `i` is the first place where `x` stands in `s`.
pub open spec fn is_first_position<A>(s: Seq<A>, x: A, i: int) -> bool {
    &&& 0 <= i < s.len()
    &&& s[i] == x
    &&& forall|j: int| 0 <= j < i ==> s[j] != x
}

/// `unique_of` keeps exactly the values of `s`, each once.
pub proof fn lemma_unique_of<A>(s: Seq<A>)
    ensures
        unique_of(s).no_duplicates(),
        forall|x: A| unique_of(s).contains(x) <==> s.contains(x),
        unique_of(s).len() <= s.len(),
    decreases s.len(),
{
    if s.len() > 0 {
        let p = s.drop_last();
        lemma_unique_of(p);
        assert forall|x: A| s.contains(x) <==> (p.contains(x) || x == s.last()) by {
            if s.contains(x) {
                let k = choose|k: int| 0 <= k < s.len() && s[k] == x;
                if k < s.len() - 1 {
                    assert(p[k] == x);
                }
            }
            if p.contains(x) {
                let k = choose|k: int| 0 <= k < p.len() && p[k] == x;
                assert(s[k] == x);
            }
            if x == s.last() {
                assert(s[s.len() - 1] == x);
            }
        }
        let u = unique_of(p);
        if !u.contains(s.last()) {
            assert forall|x: A| u.push(s.last()).contains(x) <==> (u.contains(x) || x == s.last()) by {
                if u.push(s.last()).contains(x) {
                    let k = choose|k: int| 0 <= k < u.len() + 1 && u.push(s.last())[k] == x;
                    if k < u.len() {
                        assert(u[k] == x);
                    }
                }
                if u.contains(x) {
                    let k = choose|k: int| 0 <= k < u.len() && u[k] == x;
                    assert(u.push(s.last())[k] == x);
                }
                if x == s.last() {
                    assert(u.push(s.last())[u.len() as int] == x);
                }
            }
        }
    }
}

/// A value that `s` holds twice leaves `unique_of(s)` shorter than `s`.
pub proof fn lemma_unique_of_shorter<A>(s: Seq<A>, i: int, j: int)
    requires
        0 <= i < j < s.len(),
        s[i] == s[j],
    ensures
        unique_of(s).len() < s.len(),
    decreases s.len(),
{
    let p = s.drop_last();
    lemma_unique_of(p);
    if j == s.len() - 1 {
        assert(p[i] == s.last());
        assert(p.contains(s.last()));
        assert(unique_of(p).contains(s.last()));
    } else {
        lemma_unique_of_shorter(p, i, j);
    }
}

// ##### geometry #####

/// The difference of two points.
pub fn sub_coords(coord1: Point, coord2: Point) -> (r: Point)
    requires
        i32::MIN <= coord1.0 - coord2.0 <= i32::MAX,
        i32::MIN <= coord1.1 - coord2.1 <= i32::MAX,
    ensures
        r.0 == coord1.0 - coord2.0,
        r.1 == coord1.1 - coord2.1,
{
    (coord1.0 - coord2.0, coord1.1 - coord2.1)
}

/// The squared length of a vector.
pub fn get_magnitude(vector: Point) -> (r: i32)
    requires
        vector.0 * vector.0 + vector.1 * vector.1 <= i32::MAX,
    ensures
        r == vector.0 * vector.0 + vector.1 * vector.1,
        r >= 0,
{
    let x = vector.0;
    let y = vector.1;
    assert(0 <= x * x) by (nonlinear_arith);
    assert(0 <= y * y) by (nonlinear_arith);
    x * x + y * y
}

/// The side from `q` to `p` can be computed in `i32`: both coordinate
/// differences and the squared length fit.
pub open spec fn side_fits(p: Point, q: Point) -> bool {
    &&& i32::MIN <= p.0 - q.0 <= i32::MAX
    &&& i32::MIN <= p.1 - q.1 <= i32::MAX
    &&& sq_dist(point_of(p), point_of(q)) <= i32::MAX
}

/// A side between points no more than 100 apart on either axis fits.
proof fn lemma_short_side_fits(p: Point, q: Point)
    requires
        -100 <= p.0 - q.0 <= 100,
        -100 <= p.1 - q.1 <= 100,
    ensures
        side_fits(p, q),
{
    let dx = p.0 - q.0;
    let dy = p.1 - q.1;
    assert(dx * dx + dy * dy <= 20000) by (nonlinear_arith)
        requires
            -100 <= dx <= 100,
            -100 <= dy <= 100,
    ;
}

/// The signature of the triangle with the given corners: the squared sides
/// corner 1 to corner 0, corner 2 to corner 1, corner 0 to corner 2, sorted.
/// Each side must be computable without overflowing an `i32`.
pub fn get_side_lengths(combination: [Point; 3]) -> (r: Signature)
    requires
        side_fits(combination@[1], combination@[0]),
        side_fits(combination@[2], combination@[1]),
        side_fits(combination@[0], combination@[2]),
    ensures
        r == signature_from_sides(
            sq_dist(point_of(combination@[1]), point_of(combination@[0])),
            sq_dist(point_of(combination@[2]), point_of(combination@[1])),
            sq_dist(point_of(combination@[0]), point_of(combination@[2])),
        ),
{
    let corner0 = combination[0];
    let corner1 = combination[1];
    let corner2 = combination[2];
    let d10 = sub_coords(corner1, corner0);
    let d21 = sub_coords(corner2, corner1);
    let d02 = sub_coords(corner0, corner2);
    let a = get_magnitude(d10);
    let b = get_magnitude(d21);
    let c = get_magnitude(d02);
    let (short, middle, long) = if a <= b {
        if b <= c {
            (a, b, c)
        } else if a <= c {
            (a, c, b)
        } else {
            (c, a, b)
        }
    } else {
        if a <= c {
            (b, a, c)
        } else if b <= c {
            (b, c, a)
        } else {
            (c, b, a)
        }
    };
    Signature { short, middle, long }
}

/// A point of machine integers as a pair of integers.
pub open spec fn point_of(p: Point) -> (int, int) {
    (p.0 as int, p.1 as int)
}

/// The nominal eye centres of an icon.
fn base_eye_coords() -> (r: [Point; 3])
    ensures
        forall|i: int| 0 <= i < 3 ==> point_of(#[trigger] r@[i]) == base_vertex(i),
{
    [(0, 0), (6, 7), (12, 0)]
}

/// The pupil offset of a gaze.
fn offset(d: Direction) -> (r: Point)
    ensures
        point_of(r) == offset_of(d),
{
    match d {
        Direction::Center => (0, 0),
        Direction::Left => (-1, 0),
        Direction::Right => (1, 0),
        Direction::Up => (0, -1),
        Direction::Down => (0, 1),
    }
}

/// The corners of the triangle that a trigram draws.
fn triangle_corners(t: Trigram) -> (r: [Point; 3])
    ensures
        forall|i: int| 0 <= i < 3 ==> point_of(#[trigger] r@[i]) == corner(t, i),
{
    let base = base_eye_coords();
    let o0 = offset(t.first);
    let o1 = offset(t.second);
    let o2 = offset(t.third);
    let r = [
        (base[0].0 + o0.0, base[0].1 + o0.1),
        (base[1].0 + o1.0, base[1].1 + o1.1),
        (base[2].0 + o2.0, base[2].1 + o2.1),
    ];
    assert(point_of(r@[0]) == corner(t, 0));
    assert(point_of(r@[1]) == corner(t, 1));
    assert(point_of(r@[2]) == corner(t, 2));
    r
}

/// The first place where `triangle` stands in `triangles`, if any.
pub fn get_triangle_index_in(triangle: Signature, triangles: &Vec<Signature>) -> (r: Option<usize>)
    ensures
        r matches Some(i) ==> is_first_position(triangles@, triangle, i as int),
        r is None ==> !triangles@.contains(triangle),
{
    let mut i: usize = 0;
    while i < triangles.len()
        invariant
            i <= triangles@.len(),
            forall|j: int| 0 <= j < i ==> triangles@[j] != triangle,
        decreases triangles@.len() - i,
    {
        if triangles[i] == triangle {
            return Some(i);
        }
        i = i + 1;
    }
    None
}

/// The signature of every code, in code order.
pub fn get_all_triangles() -> (r: Vec<Signature>)
    ensures
        r@ == all_signatures(),
{
    let mut all: Vec<Signature> = Vec::new();
    let mut code: usize = 0;
    while code < 125
        invariant
            code <= 125,
            all@.len() == code,
            forall|c: int| 0 <= c < code ==> all@[c] == triangle_signature(trigram_of_code(c)),
        decreases 125 - code,
    {
        let t = Trigram::from_code(code);
        let corners = triangle_corners(t);
        assert(point_of(corners@[0]) == corner(t, 0));
        assert(point_of(corners@[1]) == corner(t, 1));
        assert(point_of(corners@[2]) == corner(t, 2));
        proof {
            lemma_short_side_fits(corners@[1], corners@[0]);
            lemma_short_side_fits(corners@[2], corners@[1]);
            lemma_short_side_fits(corners@[0], corners@[2]);
        }
        all.push(get_side_lengths(corners));
        code = code + 1;
    }
    assert(all@ =~= all_signatures());
    all
}

/// The signatures of `all_triangles` without repeats, each kept where it
/// first occurs.
pub fn get_unique_triangle_set(all_triangles: &Vec<Signature>) -> (r: Vec<Signature>)
    ensures
        r@ == unique_of(all_triangles@),
{
    let mut unique: Vec<Signature> = Vec::new();
    let mut i: usize = 0;
    while i < all_triangles.len()
        invariant
            i <= all_triangles@.len(),
            unique@ == unique_of(all_triangles@.subrange(0, i as int)),
        decreases all_triangles@.len() - i,
    {
        let prefix = Ghost(all_triangles@.subrange(0, i as int));
        let next = Ghost(all_triangles@.subrange(0, i + 1));
        assert(next@.drop_last() =~= prefix@);
        proof {
            lemma_unique_of(prefix@);
        }
        let look_for = all_triangles[i];
        let first = get_triangle_index_in(look_for, all_triangles);
        let keep = match first {
            Some(other) => other == i,
            None => true,
        };
        proof {
            if prefix@.contains(look_for) {
                let k = choose|k: int| 0 <= k < prefix@.len() && prefix@[k] == look_for;
                assert(all_triangles@[k] == look_for);
            } else {
                assert forall|j: int| 0 <= j < i implies all_triangles@[j] != look_for by {
                    assert(prefix@[j] == all_triangles@[j]);
                }
            }
        }
        if keep {
            unique.push(look_for);
        }
        i = i + 1;
    }
    assert(all_triangles@.subrange(0, all_triangles@.len() as int) =~= all_triangles@);
    unique
}

/// Every canonical index names the one place of the code's signature among
/// the distinct signatures.
pub proof fn lemma_canonical_index(code: int)
    requires
        0 <= code < 125,
    ensures
        0 <= canonical_index(code) < unique_signatures().len(),
        unique_signatures()[canonical_index(code)] == all_signatures()[code],
        forall|j: int|
            0 <= j < unique_signatures().len() && unique_signatures()[j] == all_signatures()[code]
                ==> j == canonical_index(code),
{
    let a = all_signatures();
    let u = unique_signatures();
    lemma_unique_of(a);
    assert(a.contains(a[code]));
    assert(u.contains(a[code]));
}

/// Two codes share a canonical index exactly when their triangles share a
/// signature.
pub proof fn same_class_iff_same_signature(c1: int, c2: int)
    requires
        0 <= c1 < 125,
        0 <= c2 < 125,
    ensures
        (all_signatures()[c1] == all_signatures()[c2]) <==> (canonical_index(c1)
            == canonical_index(c2)),
{
    lemma_canonical_index(c1);
    lemma_canonical_index(c2);
}

/// The squared side between corners `i` and `k` of a trigram, from the
/// side's components.
proof fn lemma_side(t: Trigram, i: int, k: int, dx: int, dy: int, v: int)
    requires
        corner(t, i).0 - corner(t, k).0 == dx,
        corner(t, i).1 - corner(t, k).1 == dy,
        dx * dx + dy * dy == v,
    ensures
        sq_dist(corner(t, i), corner(t, k)) == v,
{
}

/// The 125 codes fall into more than one class and fewer than 125: mirror
/// images share a signature.
pub proof fn class_count_bounds()
    ensures
        1 < unique_signatures().len() < 125,
{
    let a = all_signatures();
    lemma_unique_of(a);
    lemma_canonical_index(0);
    lemma_canonical_index(1);
    let t0 = trigram_of_code(0);
    let t1 = trigram_of_code(1);
    let t2 = trigram_of_code(2);
    let t25 = trigram_of_code(25);
    assert(t0 == Trigram { first: Direction::Center, second: Direction::Center, third: Direction::Center });
    assert(t1 == Trigram { first: Direction::Center, second: Direction::Center, third: Direction::Left });
    assert(t2 == Trigram { first: Direction::Center, second: Direction::Center, third: Direction::Right });
    assert(t25 == Trigram { first: Direction::Left, second: Direction::Center, third: Direction::Center });
    assert((6) * (6) + (7) * (7) == 85) by (nonlinear_arith);
    lemma_side(t0, 1, 0, 6, 7, 85);
    assert((6) * (6) + (-7) * (-7) == 85) by (nonlinear_arith);
    lemma_side(t0, 2, 1, 6, -7, 85);
    assert((-12) * (-12) + (0) * (0) == 144) by (nonlinear_arith);
    lemma_side(t0, 0, 2, -12, 0, 144);
    assert(triangle_signature(t0) == Signature { short: 85, middle: 85, long: 144 });
    assert((6) * (6) + (7) * (7) == 85) by (nonlinear_arith);
    lemma_side(t1, 1, 0, 6, 7, 85);
    assert((5) * (5) + (-7) * (-7) == 74) by (nonlinear_arith);
    lemma_side(t1, 2, 1, 5, -7, 74);
    assert((-11) * (-11) + (0) * (0) == 121) by (nonlinear_arith);
    lemma_side(t1, 0, 2, -11, 0, 121);
    assert(triangle_signature(t1) == Signature { short: 74, middle: 85, long: 121 });
    assert((6) * (6) + (7) * (7) == 85) by (nonlinear_arith);
    lemma_side(t2, 1, 0, 6, 7, 85);
    assert((7) * (7) + (-7) * (-7) == 98) by (nonlinear_arith);
    lemma_side(t2, 2, 1, 7, -7, 98);
    assert((-13) * (-13) + (0) * (0) == 169) by (nonlinear_arith);
    lemma_side(t2, 0, 2, -13, 0, 169);
    assert(triangle_signature(t2) == Signature { short: 85, middle: 98, long: 169 });
    assert((7) * (7) + (7) * (7) == 98) by (nonlinear_arith);
    lemma_side(t25, 1, 0, 7, 7, 98);
    assert((6) * (6) + (-7) * (-7) == 85) by (nonlinear_arith);
    lemma_side(t25, 2, 1, 6, -7, 85);
    assert((-13) * (-13) + (0) * (0) == 169) by (nonlinear_arith);
    lemma_side(t25, 0, 2, -13, 0, 169);
    assert(triangle_signature(t25) == Signature { short: 85, middle: 98, long: 169 });
    assert(a[0] != a[1]);
    assert(a[2] == a[25]);
    lemma_unique_of_shorter(a, 2, 25);
}

/// The catalog of all 125 triangle signatures and of the distinct ones.
pub struct TriangleCatalog {
    /// The signature of each code, indexed by code.
    pub all_triangles: Vec<Signature>,
    /// The distinct signatures in order of first occurrence.
    pub unique_triangles: Vec<Signature>,
}

impl TriangleCatalog {
    /// Both tables hold what the fixed geometry gives.
    pub open spec fn wf(&self) -> bool {
        &&& self.all_triangles@ == all_signatures()
        &&& self.unique_triangles@ == unique_signatures()
    }

    /// Builds both tables from the fixed eye centres and pupil offsets.
    pub fn new() -> (r: TriangleCatalog)
        ensures
            r.wf(),
    {
        let all_triangles = get_all_triangles();
        let unique_triangles = get_unique_triangle_set(&all_triangles);
        TriangleCatalog { all_triangles, unique_triangles }
    }

    /// The signature of a code's triangle.
    pub fn signature(&self, code: usize) -> (r: Signature)
        requires
            self.wf(),
            code < 125,
        ensures
            r == all_signatures()[code as int],
    {
        self.all_triangles[code]
    }

    /// The canonical index of a code.
    pub fn decode(&self, code: usize) -> (r: usize)
        requires
            self.wf(),
            code < 125,
        ensures
            r == canonical_index(code as int),
            r < unique_signatures().len(),
    {
        proof {
            lemma_canonical_index(code as int);
        }
        let found = get_triangle_index_in(self.all_triangles[code], &self.unique_triangles);
        match found {
            Some(index) => index,
            None => {
                proof {
                    assert(self.unique_triangles@[canonical_index(code as int)]
                        == self.all_triangles@[code as int]);
                }
                0
            },
        }
    }

    /// How many distinct signatures there are.
    pub fn unique_count(&self) -> (r: usize)
        requires
            self.wf(),
        ensures
            r == unique_signatures().len(),
    {
        self.unique_triangles.len()
    }
}

/// Two builds of the catalog hold the same tables and give every code the
/// same canonical index.
pub proof fn catalog_is_deterministic(a: &TriangleCatalog, b: &TriangleCatalog)
    requires
        a.wf(),
        b.wf(),
    ensures
        a.all_triangles@ == b.all_triangles@,
        a.unique_triangles@ == b.unique_triangles@,
        forall|code: int|
            0 <= code < 125 ==> #[trigger] a.unique_triangles@.index_of(a.all_triangles@[code])
                == b.unique_triangles@.index_of(b.all_triangles@[code]),
{
}

/// A trigram string decodes: it writes a code whose signature is among the
/// distinct ones.
pub open spec fn cell_ok(s: Seq<char>, unique: Seq<Signature>, all: Seq<Signature>) -> bool {
    &&& state_code(s) is Ok
    &&& unique.contains(all[state_code(s)->Ok_0])
}

/// Why a trigram string that does not decode fails.
pub open spec fn cell_error(s: Seq<char>) -> DecodeError {
    match state_code(s) {
        Err(e) => e,
        Ok(_) => DecodeError::UnmatchedTriangleSignature,
    }
}

/// Cell `(i2, j2)` comes before cell `(i, j)` in row-major order.
pub open spec fn before(i2: int, j2: int, i: int, j: int) -> bool {
    i2 < i || (i2 == i && j2 < j)
}

/// Every cell of the first `n` cells of a row decodes.
pub open spec fn row_ok(
    row: Seq<Seq<char>>,
    n: int,
    unique: Seq<Signature>,
    all: Seq<Signature>,
) -> bool {
    forall|j: int| 0 <= j < n ==> cell_ok(#[trigger] row[j], unique, all)
}

/// Cell `(i, j)` is the first cell of `m`, in row-major order, that does
/// not decode.
pub open spec fn first_failure(
    m: Seq<Seq<Seq<char>>>,
    unique: Seq<Signature>,
    all: Seq<Signature>,
    i: int,
    j: int,
) -> bool {
    &&& 0 <= i < m.len()
    &&& 0 <= j < m[i].len()
    &&& !cell_ok(m[i][j], unique, all)
    &&& forall|i2: int, j2: int|
        0 <= i2 < m.len() && 0 <= j2 < m[i2].len() && before(i2, j2, i, j) ==> cell_ok(
            #[trigger] m[i2][j2],
            unique,
            all,
        )
}

/// A cell that fails after whole rows and a row prefix that decode is the
/// first failure.
proof fn lemma_first_failure(
    m: Seq<Seq<Seq<char>>>,
    unique: Seq<Signature>,
    all: Seq<Signature>,
    i: int,
    j: int,
)
    requires
        0 <= i < m.len(),
        0 <= j < m[i].len(),
        !cell_ok(m[i][j], unique, all),
        forall|i2: int| 0 <= i2 < i ==> row_ok(#[trigger] m[i2], m[i2].len() as int, unique, all),
        row_ok(m[i], j, unique, all),
    ensures
        first_failure(m, unique, all, i, j),
{
    assert forall|i2: int, j2: int|
        0 <= i2 < m.len() && 0 <= j2 < m[i2].len() && before(i2, j2, i, j) implies cell_ok(
        #[trigger] m[i2][j2],
        unique,
        all,
    ) by {
        if i2 < i {
            assert(row_ok(m[i2], m[i2].len() as int, unique, all));
        }
    }
}

/// Maps every trigram string of a message to the place of its code's
/// signature among `unique_triangle_set`; `all_triangles` holds the
/// signature of each code. The first cell in row-major order that fails
/// gives the error.
pub fn decipher_trigrams(
    trigram_msg: Vec<Vec<String>>,
    unique_triangle_set: Vec<Signature>,
    all_triangles: Vec<Signature>,
) -> (r: Result<Vec<Vec<usize>>, DecodeError>)
    requires
        all_triangles@.len() == 125,
    ensures
        r is Ok <==> (forall|i: int|
            0 <= i < trigram_msg.deep_view().len() ==> row_ok(
                #[trigger] trigram_msg.deep_view()[i],
                trigram_msg.deep_view()[i].len() as int,
                unique_triangle_set@,
                all_triangles@,
            )),
        r matches Ok(g) ==> {
            &&& g@.len() == trigram_msg.deep_view().len()
            &&& forall|i: int|
                0 <= i < g@.len() ==> (#[trigger] g@[i])@.len() == trigram_msg.deep_view()[i].len()
            &&& forall|i: int, j: int|
                0 <= i < g@.len() && 0 <= j < g@[i]@.len() ==> is_first_position(
                    unique_triangle_set@,
                    all_triangles@[state_code(trigram_msg.deep_view()[i][j])->Ok_0],
                    #[trigger] g@[i]@[j] as int,
                )
        },
        r matches Err(e) ==> exists|i: int, j: int|
            first_failure(trigram_msg.deep_view(), unique_triangle_set@, all_triangles@, i, j)
                && e == cell_error(#[trigger] trigram_msg.deep_view()[i][j]),
{
    let ghost m = trigram_msg.deep_view();
    let ghost u = unique_triangle_set@;
    let ghost a = all_triangles@;
    let mut rows: Vec<Vec<usize>> = Vec::new();
    let mut i: usize = 0;
    while i < trigram_msg.len()
        invariant
            m == trigram_msg.deep_view(),
            u == unique_triangle_set@,
            a == all_triangles@,
            a.len() == 125,
            i <= m.len(),
            rows@.len() == i,
            forall|i2: int| 0 <= i2 < i ==> row_ok(#[trigger] m[i2], m[i2].len() as int, u, a),
            forall|i2: int| 0 <= i2 < i ==> (#[trigger] rows@[i2])@.len() == m[i2].len(),
            forall|i2: int, j2: int|
                0 <= i2 < i && 0 <= j2 < rows@[i2]@.len() ==> is_first_position(
                    u,
                    a[state_code(m[i2][j2])->Ok_0],
                    #[trigger] rows@[i2]@[j2] as int,
                ),
        decreases m.len() - i,
    {
        let row = &trigram_msg[i];
        assert(m[i as int] == row.deep_view());
        let mut out: Vec<usize> = Vec::new();
        let mut j: usize = 0;
        while j < row.len()
            invariant
                m == trigram_msg.deep_view(),
                m[i as int] == row.deep_view(),
                u == unique_triangle_set@,
                a == all_triangles@,
                a.len() == 125,
                i < m.len(),
                rows@.len() == i,
                forall|i2: int| 0 <= i2 < i ==> row_ok(#[trigger] m[i2], m[i2].len() as int, u, a),
                forall|i2: int| 0 <= i2 < i ==> (#[trigger] rows@[i2])@.len() == m[i2].len(),
                forall|i2: int, j2: int|
                    0 <= i2 < i && 0 <= j2 < rows@[i2]@.len() ==> is_first_position(
                        u,
                        a[state_code(m[i2][j2])->Ok_0],
                        #[trigger] rows@[i2]@[j2] as int,
                    ),
                j <= row@.len(),
                out@.len() == j,
                row_ok(m[i as int], j as int, u, a),
                forall|j2: int|
                    0 <= j2 < j ==> is_first_position(
                        u,
                        a[state_code(m[i as int][j2])->Ok_0],
                        #[trigger] out@[j2] as int,
                    ),
            decreases row@.len() - j,
        {
            assert(m[i as int][j as int] == row@[j as int]@);
            let code = match trigram_state_to_decimal(row[j].clone()) {
                Ok(code) => code,
                Err(e) => {
                    proof {
                        lemma_first_failure(m, u, a, i as int, j as int);
                    }
                    return Err(e);
                },
            };
            match get_triangle_index_in(all_triangles[code], &unique_triangle_set) {
                Some(index) => {
                    out.push(index);
                },
                None => {
                    proof {
                        lemma_first_failure(m, u, a, i as int, j as int);
                    }
                    return Err(DecodeError::UnmatchedTriangleSignature);
                },
            }
            j = j + 1;
        }
        rows.push(out);
        i = i + 1;
    }
    Ok(rows)
}

/// Against the catalog's own tables a trigram string decodes exactly when it
/// writes a code.
proof fn lemma_cell_ok_in_catalog(s: Seq<char>)
    ensures
        cell_ok(s, unique_signatures(), all_signatures()) <==> state_code(s) is Ok,
        state_code(s) is Ok ==> 0 <= state_code(s)->Ok_0 < 125,
{
    if state_code(s) is Ok {
        lemma_canonical_index(state_code(s)->Ok_0);
    }
}

/// Maps every trigram string of a message to the canonical index of its
/// code. The first cell in row-major order that writes no code gives the
/// error.
pub fn decode(trigram_msg: Vec<Vec<String>>) -> (r: Result<Vec<Vec<usize>>, DecodeError>)
    ensures
        r is Ok <==> (forall|i: int, j: int|
            0 <= i < trigram_msg.deep_view().len() && 0 <= j < trigram_msg.deep_view()[i].len()
                ==> #[trigger] state_code(trigram_msg.deep_view()[i][j]) is Ok),
        r matches Ok(g) ==> {
            &&& g@.len() == trigram_msg.deep_view().len()
            &&& forall|i: int|
                0 <= i < g@.len() ==> (#[trigger] g@[i])@.len() == trigram_msg.deep_view()[i].len()
            &&& forall|i: int, j: int|
                0 <= i < g@.len() && 0 <= j < g@[i]@.len() ==> #[trigger] g@[i]@[j] as int
                    == canonical_index(state_code(trigram_msg.deep_view()[i][j])->Ok_0)
        },
        r matches Err(e) ==> exists|i: int, j: int|
            first_failure(trigram_msg.deep_view(), unique_signatures(), all_signatures(), i, j)
                && #[trigger] state_code(trigram_msg.deep_view()[i][j]) == Err::<int, DecodeError>(
                e,
            ),
{
    let ghost m = trigram_msg.deep_view();
    let catalog = TriangleCatalog::new();
    let r = decipher_trigrams(trigram_msg, catalog.unique_triangles, catalog.all_triangles);
    proof {
        assert forall|s: Seq<char>|
            cell_ok(s, unique_signatures(), all_signatures()) <==> #[trigger] state_code(s) is Ok by {
            lemma_cell_ok_in_catalog(s);
        }
        if r is Ok {
            let g = r->Ok_0;
            assert forall|i: int, j: int|
                0 <= i < g@.len() && 0 <= j < g@[i]@.len() implies #[trigger] g@[i]@[j] as int
                == canonical_index(state_code(m[i][j])->Ok_0) by {
                assert(row_ok(m[i], m[i].len() as int, unique_signatures(), all_signatures()));
                assert(cell_ok(m[i][j], unique_signatures(), all_signatures()));
                lemma_cell_ok_in_catalog(m[i][j]);
                lemma_canonical_index(state_code(m[i][j])->Ok_0);
            }
        } else {
            let e = r->Err_0;
            let (i, j) = choose|i: int, j: int|
                first_failure(m, unique_signatures(), all_signatures(), i, j) && e == cell_error(
                    #[trigger] m[i][j],
                );
            lemma_cell_ok_in_catalog(m[i][j]);
            assert(state_code(m[i][j]) == Err::<int, DecodeError>(e));
        }
    }
    r
}

} // verus!
