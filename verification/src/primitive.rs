use vstd::prelude::*;

verus! {

/// The kinds of built-in shape.
#[derive(Clone, Copy, Debug, PartialEq, Eq, Hash, Structural)]
pub enum PrimitiveType {
    Triangle,
    Rectangle,
    Cube,
    Circle,
    Polygon,
    Sphere,
    Line,
}

/// The corners of the cube, by number, that each face takes its four
/// vertices from, face after face.
pub open spec fn cube_face_corner(face: int, k: int) -> usize {
    let faces = seq![
        seq![0usize, 1, 2, 3],
        seq![4usize, 7, 6, 5],
        seq![0usize, 4, 5, 1],
        seq![2usize, 6, 7, 3],
        seq![1usize, 5, 6, 2],
        seq![0usize, 3, 7, 4],
    ];
    faces[face][k]
}

/// The coordinates of corner `c` of the cube, each -1 or 1, as the cube's
/// eight points are given: corners 0 to 3 on the side z = 1 and 4 to 7
/// below them on z = -1; corners 0, 1, 4, 5 at x = 1; corners 1, 2, 5, 6 at
/// y = 1.
pub open spec fn cube_corner_x(c: int) -> int {
    if c == 0 || c == 1 || c == 4 || c == 5 {
        1
    } else {
        -1
    }
}

pub open spec fn cube_corner_y(c: int) -> int {
    if c == 1 || c == 2 || c == 5 || c == 6 {
        1
    } else {
        -1
    }
}

pub open spec fn cube_corner_z(c: int) -> int {
    if c < 4 {
        1
    } else {
        -1
    }
}

/// The triangle over the corners `a`, `b`, `c` turns counter-clockwise seen
/// from the side of the point `(mx, my, mz)`: the normal `(b - a) × (c - a)`
/// points towards it.
pub open spec fn turns_towards(a: int, b: int, c: int, mx: int, my: int, mz: int) -> bool {
    let ux = cube_corner_x(b) - cube_corner_x(a);
    let uy = cube_corner_y(b) - cube_corner_y(a);
    let uz = cube_corner_z(b) - cube_corner_z(a);
    let vx = cube_corner_x(c) - cube_corner_x(a);
    let vy = cube_corner_y(c) - cube_corner_y(a);
    let vz = cube_corner_z(c) - cube_corner_z(a);
    (uy * vz - uz * vy) * mx + (uz * vx - ux * vz) * my + (ux * vy - uy * vx) * mz > 0
}

/// The corners `a`, `b`, `c`, `d` make one side of the cube, and its two
/// triangles `(a, b, c)` and `(c, d, a)` both face out of the cube: they
/// turn counter-clockwise seen from outside, towards the side's centre.
pub open spec fn face_wound_outward(a: int, b: int, c: int, d: int) -> bool {
    let mx = cube_corner_x(a) + cube_corner_x(b) + cube_corner_x(c) + cube_corner_x(d);
    let my = cube_corner_y(a) + cube_corner_y(b) + cube_corner_y(c) + cube_corner_y(d);
    let mz = cube_corner_z(a) + cube_corner_z(b) + cube_corner_z(c) + cube_corner_z(d);
    &&& 0 <= a < 8 && 0 <= b < 8 && 0 <= c < 8 && 0 <= d < 8
    &&& (mx == 4 || mx == -4 || my == 4 || my == -4 || mz == 4 || mz == -4)
    &&& turns_towards(a, b, c, mx, my, mz)
    &&& turns_towards(c, d, a, mx, my, mz)
}

/// Side `f` of a corner table, its four corners from position `4 * f` on,
/// is wound to face out of the cube.
pub open spec fn side_wound_outward(corners: Seq<usize>, f: int) -> bool {
    face_wound_outward(
        corners[4 * f] as int,
        corners[4 * f + 1] as int,
        corners[4 * f + 2] as int,
        corners[4 * f + 3] as int,
    )
}

/// Every side of the cube takes four corners of one side of the cube, wound
/// so that both its triangles face out: the six sides are wound the same
/// way round.
pub proof fn cube_faces_wound_outward()
    ensures
        forall|f: int|
            0 <= f < 6 ==> face_wound_outward(
                cube_face_corner(f, 0) as int,
                cube_face_corner(f, 1) as int,
                cube_face_corner(f, 2) as int,
                cube_face_corner(f, 3) as int,
            ),
{
    assert(face_wound_outward(0, 1, 2, 3)) by (nonlinear_arith);
    assert(face_wound_outward(4, 7, 6, 5)) by (nonlinear_arith);
    assert(face_wound_outward(0, 4, 5, 1)) by (nonlinear_arith);
    assert(face_wound_outward(2, 6, 7, 3)) by (nonlinear_arith);
    assert(face_wound_outward(1, 5, 6, 2)) by (nonlinear_arith);
    assert(face_wound_outward(0, 3, 7, 4)) by (nonlinear_arith);
    assert forall|f: int| 0 <= f < 6 implies face_wound_outward(
        cube_face_corner(f, 0) as int,
        cube_face_corner(f, 1) as int,
        cube_face_corner(f, 2) as int,
        cube_face_corner(f, 3) as int,
    ) by {
        assert(f == 0 || f == 1 || f == 2 || f == 3 || f == 4 || f == 5);
    }
}

/// The indices of a triangle: one face over its three vertices.
pub fn triangle_indices() -> (r: Vec<u32>)
    ensures
        r@ == seq![0u32, 1, 2],
{
    let r = vec![0u32, 1, 2];
    assert(r@ =~= seq![0u32, 1, 2]);
    r
}

/// The indices of a rectangle: two faces over its four vertices.
pub fn rectangle_indices() -> (r: Vec<u32>)
    ensures
        r@ == seq![0u32, 1, 2, 2, 3, 0],
{
    let r = vec![0u32, 1, 2, 2, 3, 0];
    assert(r@ =~= seq![0u32, 1, 2, 2, 3, 0]);
    r
}

/// The indices of a line: one segment between its two vertices.
pub fn line_indices() -> (r: Vec<u32>)
    ensures
        r@ == seq![0u32, 1],
{
    let r = vec![0u32, 1];
    assert(r@ =~= seq![0u32, 1]);
    r
}

/// The corners of the cube that its 24 vertices take their positions from:
/// four per face, face after face.
pub fn cube_vertex_corners() -> (r: Vec<usize>)
    ensures
        r@.len() == 24,
        forall|f: int, k: int| 0 <= f < 6 && 0 <= k < 4 ==> r@[4 * f + k] == cube_face_corner(f, k),
        r@ == seq![0usize, 1, 2, 3, 4, 7, 6, 5, 0, 4, 5, 1, 2, 6, 7, 3, 1, 5, 6, 2, 0, 3, 7, 4],
        forall|f: int| 0 <= f < 6 ==> #[trigger] side_wound_outward(r@, f),
{
    let r = vec![0usize, 1, 2, 3, 4, 7, 6, 5, 0, 4, 5, 1, 2, 6, 7, 3, 1, 5, 6, 2, 0, 3, 7, 4];
    assert(r@ =~= seq![0usize, 1, 2, 3, 4, 7, 6, 5, 0, 4, 5, 1, 2, 6, 7, 3, 1, 5, 6, 2, 0, 3, 7, 4]);
    proof {
        cube_faces_wound_outward();
        assert forall|f: int| 0 <= f < 6 implies #[trigger] side_wound_outward(r@, f) by {
            assert(r@[4 * f] == cube_face_corner(f, 0));
            assert(r@[4 * f + 1] == cube_face_corner(f, 1));
            assert(r@[4 * f + 2] == cube_face_corner(f, 2));
            assert(r@[4 * f + 3] == cube_face_corner(f, 3));
        }
    }
    assert forall|f: int, k: int| 0 <= f < 6 && 0 <= k < 4 implies r@[4 * f + k] == cube_face_corner(f, k) by {
        assert(0 <= f < 6 && 0 <= k < 4);
    }
    r
}

/// The `n`-th index of a cube: face `n / 6` covers its vertices
/// `4 * face .. 4 * face + 4` with the triangles (0, 1, 2) and (2, 3, 0).
pub open spec fn cube_index(n: int) -> int {
    let face = n / 6;
    let k = n % 6;
    let offset: int = if k == 0 || k == 5 {
        0
    } else if k == 1 {
        1
    } else if k == 2 || k == 3 {
        2
    } else {
        3
    };
    4 * face + offset
}

/// The indices of a cube: each face is two triangles over its own four
/// vertices.
pub fn cube_indices() -> (r: Vec<u32>)
    ensures
        r@.len() == 36,
        forall|n: int| 0 <= n < 36 ==> r@[n] == cube_index(n),
{
    let mut r: Vec<u32> = Vec::new();
    let mut face: u32 = 0;
    while face < 6
        invariant
            face <= 6,
            r@.len() == 6 * face,
            forall|n: int| 0 <= n < r@.len() ==> r@[n] == cube_index(n),
        decreases 6 - face,
    {
        let base = face * 4;
        r.push(base);
        r.push(base + 1);
        r.push(base + 2);
        r.push(base + 2);
        r.push(base + 3);
        r.push(base);
        face = face + 1;
    }
    r
}

/// The number of segments of a circle: at least three.
pub open spec fn circle_segments(segments: u32) -> int {
    if segments < 3 {
        3
    } else {
        segments as int
    }
}

/// The `n`-th index of a circle of `segments` segments: triangle `n / 3`
/// joins the centre, rim vertex `n / 3 + 1` and the next rim vertex, the
/// last closing back on the first.
pub open spec fn circle_index(segments: int, n: int) -> int {
    let i = n / 3;
    let k = n % 3;
    if k == 0 {
        0
    } else if k == 1 {
        i + 1
    } else if i + 1 == segments {
        1
    } else {
        i + 2
    }
}

/// The indices of a circle of `segments` segments (at least three): a fan
/// of triangles around the centre vertex.
pub fn circle_indices(segments: u32) -> (r: Vec<u32>)
    requires
        segments < u32::MAX,
    ensures
        r@.len() == 3 * circle_segments(segments),
        forall|n: int| 0 <= n < r@.len() ==> r@[n] == circle_index(circle_segments(segments), n),
{
    let segments = if segments < 3 { 3 } else { segments };
    let mut r: Vec<u32> = Vec::new();
    let mut i: u32 = 0;
    while i < segments
        invariant
            segments < u32::MAX,
            i <= segments,
            r@.len() == 3 * i,
            forall|n: int| 0 <= n < r@.len() ==> r@[n] == circle_index(segments as int, n),
        decreases segments - i,
    {
        let current = i + 1;
        let next = if i + 1 == segments { 1 } else { i + 2 };
        r.push(0);
        r.push(current);
        r.push(next);
        i = i + 1;
    }
    r
}

/// The `n`-th index of a fan over a polygon: triangle `n / 3` is
/// (0, n / 3 + 1, n / 3 + 2), kept in 32 bits.
pub open spec fn fan_index(n: int) -> u32 {
    let i = n / 3;
    let k = n % 3;
    if k == 0 {
        0
    } else if k == 1 {
        (i + 1) as u32
    } else {
        (i + 2) as u32
    }
}

/// The indices of a fan over a polygon of `size` vertices: the triangles
/// (0, i, i + 1) for i from 1 to size - 2.
pub fn fan_triangulate(size: usize) -> (r: Vec<u32>)
    requires
        size >= 2,
    ensures
        r@.len() == 3 * (size - 2),
        forall|n: int| 0 <= n < r@.len() ==> r@[n] == fan_index(n),
{
    let mut r: Vec<u32> = Vec::new();
    let mut i: usize = 1;
    while i < size - 1
        invariant
            size >= 2,
            1 <= i <= size - 1,
            r@.len() == 3 * (i - 1),
            forall|n: int| 0 <= n < r@.len() ==> r@[n] == fan_index(n),
        decreases size - i,
    {
        r.push(0);
        r.push(i as u32);
        r.push((i + 1) as u32);
        i = i + 1;
    }
    r
}

/// Which way the outline of a polygon turns, as the sign of its area tells:
/// counter-clockwise for a positive area, clockwise for a negative one,
/// degenerate for an area of about nothing.
#[derive(Clone, Copy, Debug, PartialEq, Eq, Structural)]
pub enum Winding {
    CounterClockwise,
    Clockwise,
    Degenerate,
}

/// The `t`-th triangle of `indices` has three different corners, all below
/// `size`.
pub open spec fn proper_triangle(indices: Seq<u32>, t: int, size: int) -> bool {
    &&& indices[3 * t] < size
    &&& indices[3 * t + 1] < size
    &&& indices[3 * t + 2] < size
    &&& indices[3 * t] != indices[3 * t + 1]
    &&& indices[3 * t + 1] != indices[3 * t + 2]
    &&& indices[3 * t] != indices[3 * t + 2]
}

/// Every triangle of `indices` is proper for a polygon of `size` vertices.
pub open spec fn proper_triangles(indices: Seq<u32>, size: int) -> bool {
    &&& indices.len() % 3 == 0
    &&& forall|t: int| 0 <= t < indices.len() / 3 ==> #[trigger] proper_triangle(indices, t, size)
}

/// The outline's vertices that are left to clip: distinct, and all below
/// `size`.
pub open spec fn outline_ok(remaining: Seq<usize>, size: int) -> bool {
    &&& remaining.no_duplicates()
    &&& forall|k: int| 0 <= k < remaining.len() ==> #[trigger] remaining[k] < size
}

/// The neighbour before corner `i` on the outline, going round.
pub open spec fn corner_before(outline: Seq<usize>, i: int) -> usize {
    if i == 0 {
        outline[outline.len() - 1]
    } else {
        outline[i - 1]
    }
}

/// The neighbour after corner `i` on the outline, going round.
pub open spec fn corner_after(outline: Seq<usize>, i: int) -> usize {
    if i + 1 == outline.len() {
        outline[0]
    } else {
        outline[i + 1]
    }
}

/// The ear test, asked about corner `i` of `outline` with its two
/// neighbours and the outline, answered `answer`.
pub open spec fn ear_answer<F: Fn(usize, usize, usize, &[usize]) -> bool>(
    is_ear: F,
    outline: Seq<usize>,
    i: int,
    answer: bool,
) -> bool {
    exists|s: &[usize]|
        #![trigger is_ear.ensures((corner_before(outline, i), outline[i], corner_after(outline, i), s), answer)]
        s@ == outline && is_ear.ensures((corner_before(outline, i), outline[i], corner_after(outline, i), s), answer)
}

/// Corner `i` is the first corner of `outline` for which the ear test said
/// yes: it said no for every corner before it.
pub open spec fn first_ear<F: Fn(usize, usize, usize, &[usize]) -> bool>(is_ear: F, outline: Seq<usize>, i: int) -> bool {
    &&& 0 <= i < outline.len()
    &&& ear_answer(is_ear, outline, i, true)
    &&& forall|j: int| 0 <= j < i ==> #[trigger] ear_answer(is_ear, outline, j, false)
}

/// The ear test said no for every corner of `outline`.
pub open spec fn no_ear<F: Fn(usize, usize, usize, &[usize]) -> bool>(is_ear: F, outline: Seq<usize>) -> bool {
    forall|j: int| 0 <= j < outline.len() ==> #[trigger] ear_answer(is_ear, outline, j, false)
}

/// `outline` after clipping, in turn, the corners at the positions `steps`.
pub open spec fn clipped_outline(outline: Seq<usize>, steps: Seq<int>) -> Seq<usize>
    decreases steps.len(),
{
    if steps.len() == 0 {
        outline
    } else {
        clipped_outline(outline, steps.drop_last()).remove(steps.last())
    }
}

/// Each of `steps` was the first ear of the outline left at its turn, and
/// that outline had more than three corners.
pub open spec fn ears_found<F: Fn(usize, usize, usize, &[usize]) -> bool>(
    is_ear: F,
    outline: Seq<usize>,
    steps: Seq<int>,
) -> bool
    decreases steps.len(),
{
    if steps.len() == 0 {
        true
    } else {
        let left = clipped_outline(outline, steps.drop_last());
        &&& ears_found(is_ear, outline, steps.drop_last())
        &&& left.len() > 3
        &&& first_ear(is_ear, left, steps.last())
    }
}

/// The triangles cut off by clipping `steps`: for each, the corner with
/// its neighbours before and after, on the outline left at its turn.
pub open spec fn ear_triangles(outline: Seq<usize>, steps: Seq<int>) -> Seq<u32>
    decreases steps.len(),
{
    if steps.len() == 0 {
        Seq::empty()
    } else {
        let left = clipped_outline(outline, steps.drop_last());
        let i = steps.last();
        ear_triangles(outline, steps.drop_last()) + seq![
            corner_before(left, i) as u32,
            left[i] as u32,
            corner_after(left, i) as u32,
        ]
    }
}

/// The outline that clipping starts from: the vertices in order, or in
/// reverse order for a clockwise polygon.
pub open spec fn start_outline(size: int, winding: Winding) -> Seq<usize> {
    Seq::new(
        size as nat,
        |j: int|
            if winding == Winding::CounterClockwise {
                j as usize
            } else {
                (size - 1 - j) as usize
            },
    )
}

/// The indices of the fan over `size` vertices.
pub open spec fn fan_indices(size: int) -> Seq<u32> {
    Seq::new((3 * (size - 2)) as nat, |n: int| fan_index(n))
}

/// `result` is what ear clipping gives, with the ear test's answers: the
/// first ear of each remaining outline, found at the positions `steps`, is
/// cut off as a triangle until three corners are left, which make the last
/// triangle; or, when at some turn (`fanned`) the test said no for every
/// corner, the whole polygon is cut as a fan instead.
pub open spec fn ear_clipping<F: Fn(usize, usize, usize, &[usize]) -> bool>(
    is_ear: F,
    size: int,
    winding: Winding,
    steps: Seq<int>,
    fanned: bool,
    result: Seq<u32>,
) -> bool {
    let start = start_outline(size, winding);
    let rest = clipped_outline(start, steps);
    &&& ears_found(is_ear, start, steps)
    &&& if fanned {
        &&& rest.len() > 3
        &&& no_ear(is_ear, rest)
        &&& result == fan_indices(size)
    } else {
        &&& rest.len() == 3
        &&& result == ear_triangles(start, steps) + seq![rest[0] as u32, rest[1] as u32, rest[2] as u32]
    }
}

/// Clipping one more ear, the first of the outline left: the outline loses
/// that corner, and the ear's triangle is added after the others.
proof fn lemma_clip_step<F: Fn(usize, usize, usize, &[usize]) -> bool>(
    is_ear: F,
    start: Seq<usize>,
    steps: Seq<int>,
    e: int,
)
    requires
        ears_found(is_ear, start, steps),
        clipped_outline(start, steps).len() > 3,
        first_ear(is_ear, clipped_outline(start, steps), e),
    ensures
        ({
            let left = clipped_outline(start, steps);
            &&& clipped_outline(start, steps.push(e)) == left.remove(e)
            &&& ears_found(is_ear, start, steps.push(e))
            &&& ear_triangles(start, steps.push(e)) == ear_triangles(start, steps) + seq![
                corner_before(left, e) as u32,
                left[e] as u32,
                corner_after(left, e) as u32,
            ]
        }),
{
    assert(steps.push(e).drop_last() =~= steps);
    assert(steps.push(e).last() == e);
}

/// Cuts a polygon of `size` vertices into triangles by clipping ears, with
/// `is_ear(prev, corner, next, outline)` telling whether the corner between
/// its two neighbours on the remaining outline is an ear. The outline is
/// walked in the order of `winding` (backwards when clockwise); at each turn
/// the first corner that is an ear is cut off, until three corners are
/// left. When no corner of the remaining outline is an ear, the polygon is
/// cut as a fan from its first vertex instead. A polygon of fewer than three
/// vertices, or a degenerate one, gives no triangle; otherwise there are
/// `size - 2` triangles, each with three
/// different vertices of the polygon as corners.
#[verifier::rlimit(40)]
pub fn triangulate_polygon<F: Fn(usize, usize, usize, &[usize]) -> bool>(
    size: usize,
    winding: Winding,
    is_ear: F,
) -> (r: Vec<u32>)
    requires
        size <= u32::MAX,
        forall|p: usize, c: usize, n: usize, outline: &[usize]| #[trigger] is_ear.requires((p, c, n, outline)),
    ensures
        size < 3 || winding == Winding::Degenerate ==> r@.len() == 0,
        3 <= size && winding != Winding::Degenerate ==> r@.len() == 3 * (size - 2) && proper_triangles(
            r@,
            size as int,
        ),
        3 <= size && winding != Winding::Degenerate ==> exists|steps: Seq<int>, fanned: bool|
            #![trigger ear_clipping(is_ear, size as int, winding, steps, fanned, r@)]
            ear_clipping(is_ear, size as int, winding, steps, fanned, r@),
{
    let mut indices: Vec<u32> = Vec::new();
    if size < 3 || winding == Winding::Degenerate {
        return indices;
    }
    let mut remaining: Vec<usize> = Vec::new();
    let mut k: usize = 0;
    while k < size
        invariant
            k <= size,
            remaining@.len() == k,
            forall|j: int| 0 <= j < k ==> #[trigger] remaining@[j] == (if winding == Winding::CounterClockwise {
                j
            } else {
                size - 1 - j
            }),
        decreases size - k,
    {
        if winding == Winding::CounterClockwise {
            remaining.push(k);
        } else {
            remaining.push(size - 1 - k);
        }
        k = k + 1;
    }
    proof {
        assert forall|a: int, b: int| 0 <= a < remaining@.len() && 0 <= b < remaining@.len() && a != b implies remaining@[a]
            != remaining@[b] by {
            assert(remaining@[a] == (if winding == Winding::CounterClockwise { a } else { size - 1 - a }));
            assert(remaining@[b] == (if winding == Winding::CounterClockwise { b } else { size - 1 - b }));
        }
        assert(indices@.len() / 3 == 0);
        assert(remaining@ =~= start_outline(size as int, winding));
    }
    let ghost start = remaining@;
    let ghost mut steps: Seq<int> = Seq::empty();
    proof {
        assert(indices@ =~= ear_triangles(start, steps));
    }
    while remaining.len() > 3
        invariant
            3 <= size <= u32::MAX,
            winding != Winding::Degenerate,
            3 <= remaining@.len() <= size,
            outline_ok(remaining@, size as int),
            indices@.len() == 3 * (size - remaining@.len()),
            proper_triangles(indices@, size as int),
            forall|p: usize, c: usize, n: usize, outline: &[usize]| #[trigger] is_ear.requires((p, c, n, outline)),
            start == start_outline(size as int, winding),
            remaining@ == clipped_outline(start, steps),
            ears_found(is_ear, start, steps),
            indices@ == ear_triangles(start, steps),
        decreases remaining@.len(),
    {
        let len = remaining.len();
        let mut found: Option<usize> = None;
        let mut i: usize = 0;
        while i < len && found.is_none()
            invariant
                len == remaining@.len(),
                i <= len,
                found matches Some(e) ==> e == i && i < len && ear_answer(is_ear, remaining@, e as int, true),
                forall|j: int| 0 <= j < i ==> #[trigger] ear_answer(is_ear, remaining@, j, false),
                forall|p: usize, c: usize, n: usize, outline: &[usize]| #[trigger] is_ear.requires((p, c, n, outline)),
            decreases len - i + (if found is None { 1int } else { 0int }),
        {
            let prev = if i == 0 { remaining[len - 1] } else { remaining[i - 1] };
            let next = if i + 1 == len { remaining[0] } else { remaining[i + 1] };
            let corner = remaining[i];
            let outline = remaining.as_slice();
            let answer = is_ear(prev, corner, next, outline);
            proof {
                assert(prev == corner_before(remaining@, i as int));
                assert(next == corner_after(remaining@, i as int));
                assert(is_ear.ensures((corner_before(remaining@, i as int), remaining@[i as int], corner_after(remaining@, i as int), outline), answer));
                assert(ear_answer(is_ear, remaining@, i as int, answer));
            }
            if answer {
                found = Some(i);
            } else {
                i = i + 1;
            }
        }
        match found {
            Some(e) => {
                let pi: usize = if e == 0 { len - 1 } else { e - 1 };
                let ni: usize = if e + 1 == len { 0 } else { e + 1 };
                let prev = remaining[pi];
                let curr = remaining[e];
                let next = remaining[ni];
                let ghost before = indices@;
                let ghost old_remaining = remaining@;
                let ghost old_steps = steps;
                proof {
                    assert(prev < size && curr < size && next < size);
                    assert(prev != curr && curr != next && prev != next);
                }
                indices.push(prev as u32);
                indices.push(curr as u32);
                indices.push(next as u32);
                remaining.remove(e);
                proof {
                    let t_new = before.len() / 3;
                    assert(indices@.len() / 3 == t_new + 1);
                    assert forall|t: int| 0 <= t < indices@.len() / 3 implies #[trigger] proper_triangle(indices@, t, size as int) by {
                        if t < t_new {
                            assert(proper_triangle(before, t, size as int));
                            assert(indices@[3 * t] == before[3 * t]);
                            assert(indices@[3 * t + 1] == before[3 * t + 1]);
                            assert(indices@[3 * t + 2] == before[3 * t + 2]);
                        } else {
                            assert(t == t_new);
                            assert(3 * t == before.len());
                        }
                    }
                    assert forall|a: int, b: int| 0 <= a < remaining@.len() && 0 <= b < remaining@.len() && a != b implies remaining@[a]
                        != remaining@[b] by {
                        let oa = if a < e { a } else { a + 1 };
                        let ob = if b < e { b } else { b + 1 };
                        assert(remaining@[a] == old_remaining[oa]);
                        assert(remaining@[b] == old_remaining[ob]);
                    }
                    assert forall|k: int| 0 <= k < remaining@.len() implies #[trigger] remaining@[k] < size by {
                        let ok = if k < e { k } else { k + 1 };
                        assert(remaining@[k] == old_remaining[ok]);
                    }
                    assert(first_ear(is_ear, old_remaining, e as int));
                    assert(prev == corner_before(old_remaining, e as int));
                    assert(next == corner_after(old_remaining, e as int));
                    assert(indices@ =~= before + seq![prev as u32, curr as u32, next as u32]);
                    lemma_clip_step(is_ear, start, old_steps, e as int);
                    steps = old_steps.push(e as int);
                }
            },
            None => {
                let fan = fan_triangulate(size);
                proof {
                    assert(no_ear(is_ear, remaining@));
                    assert(fan@ =~= fan_indices(size as int));
                    assert(ear_clipping(is_ear, size as int, winding, steps, true, fan@));
                    assert forall|t: int| 0 <= t < fan@.len() / 3 implies #[trigger] proper_triangle(fan@, t, size as int) by {
                        fan_indices_in_range(size, 3 * t);
                        fan_indices_in_range(size, 3 * t + 1);
                        fan_indices_in_range(size, 3 * t + 2);
                        assert((3 * t) / 3 == t && (3 * t) % 3 == 0);
                        assert((3 * t + 1) / 3 == t && (3 * t + 1) % 3 == 1);
                        assert((3 * t + 2) / 3 == t && (3 * t + 2) % 3 == 2);
                    }
                }
                return fan;
            },
        }
    }
    let ghost before = indices@;
    let (a, b, c) = (remaining[0], remaining[1], remaining[2]);
    proof {
        assert(a < size && b < size && c < size);
        assert(a != b && b != c && a != c);
    }
    indices.push(a as u32);
    indices.push(b as u32);
    indices.push(c as u32);
    proof {
        let t_new = before.len() / 3;
        assert forall|t: int| 0 <= t < indices@.len() / 3 implies #[trigger] proper_triangle(indices@, t, size as int) by {
            if t < t_new {
                assert(proper_triangle(before, t, size as int));
                assert(indices@[3 * t] == before[3 * t]);
                assert(indices@[3 * t + 1] == before[3 * t + 1]);
                assert(indices@[3 * t + 2] == before[3 * t + 2]);
            }
        }
        assert(indices@ =~= ear_triangles(start, steps) + seq![
            remaining@[0] as u32,
            remaining@[1] as u32,
            remaining@[2] as u32,
        ]);
        assert(ear_clipping(is_ear, size as int, winding, steps, false, indices@));
    }
    indices
}

/// The number of rings of a sphere: at least two.
pub open spec fn sphere_rings(rings: u32) -> int {
    if rings < 2 {
        2
    } else {
        rings as int
    }
}

/// The number of segments of a sphere: at least three.
pub open spec fn sphere_segments(segments: u32) -> int {
    if segments < 3 {
        3
    } else {
        segments as int
    }
}

/// The `n`-th index of a sphere with `segments` segments per ring: cell
/// `n / 6` is segment `cell % segments` of ring `cell / segments`; with `a`
/// its corner in a grid `segments + 1` wide, it is covered by the triangles
/// (a, a + w, a + 1) and (a + 1, a + w, a + w + 1).
pub open spec fn sphere_index(segments: int, n: int) -> int {
    let cell = n / 6;
    let k = n % 6;
    let columns = segments + 1;
    let a = (cell / segments) * columns + cell % segments;
    if k == 0 {
        a
    } else if k == 1 || k == 4 {
        a + columns
    } else if k == 2 || k == 3 {
        a + 1
    } else {
        a + columns + 1
    }
}

/// The indices of a sphere of `rings` rings (at least two) and `segments`
/// segments (at least three): two triangles per cell of the grid.
pub fn sphere_indices(rings: u32, segments: u32) -> (r: Vec<u32>)
    requires
        (sphere_rings(rings) + 1) * (sphere_segments(segments) + 1) <= u32::MAX,
        sphere_rings(rings) * sphere_segments(segments) * 6 <= u32::MAX,
    ensures
        r@.len() == 6 * sphere_rings(rings) * sphere_segments(segments),
        forall|n: int| 0 <= n < r@.len() ==> r@[n] == sphere_index(sphere_segments(segments), n),
{
    let rings = if rings < 2 { 2 } else { rings };
    let segments = if segments < 3 { 3 } else { segments };
    let ghost rr = rings as int;
    let ghost ss = segments as int;
    proof {
        assert(ss + 1 <= (rr + 1) * (ss + 1)) by (nonlinear_arith)
            requires
                rr >= 2,
                ss >= 3,
        ;
    }
    let columns = segments + 1;
    let mut r: Vec<u32> = Vec::new();
    let mut ring: u32 = 0;
    while ring < rings
        invariant
            rr == rings,
            ss == segments,
            columns == segments + 1,
            segments >= 3,
            (rr + 1) * (ss + 1) <= u32::MAX,
            rr * ss * 6 <= u32::MAX,
            ring <= rings,
            r@.len() == 6 * (ring * ss),
            forall|n: int| 0 <= n < r@.len() ==> r@[n] == sphere_index(ss, n),
        decreases rings - ring,
    {
        let mut segment: u32 = 0;
        while segment < segments
            invariant
                rr == rings,
                ss == segments,
                columns == segments + 1,
                segments >= 3,
                (rr + 1) * (ss + 1) <= u32::MAX,
                rr * ss * 6 <= u32::MAX,
                ring < rings,
                segment <= segments,
                r@.len() == 6 * (ring * ss + segment),
                forall|n: int| 0 <= n < r@.len() ==> r@[n] == sphere_index(ss, n),
            decreases segments - segment,
        {
            proof {
                assert(ring * columns + segment + columns + 1 <= (rr + 1) * (ss + 1)) by (nonlinear_arith)
                    requires
                        ring < rr,
                        segment < ss,
                        columns == ss + 1,
                {
                    assert(ring * columns <= (rr - 1) * columns);
                }
            }
            let a = ring * columns + segment;
            let b = a + columns;
            let c = b + 1;
            let d = a + 1;
            let ghost cell = ring * ss + segment;
            let ghost start = r@.len() as int;
            proof {
                vstd::arithmetic::div_mod::lemma_fundamental_div_mod_converse(cell, ss, ring as int, segment as int);
                assert(start == 6 * cell);
            }
            r.push(a);
            r.push(b);
            r.push(d);
            r.push(d);
            r.push(b);
            r.push(c);
            proof {
                assert forall|n: int| 0 <= n < r@.len() implies r@[n] == sphere_index(ss, n) by {
                    if n >= start {
                        assert(n / 6 == cell);
                        assert((n / 6) / ss == ring);
                        assert((n / 6) % ss == segment);
                    }
                }
                assert(r@.len() == 6 * (ring * ss + segment + 1));
            }
            segment = segment + 1;
        }
        proof {
            assert(6 * (ring * ss + ss) == 6 * ((ring + 1) * ss)) by (nonlinear_arith);
        }
        ring = ring + 1;
    }
    proof {
        assert(6 * (rr * ss) == 6 * rr * ss) by (nonlinear_arith);
    }
    r
}

/// Every index of a cube names one of its 24 vertices, and each face uses
/// only its own four.
pub proof fn cube_indices_name_own_face(n: int)
    requires
        0 <= n < 36,
    ensures
        0 <= cube_index(n) < 24,
        cube_index(n) / 4 == n / 6,
{
}

/// Every index of a circle names one of its vertices: the centre (0) or a
/// rim vertex (1 to `segments`).
pub proof fn circle_indices_in_range(segments: u32, n: int)
    requires
        0 <= n < 3 * circle_segments(segments),
    ensures
        0 <= circle_index(circle_segments(segments), n) <= circle_segments(segments),
{
}

/// Every index of a fan over `size` vertices names one of them.
pub proof fn fan_indices_in_range(size: usize, n: int)
    requires
        2 <= size <= u32::MAX,
        0 <= n < 3 * (size - 2),
    ensures
        fan_index(n) < size,
{
}

} // verus!
