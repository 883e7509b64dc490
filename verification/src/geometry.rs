//! Screen geometry: points, rectangles, and the four edges a cursor can cross.
use vstd::prelude::*;

verus! {

/// A point in absolute screen coordinates. `i32` so ultra-wide multi-monitor
/// layouts are representable.
#[derive(Debug, Clone, Copy, PartialEq, Eq, Hash, Structural)]
pub struct Point {
    pub x: i32,
    pub y: i32,
}

impl Point {
    pub fn new(x: i32, y: i32) -> (p: Point)
        ensures
            p.x == x,
            p.y == y,
    {
        Point { x, y }
    }
}

/// Integer division by two rounding toward zero, as Rust's `/` does on `i32`.
pub open spec fn half_toward_zero(v: int) -> int {
    if v >= 0 {
        v / 2
    } else {
        -((-v) / 2)
    }
}

/// `v` pulled into the closed range `[lo, hi]`.
pub open spec fn clamp_to(v: int, lo: int, hi: int) -> int {
    if v < lo {
        lo
    } else if v > hi {
        hi
    } else {
        v
    }
}

/// Half a size, rounded toward zero, is within half a unit of the exact half
/// and has the size's sign: the centre of a rectangle sits in its middle.
pub proof fn lemma_half_is_middle(w: int)
    ensures
        w >= 0 ==> 0 <= half_toward_zero(w) && w - 1 <= 2 * half_toward_zero(w) <= w,
        w < 0 ==> half_toward_zero(w) <= 0 && w <= 2 * half_toward_zero(w) <= w + 1,
        half_toward_zero(-w) == -half_toward_zero(w),
{
}

/// Clamping gives the point of `[lo, hi]` nearest to `v`: it lies in the
/// range, leaves a value already there unchanged, and no point of the range
/// is closer to `v`.
pub proof fn lemma_clamp_is_nearest(v: int, lo: int, hi: int, u: int)
    requires
        lo <= hi,
    ensures
        lo <= clamp_to(v, lo, hi) <= hi,
        lo <= v <= hi ==> clamp_to(v, lo, hi) == v,
        lo <= u <= hi ==> (if clamp_to(v, lo, hi) >= v {
            clamp_to(v, lo, hi) - v
        } else {
            v - clamp_to(v, lo, hi)
        }) <= (if u >= v {
            u - v
        } else {
            v - u
        }),
{
}

/// `v` pulled into `[lo, hi]`, the way `Ord::clamp` does it.
fn clamp_i32(v: i32, lo: i32, hi: i32) -> (r: i32)
    requires
        lo <= hi,
    ensures
        r == clamp_to(v as int, lo as int, hi as int),
{
    if v < lo {
        lo
    } else if v > hi {
        hi
    } else {
        v
    }
}

/// An axis-aligned rectangle, `[x, x+w)` by `[y, y+h)`.
#[derive(Debug, Clone, Copy, PartialEq, Eq, Structural)]
pub struct Rect {
    pub x: i32,
    pub y: i32,
    pub w: i32,
    pub h: i32,
}

impl Rect {
    /// The far edges `x + w` and `y + h` are representable as `i32`.
    pub open spec fn far_edges_fit(self) -> bool {
        &&& i32::MIN <= self.x + self.w <= i32::MAX
        &&& i32::MIN <= self.y + self.h <= i32::MAX
    }

    /// The rectangle holds `p` (half-open on the far edges).
    pub open spec fn holds(self, p: Point) -> bool {
        &&& self.x <= p.x < self.x + self.w
        &&& self.y <= p.y < self.y + self.h
    }

    pub fn new(x: i32, y: i32, w: i32, h: i32) -> (r: Rect)
        ensures
            r.x == x,
            r.y == y,
            r.w == w,
            r.h == h,
    {
        Rect { x, y, w, h }
    }

    pub fn left(&self) -> (r: i32)
        ensures
            r == self.x,
    {
        self.x
    }

    pub fn top(&self) -> (r: i32)
        ensures
            r == self.y,
    {
        self.y
    }

    pub fn right(&self) -> (r: i32)
        requires
            i32::MIN <= self.x + self.w <= i32::MAX,
        ensures
            r == self.x + self.w,
    {
        self.x + self.w
    }

    pub fn bottom(&self) -> (r: i32)
        requires
            i32::MIN <= self.y + self.h <= i32::MAX,
        ensures
            r == self.y + self.h,
    {
        self.y + self.h
    }

    pub fn center(&self) -> (c: Point)
        requires
            i32::MIN <= self.x + half_toward_zero(self.w as int) <= i32::MAX,
            i32::MIN <= self.y + half_toward_zero(self.h as int) <= i32::MAX,
        ensures
            c.x == self.x + half_toward_zero(self.w as int),
            c.y == self.y + half_toward_zero(self.h as int),
    {
        Point::new(self.x + self.w / 2, self.y + self.h / 2)
    }

    pub fn contains(&self, p: Point) -> (b: bool)
        requires
            self.far_edges_fit(),
        ensures
            b == self.holds(p),
    {
        p.x >= self.left() && p.x < self.right() && p.y >= self.top() && p.y < self.bottom()
    }

    /// Clamp a point to lie within the rectangle (inclusive of the far edge
    /// minus one pixel).
    pub fn clamp(&self, p: Point) -> (q: Point)
        requires
            self.far_edges_fit(),
            self.w >= 1,
            self.h >= 1,
        ensures
            q.x == clamp_to(p.x as int, self.x as int, self.x + self.w - 1),
            q.y == clamp_to(p.y as int, self.y as int, self.y + self.h - 1),
            self.holds(q),
    {
        Point::new(
            clamp_i32(p.x, self.left(), self.right() - 1),
            clamp_i32(p.y, self.top(), self.bottom() - 1),
        )
    }
}

/// One side of a screen.
#[derive(Debug, Clone, Copy, PartialEq, Eq, PartialOrd, Ord, Hash, Structural)]
pub enum Edge {
    Left,
    Right,
    Top,
    Bottom,
}

/// The edge across from `e`.
pub open spec fn opposite_edge(e: Edge) -> Edge {
    match e {
        Edge::Left => Edge::Right,
        Edge::Right => Edge::Left,
        Edge::Top => Edge::Bottom,
        Edge::Bottom => Edge::Top,
    }
}

impl Edge {
    pub const ALL: [Edge; 4] = [Edge::Left, Edge::Right, Edge::Top, Edge::Bottom];

    pub fn opposite(self) -> (o: Edge)
        ensures
            o == opposite_edge(self),
    {
        match self {
            Edge::Left => Edge::Right,
            Edge::Right => Edge::Left,
            Edge::Top => Edge::Bottom,
            Edge::Bottom => Edge::Top,
        }
    }
}

/// Taking the opposite edge twice gives back the edge, and no edge is its own
/// opposite.
pub proof fn lemma_opposite_involution(e: Edge)
    ensures
        opposite_edge(opposite_edge(e)) == e,
        opposite_edge(e) != e,
{
}

/// The bit that stands for `e` in an [`EdgeSet`].
pub open spec fn edge_bit(e: Edge) -> u8 {
    match e {
        Edge::Left => 1u8,
        Edge::Right => 2u8,
        Edge::Top => 4u8,
        Edge::Bottom => 8u8,
    }
}

/// A set of edges, e.g. the sides of the primary screen that currently have a
/// neighbour and should be watched for a cursor crossing.
#[derive(Debug, Clone, Copy, PartialEq, Eq)]
pub struct EdgeSet(u8);

proof fn lemma_bit_or(b: u8, x: u8, y: u8)
    requires
        x == 1 || x == 2 || x == 4 || x == 8,
        y == 1 || y == 2 || y == 4 || y == 8,
    ensures
        ((b | x) & y != 0) == (b & y != 0 || x == y),
        b < 16 ==> (b | x) < 16,
{
    assert(((b | x) & y != 0) == (b & y != 0 || x == y)) by (bit_vector)
        requires
            x == 1 || x == 2 || x == 4 || x == 8,
            y == 1 || y == 2 || y == 4 || y == 8,
    ;
    assert(b < 16 ==> (b | x) < 16) by (bit_vector)
        requires
            x == 1 || x == 2 || x == 4 || x == 8,
    ;
}

impl View for EdgeSet {
    type V = Set<Edge>;

    closed spec fn view(&self) -> Set<Edge> {
        Set::new(|e: Edge| self.0 & edge_bit(e) != 0)
    }
}

impl EdgeSet {
    #[verifier::type_invariant]
    closed spec fn only_edge_bits(self) -> bool {
        self.0 < 16
    }

    fn bit(edge: Edge) -> (b: u8)
        ensures
            b == edge_bit(edge),
    {
        match edge {
            Edge::Left => 1,
            Edge::Right => 2,
            Edge::Top => 4,
            Edge::Bottom => 8,
        }
    }

    pub fn empty() -> (s: EdgeSet)
        ensures
            s@ == Set::<Edge>::empty(),
    {
        let s = EdgeSet(0);
        assert forall|e: Edge| !s@.contains(e) by {
            assert(0u8 & edge_bit(e) == 0) by (bit_vector);
        }
        assert(s@ =~= Set::<Edge>::empty());
        s
    }

    pub fn with(self, edge: Edge) -> (s: EdgeSet)
        ensures
            s@ == self@.insert(edge),
    {
        proof {
            use_type_invariant(&self);
            lemma_bit_or(self.0, edge_bit(edge), 1);
        }
        let s = EdgeSet(self.0 | Self::bit(edge));
        assert forall|e: Edge| s@.contains(e) == self@.insert(edge).contains(e) by {
            lemma_bit_or(self.0, edge_bit(edge), edge_bit(e));
        }
        assert(s@ =~= self@.insert(edge));
        s
    }

    pub fn insert(&mut self, edge: Edge)
        ensures
            final(self)@ == old(self)@.insert(edge),
    {
        *self = self.with(edge);
    }

    pub fn contains(&self, edge: Edge) -> (b: bool)
        ensures
            b == self@.contains(edge),
    {
        self.0 & Self::bit(edge) != 0
    }

    pub fn is_empty(&self) -> (b: bool)
        ensures
            b == (self@ == Set::<Edge>::empty()),
    {
        proof {
            use_type_invariant(self);
            let b = self.0;
            assert(b < 16 && b != 0 ==> (b & 1 != 0 || b & 2 != 0 || b & 4 != 0 || b & 8 != 0))
                by (bit_vector);
            assert(b == 0 ==> (b & 1 == 0 && b & 2 == 0 && b & 4 == 0 && b & 8 == 0))
                by (bit_vector);
            if b == 0 {
                assert(self@ =~= Set::<Edge>::empty());
            } else {
                assert(self@.contains(Edge::Left) || self@.contains(Edge::Right) || self@.contains(
                    Edge::Top,
                ) || self@.contains(Edge::Bottom));
            }
        }
        self.0 == 0
    }

    /// The set holding exactly the given edges.
    pub fn from_edges(edges: &[Edge]) -> (s: EdgeSet)
        ensures
            s@ == edges@.to_set(),
    {
        let mut s = EdgeSet::empty();
        let mut i: usize = 0;
        while i < edges.len()
            invariant
                i <= edges.len(),
                s@ == edges@.take(i as int).to_set(),
            decreases edges.len() - i,
        {
            s = s.with(edges[i]);
            proof {
                let prev = edges@.take(i as int);
                let next = edges@.take(i + 1);
                let x = edges@[i as int];
                assert forall|e: Edge| next.to_set().contains(e) == prev.to_set().insert(x).contains(e) by {
                    if next.contains(e) {
                        let j = choose|j: int| 0 <= j < next.len() && next[j] == e;
                        if j < i {
                            assert(prev[j] == e);
                        }
                    }
                    if prev.contains(e) {
                        let j = choose|j: int| 0 <= j < prev.len() && prev[j] == e;
                        assert(next[j] == e);
                    }
                    if e == x {
                        assert(next[i as int] == e);
                    }
                }
                assert(next.to_set() =~= prev.to_set().insert(x));
            }
            i = i + 1;
        }
        assert(edges@.take(i as int) =~= edges@);
        s
    }
}

impl Default for EdgeSet {
    fn default() -> (s: EdgeSet)
        ensures
            s@ == Set::<Edge>::empty(),
    {
        EdgeSet::empty()
    }
}

/// A screen's identity and geometry, sent by the client at connect time and
/// whenever its resolution changes.
#[derive(Debug, PartialEq, Eq)]
pub struct ScreenInfo {
    /// Logical name, must match the server config.
    pub name: String,
    /// Full desktop bounds (union of all monitors on that machine).
    pub bounds: Rect,
    /// Cursor position at the time the info was captured.
    pub cursor: Point,
}

impl Clone for ScreenInfo {
    fn clone(&self) -> (s: ScreenInfo)
        ensures
            s == *self,
    {
        ScreenInfo { name: self.name.clone(), bounds: self.bounds, cursor: self.cursor }
    }
}

} // verus!
