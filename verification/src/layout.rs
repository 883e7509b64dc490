//! Pure screen-layout logic: adjacency and switch policy.
//!
//! Everything here is free of I/O and of wall-clock time (the caller passes a
//! monotonic millisecond stamp).
use vstd::prelude::*;

use crate::geometry::{Edge, EdgeSet};

verus! {

/// One recorded adjacency: crossing `edge` of `from` lands on `to`.
#[derive(Debug, Clone)]
struct Link {
    from: String,
    edge: Edge,
    to: String,
}

impl View for Link {
    type V = (Seq<char>, Edge, Seq<char>);

    closed spec fn view(&self) -> (Seq<char>, Edge, Seq<char>) {
        (self.from@, self.edge, self.to@)
    }
}

/// The key a link is looked up by.
spec fn link_key(l: Link) -> (Seq<char>, Edge) {
    (l.from@, l.edge)
}

/// The map from `(screen, edge)` to neighbour that a list of links with
/// distinct keys stands for.
spec fn links_as_map(links: Seq<Link>) -> Map<(Seq<char>, Edge), Seq<char>> {
    Map::new(
        |k: (Seq<char>, Edge)| exists|i: int| 0 <= i < links.len() && link_key(links[i]) == k,
        |k: (Seq<char>, Edge)|
            links[choose|i: int| 0 <= i < links.len() && link_key(links[i]) == k].to@,
    )
}

spec fn keys_distinct(links: Seq<Link>) -> bool {
    forall|i: int, j: int|
        0 <= i < links.len() && 0 <= j < links.len() && i != j ==> link_key(links[i]) != link_key(
            links[j],
        )
}

/// The static arrangement of screens: names plus per-edge neighbours.
#[derive(Debug)]
pub struct Layout {
    screens: Vec<String>,
    links: Vec<Link>,
}

impl Clone for Layout {
    fn clone(&self) -> (c: Layout)
        ensures
            c.screen_names() == self.screen_names(),
            c.neighbor_map() == self.neighbor_map(),
    {
        proof {
            use_type_invariant(self);
        }
        let mut screens: Vec<String> = Vec::new();
        let mut i: usize = 0;
        while i < self.screens.len()
            invariant
                i <= self.screens.len(),
                screens@.len() == i,
                forall|j: int| 0 <= j < i ==> #[trigger] screens@[j]@ == self.screens@[j]@,
            decreases self.screens.len() - i,
        {
            screens.push(self.screens[i].clone());
            i = i + 1;
        }
        let mut links: Vec<Link> = Vec::new();
        let mut i: usize = 0;
        while i < self.links.len()
            invariant
                i <= self.links.len(),
                links@.len() == i,
                forall|j: int| 0 <= j < i ==> #[trigger] links@[j]@ == self.links@[j]@,
            decreases self.links.len() - i,
        {
            let l = &self.links[i];
            links.push(Link { from: l.from.clone(), edge: l.edge, to: l.to.clone() });
            i = i + 1;
        }
        proof {
            assert forall|j: int| 0 <= j < links@.len() implies link_key(links@[j]) == link_key(
                self.links@[j],
            ) && links@[j].to@ == self.links@[j].to@ by {
                assert(links@[j]@ == self.links@[j]@);
            }
            let m = links_as_map(links@);
            let n = links_as_map(self.links@);
            assert forall|q: (Seq<char>, Edge)| #[trigger] m.contains_key(q) == n.contains_key(q) by {
                if m.contains_key(q) {
                    let j = choose|j: int| 0 <= j < links@.len() && link_key(links@[j]) == q;
                    assert(link_key(self.links@[j]) == q);
                }
                if n.contains_key(q) {
                    let j = choose|j: int| 0 <= j < self.links@.len() && link_key(self.links@[j]) == q;
                    assert(link_key(links@[j]) == q);
                }
            }
            assert forall|q: (Seq<char>, Edge)| #[trigger] m.contains_key(q) implies m[q] == n[q] by {
                let j = choose|j: int| 0 <= j < links@.len() && link_key(links@[j]) == q;
                let k = choose|k: int| 0 <= k < self.links@.len() && link_key(self.links@[k]) == q;
                assert(link_key(self.links@[j]) == q);
                assert(j == k);
            }
            assert(m =~= n);
        }
        let c = Layout { screens, links };
        assert(c.screen_names() =~= self.screen_names());
        c
    }
}

/// A link named a screen not present in the screen list.
#[derive(Debug, Clone, PartialEq, Eq)]
pub struct LinkError {
    pub from: String,
    pub to: String,
    pub undefined: String,
}

impl Layout {
    #[verifier::type_invariant]
    spec fn links_have_distinct_keys(self) -> bool {
        keys_distinct(self.links@)
    }

    /// The screen names, in the order given.
    pub closed spec fn screen_names(self) -> Seq<Seq<char>> {
        self.screens@.map_values(|s: String| s@)
    }

    /// Which screen is reached by leaving a screen across an edge.
    pub closed spec fn neighbor_map(self) -> Map<(Seq<char>, Edge), Seq<char>> {
        links_as_map(self.links@)
    }

    /// The neighbour across `edge` of `from`, if any.
    pub open spec fn neighbor_of(self, from: Seq<char>, edge: Edge) -> Option<Seq<char>> {
        if self.neighbor_map().contains_key((from, edge)) {
            Some(self.neighbor_map()[(from, edge)])
        } else {
            None
        }
    }

    /// The edges of `from` that have a neighbour.
    pub open spec fn linked_edges(self, from: Seq<char>) -> Set<Edge> {
        Set::new(|e: Edge| self.neighbor_map().contains_key((from, e)))
    }

    pub fn new(screens: Vec<String>) -> (l: Layout)
        ensures
            l.screen_names() == screens@.map_values(|s: String| s@),
            l.neighbor_map() == Map::<(Seq<char>, Edge), Seq<char>>::empty(),
    {
        let l = Layout { screens, links: Vec::new() };
        assert(l.neighbor_map() =~= Map::<(Seq<char>, Edge), Seq<char>>::empty());
        l
    }

    pub fn screens(&self) -> (s: &[String])
        ensures
            s@.map_values(|s: String| s@) == self.screen_names(),
    {
        self.screens.as_slice()
    }

    pub fn has_screen(&self, name: &str) -> (b: bool)
        ensures
            b == self.screen_names().contains(name@),
    {
        let wanted = name.to_owned();
        let mut i: usize = 0;
        while i < self.screens.len()
            invariant
                i <= self.screens.len(),
                wanted@ == name@,
                forall|j: int| 0 <= j < i ==> self.screens@[j]@ != name@,
            decreases self.screens.len() - i,
        {
            if self.screens[i] == wanted {
                assert(self.screen_names()[i as int] == name@);
                return true;
            }
            i = i + 1;
        }
        proof {
            if self.screen_names().contains(name@) {
                let j = choose|j: int| 0 <= j < self.screen_names().len() && self.screen_names()[j] == name@;
                assert(self.screens@[j]@ == name@);
            }
        }
        false
    }

    /// The position of the link keyed `(from, edge)`, if there is one.
    fn find_link(&self, from: &String, edge: Edge) -> (r: Option<usize>)
        ensures
            match r {
                Some(i) => i < self.links@.len() && link_key(self.links@[i as int]) == (from@, edge),
                None => !self.neighbor_map().contains_key((from@, edge)),
            },
    {
        let mut i: usize = 0;
        while i < self.links.len()
            invariant
                i <= self.links.len(),
                forall|j: int| 0 <= j < i ==> link_key(#[trigger] self.links@[j]) != (from@, edge),
            decreases self.links.len() - i,
        {
            if self.links[i].edge == edge && self.links[i].from == *from {
                return Some(i);
            }
            i = i + 1;
        }
        None
    }

    /// Record that crossing `edge` of `from` lands on `to`.
    pub fn link(&mut self, from: &str, edge: Edge, to: &str) -> (r: Result<(), LinkError>)
        ensures
            r is Ok <==> (old(self).screen_names().contains(from@) && old(self).screen_names().contains(
                to@,
            )),
            final(self).screen_names() == old(self).screen_names(),
            r is Ok ==> final(self).neighbor_map() == old(self).neighbor_map().insert((from@, edge), to@),
            r matches Err(e) ==> {
                &&& final(self).neighbor_map() == old(self).neighbor_map()
                &&& e.from@ == from@
                &&& e.to@ == to@
                &&& e.undefined@ == (if !old(self).screen_names().contains(from@) {
                    from@
                } else {
                    to@
                })
            },
    {
        if !self.has_screen(from) {
            return Err(LinkError { from: from.to_owned(), to: to.to_owned(), undefined: from.to_owned() });
        }
        if !self.has_screen(to) {
            return Err(LinkError { from: from.to_owned(), to: to.to_owned(), undefined: to.to_owned() });
        }
        let from_name = from.to_owned();
        let found = self.find_link(&from_name, edge);
        proof {
            use_type_invariant(&*self);
        }
        let ghost old_links = self.links@;
        let new_link = Link { from: from_name, edge, to: to.to_owned() };
        let mut links: Vec<Link> = Vec::new();
        std::mem::swap(&mut links, &mut self.links);
        match found {
            Some(i) => {
                links.set(i, new_link);
            },
            None => {
                links.push(new_link);
            },
        }
        proof {
            let k = (from@, edge);
            let m = links_as_map(links@);
            let expected = links_as_map(old_links).insert(k, to@);
            assert(keys_distinct(links@)) by {
                match found {
                    Some(i) => {},
                    None => {
                        assert forall|j: int| 0 <= j < old_links.len() implies link_key(old_links[j]) != k by {
                            if link_key(old_links[j]) == k {
                                assert(links_as_map(old_links).contains_key(k));
                            }
                        }
                    },
                }
            }
            assert forall|q: (Seq<char>, Edge)| #[trigger] m.contains_key(q) == expected.contains_key(q) by {
                if q == k {
                    match found {
                        Some(i) => assert(link_key(links@[i as int]) == q),
                        None => assert(link_key(links@[old_links.len() as int]) == q),
                    }
                } else {
                    if m.contains_key(q) {
                        let j = choose|j: int| 0 <= j < links@.len() && link_key(links@[j]) == q;
                        assert(link_key(old_links[j]) == q);
                    }
                    if expected.contains_key(q) {
                        let j = choose|j: int| 0 <= j < old_links.len() && link_key(old_links[j]) == q;
                        assert(link_key(links@[j]) == q);
                    }
                }
            }
            assert forall|q: (Seq<char>, Edge)| #[trigger] m.contains_key(q) implies m[q] == expected[q] by {
                let j = choose|j: int| 0 <= j < links@.len() && link_key(links@[j]) == q;
                if q == k {
                    match found {
                        Some(i) => assert(j == i),
                        None => assert(j == old_links.len()),
                    }
                } else {
                    let jo = choose|jo: int| 0 <= jo < old_links.len() && link_key(old_links[jo]) == q;
                    assert(link_key(links@[jo]) == q);
                    assert(jo == j);
                }
            }
            assert(m =~= expected);
        }
        self.links = links;
        Ok(())
    }

    /// The screen reached by leaving `from` across `edge`, if any.
    pub fn neighbor(&self, from: &str, edge: Edge) -> (r: Option<&str>)
        ensures
            match r {
                Some(s) => self.neighbor_of(from@, edge) == Some(s@),
                None => self.neighbor_of(from@, edge) is None,
            },
    {
        proof {
            use_type_invariant(self);
        }
        let from_name = from.to_owned();
        match self.find_link(&from_name, edge) {
            Some(i) => {
                proof {
                    let k = (from@, edge);
                    assert(self.neighbor_map().contains_key(k));
                    let j = choose|j: int| 0 <= j < self.links@.len() && link_key(self.links@[j]) == k;
                    assert(j == i);
                }
                Some(self.links[i].to.as_str())
            },
            None => None,
        }
    }

    /// The set of edges of `from` that have a neighbour. The capture backend
    /// watches exactly these for a cursor crossing.
    pub fn active_edges(&self, from: &str) -> (s: EdgeSet)
        ensures
            s@ == self.linked_edges(from@),
    {
        let from_name = from.to_owned();
        let mut s = EdgeSet::empty();
        let mut i: usize = 0;
        while i < self.links.len()
            invariant
                i <= self.links.len(),
                from_name@ == from@,
                s@ == Set::new(
                    |e: Edge|
                        exists|j: int| 0 <= j < i && #[trigger] link_key(self.links@[j]) == (from@, e),
                ),
            decreases self.links.len() - i,
        {
            let ghost before = s@;
            if self.links[i].from == from_name {
                s = s.with(self.links[i].edge);
            }
            proof {
                let cur = Set::new(
                    |e: Edge|
                        exists|j: int| 0 <= j < i + 1 && #[trigger] link_key(self.links@[j]) == (from@, e),
                );
                assert forall|e: Edge| s@.contains(e) == cur.contains(e) by {
                    if link_key(self.links@[i as int]) == (from@, e) {
                        assert(cur.contains(e));
                    }
                    if cur.contains(e) {
                        let j = choose|j: int| 0 <= j < i + 1 && #[trigger] link_key(self.links@[j]) == (from@, e);
                        if j < i {
                            assert(before.contains(e));
                        }
                    }
                }
                assert(s@ =~= cur);
            }
            i = i + 1;
        }
        assert(s@ =~= self.linked_edges(from@));
        s
    }
}

/// An edge of a screen is active exactly when crossing it reaches a
/// neighbour.
pub proof fn lemma_active_edges_are_linked(layout: Layout, from: Seq<char>, edge: Edge)
    ensures
        layout.linked_edges(from).contains(edge) <==> layout.neighbor_of(from, edge) is Some,
{
}

/// After a successful link, the neighbour across that edge is the screen just
/// linked, and every other `(screen, edge)` pair keeps its neighbour.
pub proof fn lemma_link_then_neighbor(
    before: Layout,
    after: Layout,
    from: Seq<char>,
    edge: Edge,
    to: Seq<char>,
    other_from: Seq<char>,
    other_edge: Edge,
)
    requires
        after.neighbor_map() == before.neighbor_map().insert((from, edge), to),
    ensures
        after.neighbor_of(from, edge) == Some(to),
        (other_from, other_edge) != (from, edge) ==> after.neighbor_of(other_from, other_edge)
            == before.neighbor_of(other_from, other_edge),
{
}

/// Tunables governing whether a cursor at a screen edge actually switches
/// screens.
#[derive(Debug, Clone, Copy, PartialEq, Eq, Structural)]
pub struct SwitchPolicy {
    /// Cursor must rest against the edge for this many ms before switching.
    /// `0` disables the dwell requirement.
    pub delay_ms: u32,
    /// Cursor must touch the edge twice within this many ms to switch.
    /// `0` disables the double-tap requirement.
    pub double_tap_ms: u32,
    /// Only switch within this many px of a screen corner. `0` = whole edge.
    pub corner_size: i32,
    /// Width of the edge band that counts as "at the edge". At least 1.
    pub jump_zone: i32,
    /// Whether an engaged Scroll Lock pins the cursor to the active screen.
    pub scroll_lock_locks: bool,
}

/// The switch policy when nothing says otherwise: no dwell, no double tap,
/// the whole edge, a one-pixel jump zone, and Scroll Lock pins the cursor.
pub open spec fn default_policy() -> SwitchPolicy {
    SwitchPolicy {
        delay_ms: 0,
        double_tap_ms: 0,
        corner_size: 0,
        jump_zone: 1,
        scroll_lock_locks: true,
    }
}

impl Default for SwitchPolicy {
    fn default() -> (p: SwitchPolicy)
        ensures
            p == (SwitchPolicy {
                delay_ms: 0,
                double_tap_ms: 0,
                corner_size: 0,
                jump_zone: 1,
                scroll_lock_locks: true,
            }),
            p == default_policy(),
    {
        SwitchPolicy {
            delay_ms: 0,
            double_tap_ms: 0,
            corner_size: 0,
            jump_zone: 1,
            scroll_lock_locks: true,
        }
    }
}

/// The decision produced by [`SwitchState::evaluate`].
#[derive(Debug, Clone, Copy, PartialEq, Eq, Structural)]
pub enum Decision {
    /// Switch now, to the neighbour across the edge.
    Switch,
    /// The cursor is at a live edge but a gate (dwell / second tap) is not yet
    /// satisfied. Keep feeding edge samples.
    Wait,
    /// No switch: no neighbour, locked to screen, or outside the corner window.
    Blocked,
}

/// The observable state of a [`SwitchState`]: whether Scroll Lock is
/// engaged, the dwell in progress and the last edge tap.
pub struct SwitchModel {
    pub locked: bool,
    pub dwell: Option<(Edge, u64)>,
    pub last_tap: Option<(Edge, u64)>,
}

/// Milliseconds from `then` to `now`, zero if `now` is earlier.
pub open spec fn elapsed(now: u64, then: u64) -> int {
    if now >= then {
        now - then
    } else {
        0
    }
}

/// The double-tap gate lets a switch through: it is disabled, or this touch
/// follows a touch of the same edge within the window.
pub open spec fn tap_gate_open(policy: SwitchPolicy, s: SwitchModel, now: u64, edge: Edge) -> bool {
    policy.double_tap_ms == 0 || match s.last_tap {
        Some((e, t)) => e == edge && elapsed(now, t) <= policy.double_tap_ms,
        None => false,
    }
}

/// The dwell on `edge` has lasted at least the configured delay.
pub open spec fn dwell_done(policy: SwitchPolicy, s: SwitchModel, now: u64, edge: Edge) -> bool {
    match s.dwell {
        Some((e, started)) => e == edge && elapsed(now, started) >= policy.delay_ms,
        None => false,
    }
}

/// What one edge sample does: the next state and the decision.
pub open spec fn switch_step(
    policy: SwitchPolicy,
    s: SwitchModel,
    now: u64,
    edge: Edge,
    has_neighbor: bool,
    in_corner: bool,
) -> (SwitchModel, Decision) {
    let cleared = SwitchModel { locked: s.locked, dwell: None, last_tap: s.last_tap };
    let reset = SwitchModel { locked: s.locked, dwell: None, last_tap: None };
    let tapped = SwitchModel {
        locked: s.locked,
        dwell: s.dwell,
        last_tap: if policy.double_tap_ms > 0 { Some((edge, now)) } else { s.last_tap },
    };
    if !has_neighbor || !in_corner || (s.locked && policy.scroll_lock_locks) {
        (cleared, Decision::Blocked)
    } else if !tap_gate_open(policy, s, now, edge) {
        (tapped, Decision::Wait)
    } else if policy.delay_ms == 0 || dwell_done(policy, s, now, edge) {
        (reset, Decision::Switch)
    } else if s.dwell matches Some((e, _)) && e == edge {
        (tapped, Decision::Wait)
    } else {
        (SwitchModel { dwell: Some((edge, now)), ..tapped }, Decision::Wait)
    }
}

/// The state after Scroll Lock is toggled: the lock flips and any dwell is
/// cancelled.
pub open spec fn toggled(s: SwitchModel) -> SwitchModel {
    SwitchModel { locked: !s.locked, dwell: None, last_tap: s.last_tap }
}

/// Mutable state the caller threads between [`evaluate`](Self::evaluate) calls.
#[derive(Debug, Clone)]
pub struct SwitchState {
    /// Scroll Lock engaged.
    locked: bool,
    /// A dwell in progress: `(edge, started_at_ms)`.
    dwell: Option<(Edge, u64)>,
    /// Last edge tap seen: `(edge, at_ms)`, for double-tap detection.
    last_tap: Option<(Edge, u64)>,
}

impl View for SwitchState {
    type V = SwitchModel;

    closed spec fn view(&self) -> SwitchModel {
        SwitchModel { locked: self.locked, dwell: self.dwell, last_tap: self.last_tap }
    }
}

impl Default for SwitchState {
    fn default() -> (s: SwitchState)
        ensures
            s@ == (SwitchModel { locked: false, dwell: None, last_tap: None }),
    {
        SwitchState::new()
    }
}

impl SwitchState {
    pub fn new() -> (s: SwitchState)
        ensures
            s@ == (SwitchModel { locked: false, dwell: None, last_tap: None }),
    {
        SwitchState { locked: false, dwell: None, last_tap: None }
    }

    pub fn is_locked(&self) -> (b: bool)
        ensures
            b == self@.locked,
    {
        self.locked
    }

    /// Flip the Scroll Lock state (called when the server sees the key toggle).
    pub fn toggle_lock(&mut self)
        ensures
            final(self)@ == toggled(old(self)@),
    {
        self.locked = !self.locked;
        self.dwell = None;
    }

    pub fn set_locked(&mut self, locked: bool)
        ensures
            final(self)@ == (SwitchModel {
                locked,
                dwell: if locked { None } else { old(self)@.dwell },
                last_tap: old(self)@.last_tap,
            }),
    {
        self.locked = locked;
        if locked {
            self.dwell = None;
        }
    }

    /// Call when the cursor leaves the edge band without switching, so a stale
    /// dwell doesn't fire later.
    pub fn left_edge(&mut self)
        ensures
            final(self)@ == (SwitchModel { dwell: None, ..old(self)@ }),
    {
        self.dwell = None;
    }

    /// Call after a switch actually happens, to reset per-attempt state.
    pub fn switched(&mut self)
        ensures
            final(self)@ == (SwitchModel { locked: old(self)@.locked, dwell: None, last_tap: None }),
    {
        self.dwell = None;
        self.last_tap = None;
    }

    /// Decide whether the cursor, currently in the `edge` jump zone with
    /// `has_neighbor` telling whether a link exists and `in_corner` telling
    /// whether corner constraints are met, should switch at monotonic time
    /// `now_ms`.
    pub fn evaluate(
        &mut self,
        policy: &SwitchPolicy,
        now_ms: u64,
        edge: Edge,
        has_neighbor: bool,
        in_corner: bool,
    ) -> (d: Decision)
        ensures
            (final(self)@, d) == switch_step(*policy, old(self)@, now_ms, edge, has_neighbor, in_corner),
    {
        if !has_neighbor || !in_corner {
            self.dwell = None;
            return Decision::Blocked;
        }
        if self.locked && policy.scroll_lock_locks {
            self.dwell = None;
            return Decision::Blocked;
        }

        // Gate 1: double-tap (takes precedence when enabled).
        if policy.double_tap_ms > 0 {
            let second_tap = match self.last_tap {
                Some((e, t)) => e == edge && now_ms.saturating_sub(t) <= policy.double_tap_ms as u64,
                None => false,
            };
            self.last_tap = Some((edge, now_ms));
            if !second_tap {
                return Decision::Wait;
            }
        }

        // Gate 2: dwell delay.
        if policy.delay_ms > 0 {
            match self.dwell {
                Some((e, started)) => {
                    if e == edge {
                        if now_ms.saturating_sub(started) >= policy.delay_ms as u64 {
                            self.switched();
                            return Decision::Switch;
                        }
                        return Decision::Wait;
                    }
                    self.dwell = Some((edge, now_ms));
                    return Decision::Wait;
                },
                None => {
                    self.dwell = Some((edge, now_ms));
                    return Decision::Wait;
                },
            }
        }

        self.switched();
        Decision::Switch
    }
}

/// Evaluating an edge sample never engages or releases Scroll Lock.
pub proof fn lemma_evaluate_keeps_lock(
    policy: SwitchPolicy,
    s: SwitchModel,
    now: u64,
    edge: Edge,
    has_neighbor: bool,
    in_corner: bool,
)
    ensures
        switch_step(policy, s, now, edge, has_neighbor, in_corner).0.locked == s.locked,
{
}

/// A switch only happens across a linked edge, inside the corner window, and
/// not while Scroll Lock pins the cursor; and it clears all per-attempt state.
pub proof fn lemma_switch_requires_open_edge(
    policy: SwitchPolicy,
    s: SwitchModel,
    now: u64,
    edge: Edge,
    has_neighbor: bool,
    in_corner: bool,
)
    ensures
        ({
            let (next, d) = switch_step(policy, s, now, edge, has_neighbor, in_corner);
            d == Decision::Switch ==> {
                &&& has_neighbor
                &&& in_corner
                &&& !(s.locked && policy.scroll_lock_locks)
                &&& next.dwell is None
                &&& next.last_tap is None
            }
        }),
{
}

/// A blocked sample cancels any dwell in progress.
pub proof fn lemma_blocked_clears_dwell(
    policy: SwitchPolicy,
    s: SwitchModel,
    now: u64,
    edge: Edge,
    has_neighbor: bool,
    in_corner: bool,
)
    ensures
        ({
            let (next, d) = switch_step(policy, s, now, edge, has_neighbor, in_corner);
            d == Decision::Blocked ==> next.dwell is None
        }),
{
}

/// With neither dwell nor double-tap enabled, a sample never waits: it
/// switches exactly when the edge is open, and is blocked otherwise.
pub proof fn lemma_no_gates_no_wait(
    policy: SwitchPolicy,
    s: SwitchModel,
    now: u64,
    edge: Edge,
    has_neighbor: bool,
    in_corner: bool,
)
    requires
        policy.delay_ms == 0,
        policy.double_tap_ms == 0,
    ensures
        switch_step(policy, s, now, edge, has_neighbor, in_corner).1 == (if has_neighbor && in_corner
            && !(s.locked && policy.scroll_lock_locks) {
            Decision::Switch
        } else {
            Decision::Blocked
        }),
{
}

/// With the double-tap gate on, a switch needs an earlier touch of the same
/// edge within the window.
pub proof fn lemma_double_tap_needs_prior_touch(
    policy: SwitchPolicy,
    s: SwitchModel,
    now: u64,
    edge: Edge,
    has_neighbor: bool,
    in_corner: bool,
)
    requires
        policy.double_tap_ms > 0,
    ensures
        switch_step(policy, s, now, edge, has_neighbor, in_corner).1 == Decision::Switch ==> (
        s.last_tap matches Some((e, t)) && e == edge && elapsed(now, t) <= policy.double_tap_ms),
{
}

/// With a dwell delay on, a switch needs a dwell on the same edge that started
/// at least the delay ago.
pub proof fn lemma_dwell_needs_time_at_edge(
    policy: SwitchPolicy,
    s: SwitchModel,
    now: u64,
    edge: Edge,
    has_neighbor: bool,
    in_corner: bool,
)
    requires
        policy.delay_ms > 0,
    ensures
        switch_step(policy, s, now, edge, has_neighbor, in_corner).1 == Decision::Switch ==> (
        s.dwell matches Some((e, started)) && e == edge && elapsed(now, started) >= policy.delay_ms),
{
}

/// With a dwell delay on and no double-tap gate, a sample at an open edge
/// that is not the edge of the dwell in progress starts a new dwell there,
/// at that moment; a later sample at the same edge once the delay has passed
/// switches, and one before it waits with the dwell kept.
pub proof fn lemma_new_edge_restarts_dwell(
    policy: SwitchPolicy,
    s: SwitchModel,
    now: u64,
    edge: Edge,
    later: u64,
)
    requires
        policy.delay_ms > 0,
        policy.double_tap_ms == 0,
        !(s.locked && policy.scroll_lock_locks),
        !(s.dwell matches Some((e, _)) && e == edge),
        now <= later,
    ensures
        ({
            let (s1, d1) = switch_step(policy, s, now, edge, true, true);
            let (s2, d2) = switch_step(policy, s1, later, edge, true, true);
            &&& d1 == Decision::Wait
            &&& s1.dwell == Some((edge, now))
            &&& s1.locked == s.locked
            &&& (later - now >= policy.delay_ms ==> d2 == Decision::Switch)
            &&& (later - now < policy.delay_ms ==> d2 == Decision::Wait && s2.dwell == Some((edge, now)))
        }),
{
}

/// With the double-tap gate on as well, the same holds of a sample that is
/// itself a second tap: it starts a dwell on its edge, and the next tap on
/// that edge within the tap window, once the delay has passed, switches.
pub proof fn lemma_new_edge_restarts_dwell_with_taps(
    policy: SwitchPolicy,
    s: SwitchModel,
    now: u64,
    edge: Edge,
    later: u64,
)
    requires
        policy.delay_ms > 0,
        policy.double_tap_ms > 0,
        !(s.locked && policy.scroll_lock_locks),
        !(s.dwell matches Some((e, _)) && e == edge),
        s.last_tap matches Some((e, t)) && e == edge && t <= now && now - t <= policy.double_tap_ms,
        now <= later,
        later - now >= policy.delay_ms,
        later - now <= policy.double_tap_ms,
    ensures
        ({
            let (s1, d1) = switch_step(policy, s, now, edge, true, true);
            let (s2, d2) = switch_step(policy, s1, later, edge, true, true);
            &&& d1 == Decision::Wait
            &&& s1.dwell == Some((edge, now))
            &&& d2 == Decision::Switch
        }),
{
}

/// With the double-tap gate on and no dwell delay, a touch of an open edge
/// switches exactly when the previous touch was of the same edge within the
/// window; otherwise it waits, and becomes the first tap of the next try.
pub proof fn lemma_second_tap_in_window_switches(
    policy: SwitchPolicy,
    s: SwitchModel,
    now: u64,
    edge: Edge,
)
    requires
        policy.double_tap_ms > 0,
        policy.delay_ms == 0,
        !(s.locked && policy.scroll_lock_locks),
    ensures
        ({
            let (s1, d) = switch_step(policy, s, now, edge, true, true);
            let second = s.last_tap matches Some((e, t)) && e == edge && (now < t || now - t
                <= policy.double_tap_ms);
            &&& second ==> d == Decision::Switch && s1.last_tap is None
            &&& !second ==> d == Decision::Wait && s1.last_tap == Some((edge, now))
        }),
{
}

/// With a dwell delay on and the tap gate open, a sample at an open edge
/// where a dwell started at least the delay ago switches, and one where it
/// started less than the delay ago waits with the dwell kept.
pub proof fn lemma_finished_dwell_switches(
    policy: SwitchPolicy,
    s: SwitchModel,
    now: u64,
    edge: Edge,
    started: u64,
)
    requires
        policy.delay_ms > 0,
        policy.double_tap_ms == 0,
        !(s.locked && policy.scroll_lock_locks),
        s.dwell == Some((edge, started)),
        started <= now,
    ensures
        ({
            let (s1, d) = switch_step(policy, s, now, edge, true, true);
            &&& now - started >= policy.delay_ms ==> d == Decision::Switch && s1.dwell is None
            &&& now - started < policy.delay_ms ==> d == Decision::Wait && s1.dwell == Some(
                (edge, started),
            )
        }),
{
}

/// Toggling Scroll Lock twice restores the lock state.
pub proof fn lemma_toggle_twice(s: SwitchModel)
    ensures
        toggled(toggled(s)).locked == s.locked,
        toggled(s).locked != s.locked,
{
}

} // verus!
