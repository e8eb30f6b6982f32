//! The integer bookkeeping of the map renderers: which airports and navaids
//! are drawn at which size, the order in which a plan's route is drawn, how
//! a quadrilateral is cut into triangles, and the cache that creates each
//! edge midpoint of the globe's mesh only once.
use vstd::prelude::*;
use crate::plan::{Plan, SectorModel, Waypoint};
use std::collections::HashMap;

verus! {

/// Runways longer than this make a large airport.
pub const LARGE_RUNWAY: i32 = 10000;

/// Runways longer than this (and not large) make a medium airport.
pub const MEDIUM_RUNWAY: i32 = 5000;

/// The size class of an airport by its longest runway: 2 large, 1 medium,
/// 0 small.
pub open spec fn airport_class(max_runway_length: i32) -> int {
    if max_runway_length > LARGE_RUNWAY {
        2
    } else if max_runway_length > MEDIUM_RUNWAY {
        1
    } else {
        0
    }
}

/// The indices, in increasing order, of the entries of `s` for which `p`
/// holds.
pub open spec fn indices_where<A>(s: Seq<A>, p: spec_fn(A) -> bool) -> Seq<u32>
    decreases s.len(),
{
    if s.len() == 0 {
        Seq::empty()
    } else if p(s.last()) {
        indices_where(s.drop_last(), p).push((s.len() - 1) as u32)
    } else {
        indices_where(s.drop_last(), p)
    }
}

/// The airports drawn at each size, as indices into the airport list.
pub struct AirportClasses {
    pub large: Vec<u32>,
    pub medium: Vec<u32>,
    pub small: Vec<u32>,
}

/// Sorts airports, given the length of each one's longest runway, into the
/// large, medium and small ones the map draws at growing zoom levels.
pub fn classify_airports(max_runway_lengths: &Vec<i32>) -> (r: AirportClasses)
    requires
        max_runway_lengths@.len() <= u32::MAX,
    ensures
        r.large@ == indices_where(max_runway_lengths@, |l: i32| airport_class(l) == 2),
        r.medium@ == indices_where(max_runway_lengths@, |l: i32| airport_class(l) == 1),
        r.small@ == indices_where(max_runway_lengths@, |l: i32| airport_class(l) == 0),
{
    let mut large: Vec<u32> = Vec::new();
    let mut medium: Vec<u32> = Vec::new();
    let mut small: Vec<u32> = Vec::new();
    let n = max_runway_lengths.len();
    let mut i: usize = 0;
    while i < n
        invariant
            n == max_runway_lengths@.len(),
            n <= u32::MAX,
            i <= n,
            large@ == indices_where(
                max_runway_lengths@.take(i as int),
                |l: i32| airport_class(l) == 2,
            ),
            medium@ == indices_where(
                max_runway_lengths@.take(i as int),
                |l: i32| airport_class(l) == 1,
            ),
            small@ == indices_where(
                max_runway_lengths@.take(i as int),
                |l: i32| airport_class(l) == 0,
            ),
        decreases n - i,
    {
        let ghost prefix = max_runway_lengths@.take(i as int + 1);
        assert(prefix.drop_last() =~= max_runway_lengths@.take(i as int));
        assert(prefix.last() == max_runway_lengths@[i as int]);
        let length = max_runway_lengths[i];
        if length > LARGE_RUNWAY {
            large.push(i as u32);
        } else if length > MEDIUM_RUNWAY {
            medium.push(i as u32);
        } else {
            small.push(i as u32);
        }
        i = i + 1;
    }
    assert(max_runway_lengths@.take(n as int) =~= max_runway_lengths@);
    AirportClasses { large, medium, small }
}

/// Sorts navaids into the VORs, drawn at every zoom level, and the others,
/// drawn only close in; each as indices into the navaid list.
pub fn classify_navaids(is_vor: &Vec<bool>) -> (r: (Vec<u32>, Vec<u32>))
    requires
        is_vor@.len() <= u32::MAX,
    ensures
        r.0@ == indices_where(is_vor@, |v: bool| v),
        r.1@ == indices_where(is_vor@, |v: bool| !v),
{
    let mut vor: Vec<u32> = Vec::new();
    let mut other: Vec<u32> = Vec::new();
    let n = is_vor.len();
    let mut i: usize = 0;
    while i < n
        invariant
            n == is_vor@.len(),
            n <= u32::MAX,
            i <= n,
            vor@ == indices_where(is_vor@.take(i as int), |v: bool| v),
            other@ == indices_where(is_vor@.take(i as int), |v: bool| !v),
        decreases n - i,
    {
        let ghost prefix = is_vor@.take(i as int + 1);
        assert(prefix.drop_last() =~= is_vor@.take(i as int));
        assert(prefix.last() == is_vor@[i as int]);
        if is_vor[i] {
            vor.push(i as u32);
        } else {
            other.push(i as u32);
        }
        i = i + 1;
    }
    assert(is_vor@.take(n as int) =~= is_vor@);
    (vor, other)
}

/// Every index appears in exactly one of the size classes, so each airport
/// is drawn once, at one size.
pub proof fn law_airport_classes_partition(lengths: Seq<i32>, i: int)
    requires
        0 <= i < lengths.len(),
        lengths.len() <= u32::MAX,
    ensures
        indices_where(lengths, |l: i32| airport_class(l) == 2).contains(i as u32) <==> airport_class(
            lengths[i],
        ) == 2,
        indices_where(lengths, |l: i32| airport_class(l) == 1).contains(i as u32) <==> airport_class(
            lengths[i],
        ) == 1,
        indices_where(lengths, |l: i32| airport_class(l) == 0).contains(i as u32) <==> airport_class(
            lengths[i],
        ) == 0,
{
    lemma_indices_where_contains(lengths, |l: i32| airport_class(l) == 2, i);
    lemma_indices_where_contains(lengths, |l: i32| airport_class(l) == 1, i);
    lemma_indices_where_contains(lengths, |l: i32| airport_class(l) == 0, i);
}

proof fn lemma_indices_where_contains<A>(s: Seq<A>, p: spec_fn(A) -> bool, i: int)
    requires
        0 <= i < s.len(),
        s.len() <= u32::MAX,
    ensures
        indices_where(s, p).contains(i as u32) <==> p(s[i]),
    decreases s.len(),
{
    lemma_indices_where_below(s.drop_last(), p);
    let front = indices_where(s.drop_last(), p);
    if i == s.len() - 1 {
        if p(s.last()) {
            assert(indices_where(s, p)[front.len() as int] == i as u32);
        }
        assert(!front.contains(i as u32));
    } else {
        lemma_indices_where_contains(s.drop_last(), p, i);
        assert(s.drop_last()[i] == s[i]);
        if p(s.last()) {
            assert(indices_where(s, p) == front.push((s.len() - 1) as u32));
            if front.contains(i as u32) {
                let k = choose|k: int| 0 <= k < front.len() && front[k] == i as u32;
                assert(indices_where(s, p)[k] == i as u32);
            }
            if indices_where(s, p).contains(i as u32) {
                let k = choose|k: int|
                    0 <= k < indices_where(s, p).len() && indices_where(s, p)[k] == i as u32;
                if k == front.len() {
                    assert((s.len() - 1) as u32 == i as u32);
                } else {
                    assert(front[k] == i as u32);
                }
            }
        }
    }
}

proof fn lemma_indices_where_below<A>(s: Seq<A>, p: spec_fn(A) -> bool)
    requires
        s.len() <= u32::MAX,
    ensures
        forall|k: int|
            0 <= k < indices_where(s, p).len() ==> #[trigger] indices_where(s, p)[k] < s.len(),
    decreases s.len(),
{
    if s.len() > 0 {
        lemma_indices_where_below(s.drop_last(), p);
        let front = indices_where(s.drop_last(), p);
        if p(s.last()) {
            assert(indices_where(s, p) == front.push((s.len() - 1) as u32));
            assert forall|k: int| 0 <= k < indices_where(s, p).len() implies #[trigger] indices_where(
                s,
                p,
            )[k] < s.len() by {
                if k < front.len() {
                    assert(indices_where(s, p)[k] == front[k]);
                }
            }
        }
    }
}

/// The six corners, two triangles, that draw the quadrilateral `q`:
/// `q0 q1 q2` and `q2 q3 q0`.
pub fn quad_triangles<T: Copy>(q: [T; 4]) -> (r: Vec<T>)
    ensures
        r@ == seq![q[0], q[1], q[2], q[2], q[3], q[0]],
{
    let mut r: Vec<T> = Vec::new();
    r.push(q[0]);
    r.push(q[1]);
    r.push(q[2]);
    r.push(q[2]);
    r.push(q[3]);
    r.push(q[0]);
    assert(r@ =~= seq![q[0], q[1], q[2], q[2], q[3], q[0]]);
    r
}

/// A buffer of `len` spaces, for a shader compiler to write its log into.
pub fn whitespace_buffer(len: usize) -> (r: Vec<u8>)
    ensures
        r@ == Seq::new(len as nat, |i: int| 32u8),
{
    let mut buffer: Vec<u8> = Vec::new();
    let mut i: usize = 0;
    while i < len
        invariant
            i <= len,
            buffer@ == Seq::new(i as nat, |k: int| 32u8),
        decreases len - i,
    {
        buffer.push(32u8);
        i = i + 1;
        assert(buffer@ =~= Seq::new(i as nat, |k: int| 32u8));
    }
    buffer
}

/// A point of a plan's route, in drawing order.
#[derive(Clone, Copy, PartialEq, Eq, Structural, Debug)]
pub struct RoutePoint {
    pub waypoint: Waypoint,
    /// The point is a sector's start or end, drawn as a marker.
    pub marker: bool,
    /// The route is drawn to this point from the one before it.
    pub joins_previous: bool,
}

/// The route of one sector: nothing where it has no start; otherwise its
/// start, its waypoints, and its end where it has one, each joined to the
/// one before except the start.
pub open spec fn sector_route(s: SectorModel) -> Seq<RoutePoint> {
    match s.start {
        None => Seq::empty(),
        Some(start) => {
            let head = seq![RoutePoint { waypoint: start, marker: true, joins_previous: false }];
            let middle = s.waypoints.map_values(
                |w: Waypoint| RoutePoint { waypoint: w, marker: false, joins_previous: true },
            );
            let tail = match s.end {
                Some(end) => seq![RoutePoint { waypoint: end, marker: true, joins_previous: true }],
                None => Seq::empty(),
            };
            head + middle + tail
        },
    }
}

/// The route of a plan: its sectors' routes in order.
pub open spec fn plan_route(sectors: Seq<SectorModel>) -> Seq<RoutePoint>
    decreases sectors.len(),
{
    if sectors.len() == 0 {
        Seq::empty()
    } else {
        plan_route(sectors.drop_last()) + sector_route(sectors.last())
    }
}

/// The route of a sector with a start goes through the sector's rows in the
/// plan's own order: point `k` is row `k` (start, waypoints in order, end);
/// only the first point is not joined to the one before, and the start and
/// end are the markers. A sector without a start draws nothing.
pub proof fn law_sector_route_follows_rows(s: SectorModel)
    ensures
        s.start.is_none() ==> sector_route(s).len() == 0,
        s.start.is_some() ==> {
            let route = sector_route(s);
            let rows = s.children();
            &&& route.len() == rows.len()
            &&& forall|k: int| 0 <= k < rows.len() ==> (#[trigger] route[k]).waypoint == rows[k]
            &&& forall|k: int| 0 <= k < rows.len() ==> (#[trigger] route[k]).joins_previous == (k > 0)
            &&& forall|k: int|
                0 <= k < rows.len() ==> (#[trigger] route[k]).marker == (k == 0 || (s.end.is_some()
                    && k == rows.len() - 1))
        },
{
    if let Some(start) = s.start {
        let route = sector_route(s);
        let rows = s.children();
        assert(route.len() == rows.len());
        assert forall|k: int| 0 <= k < rows.len() implies (#[trigger] route[k]).waypoint == rows[k] by {
            if k == 0 {
            } else if k <= s.waypoints.len() {
                assert(rows[k] == s.waypoints[k - 1]);
            } else {
                assert(rows[k] == s.end.unwrap());
            }
        }
    }
}

/// The route of a plan is the routes of its parts, one after the other: the
/// route of sectors `a` followed by sectors `b` is the route of `a` followed
/// by the route of `b`.
pub proof fn law_plan_route_concatenates(a: Seq<SectorModel>, b: Seq<SectorModel>)
    ensures
        plan_route(a + b) == plan_route(a) + plan_route(b),
    decreases b.len(),
{
    if b.len() == 0 {
        assert(a + b =~= a);
        assert(plan_route(b) =~= Seq::<RoutePoint>::empty());
        assert(plan_route(a) + plan_route(b) =~= plan_route(a));
    } else {
        law_plan_route_concatenates(a, b.drop_last());
        assert((a + b).drop_last() =~= a + b.drop_last());
        assert((a + b).last() == b.last());
        assert(plan_route(a + b) =~= plan_route(a) + plan_route(b));
    }
}

/// A plan of one sector draws that sector's route.
pub proof fn law_plan_route_single(s: SectorModel)
    ensures
        plan_route(seq![s]) == sector_route(s),
{
    let none = seq![s].drop_last();
    assert(none =~= Seq::<SectorModel>::empty());
    assert(plan_route(none) =~= Seq::<RoutePoint>::empty());
    assert(plan_route(seq![s]) == plan_route(none) + sector_route(s));
    assert(plan_route(none) + sector_route(s) =~= sector_route(s));
}

/// The points the map draws for a plan, in order.
pub fn route_points(plan: &Plan) -> (r: Vec<RoutePoint>)
    ensures
        r@ == plan_route(plan@.sectors),
{
    let mut r: Vec<RoutePoint> = Vec::new();
    let n = plan.sector_count();
    let mut i: usize = 0;
    while i < n
        invariant
            n == plan@.sectors.len(),
            i <= n,
            r@ == plan_route(plan@.sectors.take(i as int)),
        decreases n - i,
    {
        let ghost before = r@;
        let sector = plan.get_sector(i);
        if let Some(start) = sector.get_start() {
            r.push(RoutePoint { waypoint: start, marker: true, joins_previous: false });
            let count = sector.get_waypoint_count();
            let mut k: usize = 0;
            while k < count
                invariant
                    count == sector@.waypoints.len(),
                    k <= count,
                    sector@.start == Some(start),
                    r@ == before + seq![
                        RoutePoint { waypoint: start, marker: true, joins_previous: false },
                    ] + sector@.waypoints.take(k as int).map_values(
                        |w: Waypoint| RoutePoint { waypoint: w, marker: false, joins_previous: true },
                    ),
                decreases count - k,
            {
                let w = sector.get_waypoint(k);
                r.push(RoutePoint { waypoint: w, marker: false, joins_previous: true });
                k = k + 1;
                assert(r@ =~= before + seq![
                    RoutePoint { waypoint: start, marker: true, joins_previous: false },
                ] + sector@.waypoints.take(k as int).map_values(
                    |w: Waypoint| RoutePoint { waypoint: w, marker: false, joins_previous: true },
                ));
            }
            assert(sector@.waypoints.take(count as int) =~= sector@.waypoints);
            if let Some(end) = sector.get_end() {
                r.push(RoutePoint { waypoint: end, marker: true, joins_previous: true });
            }
        }
        proof {
            let front = plan@.sectors.take(i as int + 1);
            assert(front.drop_last() =~= plan@.sectors.take(i as int));
            assert(front.last() == sector@);
            assert(r@ =~= before + sector_route(sector@));
        }
        i = i + 1;
    }
    assert(plan@.sectors.take(n as int) =~= plan@.sectors);
    r
}

/// The two corner indices of a mesh edge, the smaller first, so that an
/// edge is found whichever way round it is given.
pub open spec fn edge_key(a: usize, b: usize) -> (usize, usize) {
    if a < b {
        (a, b)
    } else {
        (b, a)
    }
}

/// The number each edge is filed under in the cache: its two corner indices
/// side by side, the first in the high half.
pub open spec fn edge_code(k: (usize, usize)) -> u128 {
    (k.0 * 0x1_0000_0000_0000_0000 + k.1) as u128
}

/// Different edges are filed under different numbers.
proof fn lemma_edge_code_injective(k1: (usize, usize), k2: (usize, usize))
    ensures
        edge_code(k1) == edge_code(k2) <==> k1 == k2,
{
    let b: int = 0x1_0000_0000_0000_0000;
    assert(k1.0 * b + k1.1 < 0x1_0000_0000_0000_0000_0000_0000_0000_0000);
    assert(k2.0 * b + k2.1 < 0x1_0000_0000_0000_0000_0000_0000_0000_0000);
    if k1.0 * b + k1.1 == k2.0 * b + k2.1 {
        if k1.0 < k2.0 {
            assert(k1.0 * b + k1.1 < k2.0 * b);
        } else if k2.0 < k1.0 {
            assert(k2.0 * b + k2.1 < k1.0 * b);
        }
    }
}

/// The midpoints already created, by edge.
pub struct EdgeMidpoints {
    codes: HashMap<u128, usize>,
}

impl EdgeMidpoints {
    /// The midpoint index of each edge seen so far.
    pub closed spec fn midpoints(&self) -> Map<(usize, usize), usize> {
        Map::new(
            |k: (usize, usize)| self.codes@.contains_key(edge_code(k)),
            |k: (usize, usize)| self.codes@[edge_code(k)],
        )
    }

    pub fn new() -> (c: EdgeMidpoints)
        ensures
            c.midpoints() == Map::<(usize, usize), usize>::empty(),
    {
        let c = EdgeMidpoints { codes: HashMap::new() };
        assert(c.midpoints() =~= Map::<(usize, usize), usize>::empty());
        c
    }

    /// The index of the midpoint of the edge from `a` to `b`: the one already
    /// created for that edge, or else `next_index`, which is recorded for it.
    /// Also says whether the midpoint is new.
    pub fn get_midpoint(&mut self, a: usize, b: usize, next_index: usize) -> (r: (usize, bool))
        ensures
            old(self).midpoints().contains_key(edge_key(a, b)) ==> {
                &&& r == (old(self).midpoints()[edge_key(a, b)], false)
                &&& final(self).midpoints() == old(self).midpoints()
            },
            !old(self).midpoints().contains_key(edge_key(a, b)) ==> {
                &&& r == (next_index, true)
                &&& final(self).midpoints() == old(self).midpoints().insert(
                    edge_key(a, b),
                    next_index,
                )
            },
    {
        broadcast use vstd::std_specs::hash::group_hash_axioms;

        let key = if a < b {
            (a, b)
        } else {
            (b, a)
        };
        let code: u128 = key.0 as u128 * 0x1_0000_0000_0000_0000u128 + key.1 as u128;
        assert(code == edge_code(key));
        match self.codes.get(&code) {
            Some(i) => {
                let found = *i;
                (found, false)
            },
            None => {
                let ghost before = old(self).midpoints();
                self.codes.insert(code, next_index);
                proof {
                    assert forall|k: (usize, usize)|
                        #![trigger self.codes@.contains_key(edge_code(k))]
                        self.codes@.contains_key(edge_code(k)) == before.insert(
                            key,
                            next_index,
                        ).contains_key(k) && (self.codes@.contains_key(edge_code(k))
                            ==> self.codes@[edge_code(k)] == before.insert(key, next_index)[k]) by {
                        lemma_edge_code_injective(k, key);
                    }
                    assert(self.midpoints() =~= before.insert(key, next_index));
                }
                (next_index, true)
            },
        }
    }
}

/// An edge has one midpoint whichever way round it is asked for, and asking
/// again gives the same index without creating another.
pub proof fn law_edge_midpoint_shared(a: usize, b: usize, m: Map<(usize, usize), usize>, next: usize)
    ensures
        edge_key(a, b) == edge_key(b, a),
        m.insert(edge_key(a, b), next).contains_key(edge_key(b, a)),
        m.insert(edge_key(a, b), next)[edge_key(b, a)] == next,
{
}

} // verus!
