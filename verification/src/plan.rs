//! The flight plan that the plan view edits: a list of sectors, each with an
//! optional start and end airport and the waypoints flown between them.
use vstd::prelude::*;
use crate::aircraft::Aircraft;

verus! {

/// What a waypoint of the plan stands for.
#[derive(Clone, Copy, PartialEq, Eq, Structural, Debug)]
pub enum WaypointKind {
    Airport,
    Navaid,
    Fix,
    Other,
}

/// A waypoint of the plan, known by the identifier of the airport, navaid or
/// fix it stands for. Its position lives with that object.
#[derive(Clone, Copy, PartialEq, Eq, Structural, Debug)]
pub struct Waypoint {
    pub id: u64,
    pub kind: WaypointKind,
}

impl Waypoint {
    pub open spec fn is_airport(self) -> bool {
        self.kind == WaypointKind::Airport
    }
}

/// The value of a sector.
pub struct SectorModel {
    pub start: Option<Waypoint>,
    pub end: Option<Waypoint>,
    pub waypoints: Seq<Waypoint>,
}

/// A sequence with the elements at `i` and `i + 1` exchanged.
pub open spec fn swap_adjacent<A>(s: Seq<A>, i: int) -> Seq<A> {
    s.update(i, s[i + 1]).update(i + 1, s[i])
}

impl SectorModel {
    /// The rows a sector shows below it: its start if it has one, its
    /// waypoints, and its end if it has one.
    pub open spec fn children(self) -> Seq<Waypoint> {
        let head = match self.start {
            Some(w) => seq![w],
            None => Seq::empty(),
        };
        let tail = match self.end {
            Some(w) => seq![w],
            None => Seq::empty(),
        };
        head + self.waypoints + tail
    }

    pub open spec fn with_start(self, start: Option<Waypoint>) -> SectorModel {
        SectorModel { start, end: self.end, waypoints: self.waypoints }
    }

    pub open spec fn with_end(self, end: Option<Waypoint>) -> SectorModel {
        SectorModel { start: self.start, end, waypoints: self.waypoints }
    }

    pub open spec fn with_waypoints(self, waypoints: Seq<Waypoint>) -> SectorModel {
        SectorModel { start: self.start, end: self.end, waypoints }
    }
}

/// A leg of the plan from a start airport to an end airport.
pub struct Sector {
    start: Option<Waypoint>,
    end: Option<Waypoint>,
    waypoints: Vec<Waypoint>,
}

impl View for Sector {
    type V = SectorModel;

    closed spec fn view(&self) -> SectorModel {
        SectorModel { start: self.start, end: self.end, waypoints: self.waypoints@ }
    }
}

impl Sector {
    pub open spec fn empty_model() -> SectorModel {
        SectorModel { start: None, end: None, waypoints: Seq::empty() }
    }

    /// An empty sector.
    pub fn new() -> (s: Sector)
        ensures
            s@ == Sector::empty_model(),
    {
        Sector { start: None, end: None, waypoints: Vec::new() }
    }

    pub fn get_start(&self) -> (r: Option<Waypoint>)
        ensures
            r == self@.start,
    {
        self.start
    }

    pub fn get_end(&self) -> (r: Option<Waypoint>)
        ensures
            r == self@.end,
    {
        self.end
    }

    pub fn get_waypoint_count(&self) -> (r: usize)
        ensures
            r == self@.waypoints.len(),
    {
        self.waypoints.len()
    }

    pub fn get_waypoint(&self, i: usize) -> (r: Waypoint)
        requires
            i < self@.waypoints.len(),
        ensures
            r == self@.waypoints[i as int],
    {
        self.waypoints[i]
    }

    /// The `k`-th row below the sector, if there is one.
    pub fn child_at(&self, k: usize) -> (r: Option<Waypoint>)
        ensures
            k < self@.children().len() ==> r == Some(self@.children()[k as int]),
            k >= self@.children().len() ==> r.is_none(),
    {
        let n = self.waypoints.len();
        let first: usize = if self.start.is_some() { 1 } else { 0 };
        if self.start.is_some() && k == 0 {
            return self.start;
        }
        let i = k - first;
        if i < n {
            Some(self.waypoints[i])
        } else if i == n {
            self.end
        } else {
            None
        }
    }

    pub fn set_start(&mut self, start: Option<Waypoint>)
        ensures
            final(self)@ == old(self)@.with_start(start),
    {
        self.start = start;
    }

    pub fn set_end(&mut self, end: Option<Waypoint>)
        ensures
            final(self)@ == old(self)@.with_end(end),
    {
        self.end = end;
    }

    /// Puts a waypoint at position `i` of the waypoints, moving the later ones
    /// along.
    pub fn insert_waypoint(&mut self, i: usize, waypoint: Waypoint)
        requires
            i <= old(self)@.waypoints.len(),
        ensures
            final(self)@ == old(self)@.with_waypoints(old(self)@.waypoints.insert(i as int, waypoint)),
    {
        self.waypoints.insert(i, waypoint);
    }

    /// Appends a waypoint.
    pub fn add_waypoint(&mut self, waypoint: Waypoint)
        ensures
            final(self)@ == old(self)@.with_waypoints(old(self)@.waypoints.push(waypoint)),
    {
        self.waypoints.push(waypoint);
    }

    pub fn remove_waypoint(&mut self, i: usize)
        requires
            i < old(self)@.waypoints.len(),
        ensures
            final(self)@ == old(self)@.with_waypoints(old(self)@.waypoints.remove(i as int)),
    {
        self.waypoints.remove(i);
    }

    pub fn remove_all_waypoints(&mut self)
        ensures
            final(self)@ == old(self)@.with_waypoints(Seq::empty()),
    {
        self.waypoints.clear();
    }

    /// Appends all the given waypoints, in order.
    pub fn add_all_waypoint(&mut self, waypoints: Vec<Waypoint>)
        ensures
            final(self)@ == old(self)@.with_waypoints(old(self)@.waypoints + waypoints@),
    {
        let mut more = waypoints;
        self.waypoints.append(&mut more);
    }

    /// Exchanges waypoint `i` with the one before it.
    pub fn move_waypoint_up(&mut self, i: usize)
        requires
            0 < i < old(self)@.waypoints.len(),
        ensures
            final(self)@ == old(self)@.with_waypoints(swap_adjacent(old(self)@.waypoints, i - 1)),
    {
        let w = self.waypoints.remove(i);
        self.waypoints.insert(i - 1, w);
        assert(self.waypoints@ =~= swap_adjacent(old(self)@.waypoints, i - 1));
    }

    /// Exchanges waypoint `i` with the one after it.
    pub fn move_waypoint_down(&mut self, i: usize)
        requires
            i + 1 < old(self)@.waypoints.len(),
        ensures
            final(self)@ == old(self)@.with_waypoints(swap_adjacent(old(self)@.waypoints, i as int)),
    {
        let n = self.waypoints.len();
        assert(i + 1 < n);
        let next = i + 1;
        let w = self.waypoints.remove(i);
        self.waypoints.insert(next, w);
        assert(self.waypoints@ =~= swap_adjacent(old(self)@.waypoints, i as int));
    }
}

/// The value of a plan.
pub struct PlanModel {
    pub name: Seq<char>,
    pub sectors: Seq<SectorModel>,
    pub dirty: bool,
    pub max_altitude: Option<i32>,
    pub aircraft: Option<Aircraft>,
}

impl PlanModel {
    /// The plan with the given sectors, marked as changed.
    pub open spec fn edited(self, sectors: Seq<SectorModel>) -> PlanModel {
        PlanModel { sectors, dirty: true, ..self }
    }

    /// The plan with sector `i` replaced, marked as changed.
    pub open spec fn with_sector(self, i: int, s: SectorModel) -> PlanModel {
        self.edited(self.sectors.update(i, s))
    }

    /// The plan with `waypoint` put into the waypoints of sector `s` at `i`.
    pub open spec fn with_inserted_waypoint(self, s: int, i: int, waypoint: Waypoint) -> PlanModel {
        self.with_sector(s, self.sectors[s].with_waypoints(self.sectors[s].waypoints.insert(i, waypoint)))
    }

    /// The plan with the waypoints of each sector `i` replaced by
    /// `routes[i]`, marked as changed where it has sectors.
    pub open spec fn with_routes(self, routes: Seq<Seq<Waypoint>>) -> PlanModel {
        if self.sectors.len() == 0 {
            self
        } else {
            self.edited(
                Seq::new(self.sectors.len(), |i: int| self.sectors[i].with_waypoints(routes[i])),
            )
        }
    }

    /// Where an airport added to the plan goes: the start of the last sector if
    /// it has none, else its end if it has none, else the start of a new
    /// sector at the end of the plan.
    pub open spec fn with_airport(self, airport: Waypoint) -> PlanModel {
        let n = self.sectors.len();
        if n > 0 && self.sectors[n - 1].start.is_none() {
            self.with_sector(n - 1, self.sectors[n - 1].with_start(Some(airport)))
        } else if n > 0 && self.sectors[n - 1].end.is_none() {
            self.with_sector(n - 1, self.sectors[n - 1].with_end(Some(airport)))
        } else {
            self.edited(
                self.sectors.push(
                    SectorModel { start: Some(airport), end: None, waypoints: Seq::empty() },
                ),
            )
        }
    }
}

/// A flight plan.
pub struct Plan {
    name: String,
    sectors: Vec<Sector>,
    dirty: bool,
    max_altitude: Option<i32>,
    aircraft: Option<Aircraft>,
}

/// The values of a list of sectors.
pub open spec fn sector_models(v: Seq<Sector>) -> Seq<SectorModel> {
    v.map_values(|s: Sector| s@)
}

impl View for Plan {
    type V = PlanModel;

    closed spec fn view(&self) -> PlanModel {
        PlanModel {
            name: self.name@,
            sectors: sector_models(self.sectors@),
            dirty: self.dirty,
            max_altitude: self.max_altitude,
            aircraft: self.aircraft,
        }
    }
}

impl Plan {
    pub open spec fn new_model() -> PlanModel {
        PlanModel {
            name: Seq::empty(),
            sectors: Seq::empty(),
            dirty: false,
            max_altitude: None,
            aircraft: None,
        }
    }

    /// An unnamed plan without sectors.
    pub fn new() -> (p: Plan)
        ensures
            p@ == Plan::new_model(),
    {
        let p = Plan {
            name: String::new(),
            sectors: Vec::new(),
            dirty: false,
            max_altitude: None,
            aircraft: None,
        };
        assert(p@.sectors =~= Seq::<SectorModel>::empty());
        p
    }

    pub fn get_name(&self) -> (r: String)
        ensures
            r@ == self@.name,
    {
        self.name.clone()
    }

    pub fn set_name(&mut self, name: String)
        ensures
            final(self)@ == (PlanModel { name: name@, ..old(self)@ }),
    {
        self.name = name;
    }

    pub fn is_dirty(&self) -> (r: bool)
        ensures
            r == self@.dirty,
    {
        self.dirty
    }

    pub fn set_dirty(&mut self, dirty: bool)
        ensures
            final(self)@ == (PlanModel { dirty, ..old(self)@ }),
    {
        self.dirty = dirty;
    }

    pub fn get_max_altitude(&self) -> (r: Option<i32>)
        ensures
            r == self@.max_altitude,
    {
        self.max_altitude
    }

    pub fn set_max_altitude(&mut self, max_altitude: Option<i32>)
        ensures
            final(self)@ == (PlanModel { max_altitude, ..old(self)@ }),
    {
        self.max_altitude = max_altitude;
    }

    /// The aircraft the plan is flown with, if one is set.
    pub fn get_aircraft(&self) -> (r: &Option<Aircraft>)
        ensures
            *r == self@.aircraft,
    {
        &self.aircraft
    }

    pub fn set_aircraft(&mut self, aircraft: Option<Aircraft>)
        ensures
            final(self)@ == (PlanModel { aircraft, ..old(self)@ }),
    {
        self.aircraft = aircraft;
    }

    pub fn sector_count(&self) -> (r: usize)
        ensures
            r == self@.sectors.len(),
    {
        self.sectors.len()
    }

    pub fn get_sector(&self, i: usize) -> (r: &Sector)
        requires
            i < self@.sectors.len(),
        ensures
            r@ == self@.sectors[i as int],
    {
        &self.sectors[i]
    }

    /// Appends a sector.
    pub fn add_sector(&mut self, sector: Sector)
        ensures
            final(self)@ == old(self)@.edited(old(self)@.sectors.push(sector@)),
    {
        self.sectors.push(sector);
        self.dirty = true;
        assert(sector_models(self.sectors@) =~= old(self)@.sectors.push(sector@));
    }

    /// Exchanges sector `i` with the one before it.
    pub fn move_sector_up(&mut self, i: usize)
        requires
            0 < i < old(self)@.sectors.len(),
        ensures
            final(self)@ == old(self)@.edited(swap_adjacent(old(self)@.sectors, i - 1)),
    {
        let s = self.sectors.remove(i);
        self.sectors.insert(i - 1, s);
        self.dirty = true;
        assert(sector_models(self.sectors@) =~= swap_adjacent(old(self)@.sectors, i - 1));
    }

    /// Exchanges sector `i` with the one after it.
    pub fn move_sector_down(&mut self, i: usize)
        requires
            i + 1 < old(self)@.sectors.len(),
        ensures
            final(self)@ == old(self)@.edited(swap_adjacent(old(self)@.sectors, i as int)),
    {
        let n = self.sectors.len();
        assert(i + 1 < n);
        let next = i + 1;
        let s = self.sectors.remove(i);
        self.sectors.insert(next, s);
        self.dirty = true;
        assert(sector_models(self.sectors@) =~= swap_adjacent(old(self)@.sectors, i as int));
    }

    pub fn remove_sector_at(&mut self, i: usize)
        requires
            i < old(self)@.sectors.len(),
        ensures
            final(self)@ == old(self)@.edited(old(self)@.sectors.remove(i as int)),
    {
        self.sectors.remove(i);
        self.dirty = true;
        assert(sector_models(self.sectors@) =~= old(self)@.sectors.remove(i as int));
    }

    pub fn set_sector_start(&mut self, s: usize, start: Option<Waypoint>)
        requires
            s < old(self)@.sectors.len(),
        ensures
            final(self)@ == old(self)@.with_sector(
                s as int,
                old(self)@.sectors[s as int].with_start(start),
            ),
    {
        self.sectors[s].set_start(start);
        self.dirty = true;
        assert(sector_models(self.sectors@) =~= old(self)@.sectors.update(
            s as int,
            old(self)@.sectors[s as int].with_start(start),
        ));
    }

    pub fn set_sector_end(&mut self, s: usize, end: Option<Waypoint>)
        requires
            s < old(self)@.sectors.len(),
        ensures
            final(self)@ == old(self)@.with_sector(
                s as int,
                old(self)@.sectors[s as int].with_end(end),
            ),
    {
        self.sectors[s].set_end(end);
        self.dirty = true;
        assert(sector_models(self.sectors@) =~= old(self)@.sectors.update(
            s as int,
            old(self)@.sectors[s as int].with_end(end),
        ));
    }

    pub fn insert_waypoint(&mut self, s: usize, i: usize, waypoint: Waypoint)
        requires
            s < old(self)@.sectors.len(),
            i <= old(self)@.sectors[s as int].waypoints.len(),
        ensures
            final(self)@ == old(self)@.with_sector(
                s as int,
                old(self)@.sectors[s as int].with_waypoints(
                    old(self)@.sectors[s as int].waypoints.insert(i as int, waypoint),
                ),
            ),
    {
        self.sectors[s].insert_waypoint(i, waypoint);
        self.dirty = true;
        assert(sector_models(self.sectors@) =~= old(self)@.sectors.update(
            s as int,
            old(self)@.sectors[s as int].with_waypoints(
                old(self)@.sectors[s as int].waypoints.insert(i as int, waypoint),
            ),
        ));
    }

    pub fn remove_waypoint(&mut self, s: usize, i: usize)
        requires
            s < old(self)@.sectors.len(),
            i < old(self)@.sectors[s as int].waypoints.len(),
        ensures
            final(self)@ == old(self)@.with_sector(
                s as int,
                old(self)@.sectors[s as int].with_waypoints(
                    old(self)@.sectors[s as int].waypoints.remove(i as int),
                ),
            ),
    {
        self.sectors[s].remove_waypoint(i);
        self.dirty = true;
        assert(sector_models(self.sectors@) =~= old(self)@.sectors.update(
            s as int,
            old(self)@.sectors[s as int].with_waypoints(
                old(self)@.sectors[s as int].waypoints.remove(i as int),
            ),
        ));
    }

    pub fn move_waypoint_up(&mut self, s: usize, i: usize)
        requires
            s < old(self)@.sectors.len(),
            0 < i < old(self)@.sectors[s as int].waypoints.len(),
        ensures
            final(self)@ == old(self)@.with_sector(
                s as int,
                old(self)@.sectors[s as int].with_waypoints(
                    swap_adjacent(old(self)@.sectors[s as int].waypoints, i - 1),
                ),
            ),
    {
        self.sectors[s].move_waypoint_up(i);
        self.dirty = true;
        assert(sector_models(self.sectors@) =~= old(self)@.sectors.update(
            s as int,
            old(self)@.sectors[s as int].with_waypoints(
                swap_adjacent(old(self)@.sectors[s as int].waypoints, i - 1),
            ),
        ));
    }

    pub fn move_waypoint_down(&mut self, s: usize, i: usize)
        requires
            s < old(self)@.sectors.len(),
            i + 1 < old(self)@.sectors[s as int].waypoints.len(),
        ensures
            final(self)@ == old(self)@.with_sector(
                s as int,
                old(self)@.sectors[s as int].with_waypoints(
                    swap_adjacent(old(self)@.sectors[s as int].waypoints, i as int),
                ),
            ),
    {
        self.sectors[s].move_waypoint_down(i);
        self.dirty = true;
        assert(sector_models(self.sectors@) =~= old(self)@.sectors.update(
            s as int,
            old(self)@.sectors[s as int].with_waypoints(
                swap_adjacent(old(self)@.sectors[s as int].waypoints, i as int),
            ),
        ));
    }

    /// Replaces the waypoints of sector `s` by `waypoints`.
    pub fn set_sector_waypoints(&mut self, s: usize, waypoints: Vec<Waypoint>)
        requires
            s < old(self)@.sectors.len(),
        ensures
            final(self)@ == old(self)@.with_sector(
                s as int,
                old(self)@.sectors[s as int].with_waypoints(waypoints@),
            ),
    {
        self.sectors[s].remove_all_waypoints();
        self.sectors[s].add_all_waypoint(waypoints);
        self.dirty = true;
        assert(self.sectors@[s as int]@.waypoints =~= waypoints@);
        assert(sector_models(self.sectors@) =~= old(self)@.sectors.update(
            s as int,
            old(self)@.sectors[s as int].with_waypoints(waypoints@),
        ));
    }

    /// Adds an airport where `PlanModel::with_airport` says it goes.
    pub fn add_airport(&mut self, airport: Waypoint)
        ensures
            final(self)@ == old(self)@.with_airport(airport),
    {
        let n = self.sectors.len();
        if n > 0 && self.sectors[n - 1].get_start().is_none() {
            self.set_sector_start(n - 1, Some(airport));
        } else if n > 0 && self.sectors[n - 1].get_end().is_none() {
            self.set_sector_end(n - 1, Some(airport));
        } else {
            let mut s = Sector::new();
            s.set_start(Some(airport));
            self.add_sector(s);
        }
    }
}

/// Putting in the planned routes gives each sector `i` the waypoints
/// `routes[i]`, in order, and keeps every sector's start and end, the order
/// and number of the sectors, and the plan's name, altitude and aircraft.
pub proof fn law_routes_replace_waypoints(plan: PlanModel, routes: Seq<Seq<Waypoint>>)
    requires
        routes.len() == plan.sectors.len(),
    ensures
        ({
            let after = plan.with_routes(routes);
            &&& after.sectors.len() == plan.sectors.len()
            &&& forall|i: int| 0 <= i < plan.sectors.len() ==> {
                &&& (#[trigger] after.sectors[i]).waypoints == routes[i]
                &&& after.sectors[i].start == plan.sectors[i].start
                &&& after.sectors[i].end == plan.sectors[i].end
            }
            &&& after.name == plan.name
            &&& after.max_altitude == plan.max_altitude
            &&& after.aircraft == plan.aircraft
        }),
{
}

} // verus!
