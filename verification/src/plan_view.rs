//! What the plan view does to its plan when the user acts on the selected row
//! of the plan tree: moving and removing sectors and waypoints, adding
//! airports and waypoints, and which move buttons it offers.
use vstd::prelude::*;
use crate::aircraft::Aircraft;
use crate::plan::{swap_adjacent, Plan, PlanModel, Sector, SectorModel, Waypoint, WaypointKind};
use crate::text::{decimal_i32, parse_number};
use crate::tree::{depths_fit, get_tree_path, lemma_path_entries_bounded, tree_path_of};

verus! {

/// Whether no depth is `u32::MAX` (see `depths_fit`).
fn depths_within(depths: &Vec<Option<u32>>) -> (r: bool)
    ensures
        r == depths_fit(depths@),
{
    let n = depths.len();
    let mut i: usize = 0;
    while i < n
        invariant
            n == depths@.len(),
            i <= n,
            forall|j: int| 0 <= j < i ==> (#[trigger] depths@[j] matches Some(d) ==> d < u32::MAX),
        decreases n - i,
    {
        if let Some(d) = depths[i] {
            if d == u32::MAX {
                assert(depths@[i as int] == Some(d));
                return false;
            }
        }
        i = i + 1;
    }
    true
}

/// What a row of the plan tree shows.
#[derive(Clone, Copy, PartialEq, Eq, Structural, Debug)]
pub enum RowKind {
    Sector,
    Waypoint,
    Other,
}

/// A row that the tree has at the selected position: what it shows, and the
/// depths of the rows from the top of the tree down to it (`None` where the
/// tree reports no row).
pub struct SelectedRow {
    pub kind: RowKind,
    pub depths: Vec<Option<u32>>,
}

/// The selection of the plan tree: the selected position, and the row found
/// there, if any.
pub struct Selection {
    pub position: u32,
    pub row: Option<SelectedRow>,
}

/// A selected row: its kind and its path in the tree.
pub struct RowModel {
    pub kind: RowKind,
    pub path: Seq<u32>,
}

/// The value of a selection.
pub struct SelectionModel {
    pub position: u32,
    pub row: Option<RowModel>,
}

impl SelectedRow {
    pub open spec fn model(&self) -> RowModel {
        RowModel { kind: self.kind, path: tree_path_of(self.depths@) }
    }

    /// The depths describe the rows down to position `position`.
    pub open spec fn walks_to(&self, position: u32) -> bool {
        &&& self.depths@.len() == position + 1
        &&& position < u32::MAX
        &&& depths_fit(self.depths@)
    }
}

impl Selection {
    pub open spec fn model(&self) -> SelectionModel {
        SelectionModel {
            position: self.position,
            row: match self.row {
                Some(r) => Some(r.model()),
                None => None,
            },
        }
    }

    pub open spec fn well_formed(&self) -> bool {
        self.row matches Some(r) ==> r.walks_to(self.position)
    }
}

/// The selection as a value (`None` where nothing is selected).
pub open spec fn selection_model(sel: Option<&Selection>) -> Option<SelectionModel> {
    match sel {
        Some(s) => Some(s.model()),
        None => None,
    }
}

/// The selection's row, if any, is one of the plan's rows: a sector row
/// names a sector, a waypoint row names a sector and one of its rows.
pub open spec fn selection_fits(plan: PlanModel, sel: Option<SelectionModel>) -> bool {
    sel matches Some(s) ==> (s.row matches Some(r) ==> match r.kind {
        RowKind::Sector => r.path.len() >= 1 && r.path[0] < plan.sectors.len(),
        RowKind::Waypoint => {
            &&& r.path.len() >= 2
            &&& r.path[0] < plan.sectors.len()
            &&& r.path[1] < plan.sectors[r.path[0] as int].children().len()
        },
        RowKind::Other => true,
    })
}

pub open spec fn selection_ok(plan: PlanModel, sel: Option<&Selection>) -> bool {
    &&& (sel matches Some(s) ==> s.well_formed())
    &&& selection_fits(plan, selection_model(sel))
}

/// The index among a sector's waypoints of child row `c`: rows after the
/// start count from the first waypoint.
pub open spec fn waypoint_index(sector: SectorModel, c: int) -> int {
    if sector.start.is_some() {
        c - 1
    } else {
        c
    }
}

/// A waypoint row that the move buttons look at: not the start row.
pub open spec fn is_start_row(sector: SectorModel, c: int) -> bool {
    sector.start.is_some() && c == 0
}

/// Moving down works out `waypoint count - 1`, which does not exist for a
/// sector without waypoints: a selected waypoint row other than the start
/// row is in a sector with waypoints.
pub open spec fn down_fits(plan: PlanModel, sel: Option<SelectionModel>) -> bool {
    sel matches Some(s) ==> (s.row matches Some(r) ==> (r.kind == RowKind::Waypoint ==> {
        let sector = plan.sectors[r.path[0] as int];
        !is_start_row(sector, r.path[1] as int) ==> sector.waypoints.len() > 0
    }))
}

/// What the view does after an action: nothing more (`Unchanged`), or
/// redraw the tree and select the given position (none where `None`).
#[derive(Clone, Copy, PartialEq, Eq, Structural, Debug)]
pub enum ViewUpdate {
    Unchanged,
    Refresh(Option<u32>),
}

/// Whether moving the selection up changes the order of sectors or
/// waypoints.
pub open spec fn up_moves(plan: PlanModel, sel: Option<SelectionModel>) -> bool {
    sel matches Some(s) && s.row matches Some(r) && match r.kind {
        RowKind::Sector => r.path[0] > 0,
        RowKind::Waypoint => {
            let sector = plan.sectors[r.path[0] as int];
            let w = waypoint_index(sector, r.path[1] as int);
            !is_start_row(sector, r.path[1] as int) && 0 < w < sector.waypoints.len()
        },
        RowKind::Other => false,
    }
}

/// Whether moving the selection down changes the order of sectors or
/// waypoints.
pub open spec fn down_moves(plan: PlanModel, sel: Option<SelectionModel>) -> bool {
    sel matches Some(s) && s.row matches Some(r) && match r.kind {
        RowKind::Sector => r.path[0] < plan.sectors.len() - 1,
        RowKind::Waypoint => {
            let sector = plan.sectors[r.path[0] as int];
            let w = waypoint_index(sector, r.path[1] as int);
            !is_start_row(sector, r.path[1] as int) && w < sector.waypoints.len() - 1
        },
        RowKind::Other => false,
    }
}

/// The plan and view update after "move up".
pub open spec fn moved_up(plan: PlanModel, sel: Option<SelectionModel>) -> (PlanModel, ViewUpdate) {
    match sel {
        Some(s) => match s.row {
            Some(r) => match r.kind {
                RowKind::Sector => {
                    let i = r.path[0] as int;
                    if i > 0 {
                        (plan.edited(swap_adjacent(plan.sectors, i - 1)), ViewUpdate::Refresh(None))
                    } else {
                        (plan, ViewUpdate::Refresh(Some(0)))
                    }
                },
                RowKind::Waypoint => {
                    let si = r.path[0] as int;
                    let sector = plan.sectors[si];
                    let c = r.path[1] as int;
                    let w = waypoint_index(sector, c);
                    if !is_start_row(sector, c) && 0 < w < sector.waypoints.len() {
                        (
                            plan.with_sector(
                                si,
                                sector.with_waypoints(swap_adjacent(sector.waypoints, w - 1)),
                            ),
                            ViewUpdate::Refresh(Some((s.position - 1) as u32)),
                        )
                    } else {
                        (plan, ViewUpdate::Unchanged)
                    }
                },
                RowKind::Other => (plan, ViewUpdate::Refresh(Some(0))),
            },
            None => (plan, ViewUpdate::Refresh(Some(0))),
        },
        None => (plan, ViewUpdate::Refresh(Some(0))),
    }
}

/// The plan and view update after "move down".
pub open spec fn moved_down(plan: PlanModel, sel: Option<SelectionModel>) -> (
    PlanModel,
    ViewUpdate,
) {
    match sel {
        Some(s) => match s.row {
            Some(r) => match r.kind {
                RowKind::Sector => {
                    let i = r.path[0] as int;
                    if i < plan.sectors.len() - 1 {
                        (plan.edited(swap_adjacent(plan.sectors, i)), ViewUpdate::Refresh(None))
                    } else {
                        (plan, ViewUpdate::Refresh(Some(0)))
                    }
                },
                RowKind::Waypoint => {
                    let si = r.path[0] as int;
                    let sector = plan.sectors[si];
                    let c = r.path[1] as int;
                    let w = waypoint_index(sector, c);
                    if !is_start_row(sector, c) && w < sector.waypoints.len() - 1 {
                        (
                            plan.with_sector(
                                si,
                                sector.with_waypoints(swap_adjacent(sector.waypoints, w)),
                            ),
                            ViewUpdate::Refresh(Some((s.position + 1) as u32)),
                        )
                    } else {
                        (plan, ViewUpdate::Unchanged)
                    }
                },
                RowKind::Other => (plan, ViewUpdate::Refresh(Some(0))),
            },
            None => (plan, ViewUpdate::Refresh(Some(0))),
        },
        None => (plan, ViewUpdate::Refresh(Some(0))),
    }
}

/// A sector after its child row `c` is removed, by the kind of row:
/// - the start row: the start goes, and with it the first waypoint where
///   there is one; the end goes too where that leaves no waypoint;
/// - the row of waypoint `w`: that waypoint goes, and where it was the last
///   one the end goes too;
/// - the end row (just after the waypoints): the end goes.
pub open spec fn removed_child(sector: SectorModel, c: int) -> SectorModel {
    let n = sector.waypoints.len();
    let w = waypoint_index(sector, c);
    if is_start_row(sector, c) {
        SectorModel {
            start: None,
            end: if n <= 1 {
                None
            } else {
                sector.end
            },
            waypoints: if n > 0 {
                sector.waypoints.remove(0)
            } else {
                sector.waypoints
            },
        }
    } else if 0 <= w < n {
        SectorModel {
            start: sector.start,
            end: if w == n - 1 {
                None
            } else {
                sector.end
            },
            waypoints: sector.waypoints.remove(w),
        }
    } else if w == n {
        sector.with_end(None)
    } else {
        sector
    }
}

/// The row selected after child row `c` of a sector at `position` is
/// removed: the same position where rows are left below it (the start row
/// with two or more waypoints, a waypoint other than the last); none where
/// the start, the last waypoint or the end row went.
pub open spec fn removed_child_selection(sector: SectorModel, c: int, position: u32) -> Option<
    u32,
> {
    let n = sector.waypoints.len();
    let w = waypoint_index(sector, c);
    if is_start_row(sector, c) {
        if n >= 2 {
            Some(position)
        } else {
            None
        }
    } else if 0 <= w < n - 1 {
        Some(position)
    } else if 0 <= w <= n {
        None
    } else {
        Some(0)
    }
}

/// The plan and view update after "remove".
pub open spec fn removed(plan: PlanModel, sel: Option<SelectionModel>) -> (PlanModel, ViewUpdate) {
    match sel {
        Some(s) => match s.row {
            Some(r) => match r.kind {
                RowKind::Sector => {
                    let i = r.path[0] as int;
                    (plan.edited(plan.sectors.remove(i)), ViewUpdate::Refresh(None))
                },
                RowKind::Waypoint => {
                    let si = r.path[0] as int;
                    let sector = plan.sectors[si];
                    let c = r.path[1] as int;
                    (
                        plan.with_sector(si, removed_child(sector, c)),
                        ViewUpdate::Refresh(removed_child_selection(sector, c, s.position)),
                    )
                },
                RowKind::Other => (plan, ViewUpdate::Refresh(Some(0))),
            },
            None => (plan, ViewUpdate::Refresh(Some(0))),
        },
        None => (plan, ViewUpdate::Refresh(Some(0))),
    }
}

/// The sector a selected sector or waypoint row belongs to.
pub open spec fn selected_sector(sel: Option<SelectionModel>) -> Option<int> {
    match sel {
        Some(s) => match s.row {
            Some(r) => match r.kind {
                RowKind::Sector => Some(r.path[0] as int),
                RowKind::Waypoint => Some(r.path[0] as int),
                RowKind::Other => None,
            },
            None => None,
        },
        None => None,
    }
}

/// The plan after adding an airport with a selection: with nothing selected
/// the plan is left alone; otherwise the airport becomes the start of the
/// selected sector if it has none, else its end if it has none, else it goes
/// where `PlanModel::with_airport` puts it.
pub open spec fn with_airport_at(plan: PlanModel, airport: Waypoint, sel: Option<SelectionModel>) -> PlanModel {
    if sel.is_none() {
        plan
    } else {
        match selected_sector(sel) {
            Some(si) => {
                let sector = plan.sectors[si];
                if sector.start.is_none() {
                    plan.with_sector(si, sector.with_start(Some(airport)))
                } else if sector.end.is_none() {
                    plan.with_sector(si, sector.with_end(Some(airport)))
                } else {
                    plan.with_airport(airport)
                }
            },
            None => plan.with_airport(airport),
        }
    }
}

/// Where an added waypoint went.
#[derive(Clone, Copy, PartialEq, Eq, Structural, Debug)]
pub enum WaypointPlacement {
    /// Into the waypoints of `sector` at `index`.
    Inserted { sector: usize, index: usize },
    /// Into the waypoints of `sector`, where its optimised insertion puts it.
    Optimise { sector: usize },
    /// Not placed.
    NotPlaced,
}

/// Where a waypoint added with a selection goes: with nothing selected, to
/// the best place in the last sector; with a sector row, to the best place in
/// that sector; with a waypoint row, just before that row's waypoint (at the
/// start row, first).
pub open spec fn waypoint_placement(plan: PlanModel, sel: Option<SelectionModel>) -> WaypointPlacement {
    match sel {
        None => if plan.sectors.len() > 0 {
            WaypointPlacement::Optimise { sector: (plan.sectors.len() - 1) as usize }
        } else {
            WaypointPlacement::NotPlaced
        },
        Some(s) => match s.row {
            Some(r) => match r.kind {
                RowKind::Sector => WaypointPlacement::Optimise { sector: r.path[0] as usize },
                RowKind::Waypoint => {
                    let sector = plan.sectors[r.path[0] as int];
                    let c = r.path[1] as int;
                    let index = if c > 0 && sector.start.is_some() {
                        c - 1
                    } else {
                        c
                    };
                    WaypointPlacement::Inserted {
                        sector: r.path[0] as usize,
                        index: index as usize,
                    }
                },
                RowKind::Other => WaypointPlacement::NotPlaced,
            },
            None => WaypointPlacement::NotPlaced,
        },
    }
}

/// The waypoint a selection points at: a sector row points at its start, or
/// its end where it has no start; a waypoint row at its own waypoint.
pub open spec fn selected_waypoint(plan: PlanModel, sel: Option<SelectionModel>) -> Option<Waypoint> {
    match sel {
        Some(s) => match s.row {
            Some(r) => match r.kind {
                RowKind::Sector => {
                    let sector = plan.sectors[r.path[0] as int];
                    if sector.start.is_some() {
                        sector.start
                    } else {
                        sector.end
                    }
                },
                RowKind::Waypoint => Some(
                    plan.sectors[r.path[0] as int].children()[r.path[1] as int],
                ),
                RowKind::Other => None,
            },
            None => None,
        },
        None => None,
    }
}

/// The airport a selection points at: for a sector row its start, where it
/// has one, else its end; for a waypoint row its own waypoint; in each case
/// only where that waypoint is an airport.
pub open spec fn selected_airport(plan: PlanModel, sel: Option<SelectionModel>) -> Option<Waypoint> {
    match selected_waypoint(plan, sel) {
        Some(w) => if w.is_airport() {
            Some(w)
        } else {
            None
        },
        None => None,
    }
}

/// The title of the heading column: magnetic or true headings, as the
/// preferences ask.
pub fn heading_column_title(use_magnetic_headings: bool) -> (r: &'static str)
    ensures
        r@ == if use_magnetic_headings {
            "Hdg(mag)"@
        } else {
            "Hdg(true)"@
        },
{
    if use_magnetic_headings {
        "Hdg(mag)"
    } else {
        "Hdg(true)"
    }
}

/// Which move buttons are enabled.
#[derive(Clone, Copy, PartialEq, Eq, Structural, Debug)]
pub struct MoveButtons {
    pub up: bool,
    pub down: bool,
}

/// The view of a flight plan being edited.
pub struct PlanView {
    plan: Plan,
}

impl PlanView {
    pub closed spec fn plan_model(&self) -> PlanModel {
        self.plan@
    }

    /// A view of an empty plan.
    pub fn new() -> (v: PlanView)
        ensures
            v.plan_model() == Plan::new_model(),
    {
        PlanView { plan: Plan::new() }
    }

    /// Starts a new plan: adds an empty sector, sets the aircraft to the
    /// hangar's default one (none where the hangar has no default) and marks
    /// the plan unchanged.
    pub fn new_plan(&mut self, default_aircraft: Option<Aircraft>)
        ensures
            final(self).plan_model() == (PlanModel {
                sectors: old(self).plan_model().sectors.push(Sector::empty_model()),
                dirty: false,
                aircraft: default_aircraft,
                ..old(self).plan_model()
            }),
    {
        self.plan.add_sector(Sector::new());
        self.plan.set_aircraft(default_aircraft);
        self.plan.set_dirty(false);
    }

    /// An aircraft was chosen in the aircraft list: the plan is flown with
    /// it. Where the hangar has no aircraft at the chosen place (`None`),
    /// nothing changes.
    pub fn aircraft_selected(&mut self, aircraft: Option<Aircraft>)
        ensures
            aircraft.is_some() ==> final(self).plan_model() == (PlanModel {
                aircraft,
                ..old(self).plan_model()
            }),
            aircraft.is_none() ==> final(self).plan_model() == old(self).plan_model(),
    {
        if aircraft.is_some() {
            self.plan.set_aircraft(aircraft);
        }
    }

    pub fn set_plan(&mut self, plan: Plan)
        ensures
            final(self).plan_model() == plan@,
    {
        self.plan = plan;
    }

    pub fn get_plan(&self) -> (r: &Plan)
        ensures
            r@ == self.plan_model(),
    {
        &self.plan
    }

    /// The "maximum altitude" check button was toggled: when on, the plan's
    /// maximum altitude is the entry's number, or none where the entry holds
    /// none; when off, the plan has no maximum altitude.
    pub fn max_altitude_toggled(&mut self, active: bool, text: &str)
        ensures
            final(self).plan_model() == (PlanModel {
                max_altitude: if active {
                    decimal_i32(text@)
                } else {
                    None
                },
                ..old(self).plan_model()
            }),
    {
        if active {
            self.plan.set_max_altitude(parse_number(text));
        } else {
            self.plan.set_max_altitude(None);
        }
    }

    /// The maximum altitude entry changed: while the check button is on, the
    /// plan's maximum altitude follows the entry (none where it holds no
    /// number); while it is off, nothing changes.
    pub fn max_altitude_changed(&mut self, active: bool, text: &str)
        ensures
            active ==> final(self).plan_model() == (PlanModel {
                max_altitude: decimal_i32(text@),
                ..old(self).plan_model()
            }),
            !active ==> final(self).plan_model() == old(self).plan_model(),
    {
        if active {
            self.plan.set_max_altitude(parse_number(text));
        }
    }

    /// The path of a selected row.
    fn row_path(row: &SelectedRow, position: u32) -> (path: Vec<u32>)
        requires
            row.walks_to(position),
        ensures
            path@ == tree_path_of(row.depths@),
    {
        get_tree_path(&row.depths)
    }

    /// Whether the selection is one that the view's actions take: its row, if
    /// any, was found by walking the rows down to it, and is one of the plan's
    /// rows (see `selection_ok`).
    pub fn selection_valid(&self, sel: Option<&Selection>) -> (r: bool)
        ensures
            r == selection_ok(self.plan_model(), sel),
    {
        let s = match sel {
            Some(s) => s,
            None => return true,
        };
        let row = match &s.row {
            Some(row) => row,
            None => return true,
        };
        if s.position == u32::MAX || row.depths.len() != s.position as usize + 1 {
            return false;
        }
        if !depths_within(&row.depths) {
            return false;
        }
        let path = Self::row_path(row, s.position);
        match row.kind {
            RowKind::Sector => path.len() >= 1 && (path[0] as usize) < self.plan.sector_count(),
            RowKind::Waypoint => {
                if path.len() >= 2 && (path[0] as usize) < self.plan.sector_count() {
                    self.plan.get_sector(path[0] as usize).child_at(path[1] as usize).is_some()
                } else {
                    false
                }
            },
            RowKind::Other => true,
        }
    }

    /// Whether "move down" can work out the selected row's place: not where
    /// a waypoint row other than the start row is in a sector without
    /// waypoints (see `down_fits`).
    pub fn down_move_valid(&self, sel: Option<&Selection>) -> (r: bool)
        requires
            selection_ok(self.plan_model(), sel),
        ensures
            r == down_fits(self.plan_model(), selection_model(sel)),
    {
        if let Some(s) = sel {
            if let Some(row) = &s.row {
                if row.kind == RowKind::Waypoint {
                    let path = Self::row_path(row, s.position);
                    let sector = self.plan.get_sector(path[0] as usize);
                    let start_row = sector.get_start().is_some() && path[1] == 0;
                    return start_row || sector.get_waypoint_count() > 0;
                }
            }
        }
        true
    }

    /// The move buttons the view enables for a selection.
    pub fn move_buttons(&self, sel: Option<&Selection>) -> (r: MoveButtons)
        requires
            selection_ok(self.plan_model(), sel),
            down_fits(self.plan_model(), selection_model(sel)),
        ensures
            r.up == up_moves(self.plan_model(), selection_model(sel)),
            r.down == down_moves(self.plan_model(), selection_model(sel)),
    {
        let mut up = false;
        let mut down = false;
        if let Some(s) = sel {
            if let Some(row) = &s.row {
                let path = Self::row_path(row, s.position);
                match row.kind {
                    RowKind::Sector => {
                        let n = self.plan.sector_count();
                        let sector_index = path[0] as usize;
                        if sector_index > 0 && sector_index < n {
                            up = true;
                        }
                        if sector_index < n - 1 {
                            down = true;
                        }
                    },
                    RowKind::Waypoint => {
                        let sector = self.plan.get_sector(path[0] as usize);
                        let mut wp_index = path[1] as usize;
                        if sector.get_start().is_some() {
                            if wp_index == 0 {
                                return MoveButtons { up: false, down: false };
                            }
                            wp_index = wp_index - 1;
                        }
                        let count = sector.get_waypoint_count();
                        if wp_index > 0 && wp_index < count {
                            up = true;
                        }
                        if wp_index < count - 1 {
                            down = true;
                        }
                    },
                    RowKind::Other => {},
                }
            }
        }
        MoveButtons { up, down }
    }

    /// "Move up": the selected sector, or waypoint, changes place with the
    /// one before it.
    pub fn move_selected_up(&mut self, sel: Option<&Selection>) -> (r: ViewUpdate)
        requires
            selection_ok(old(self).plan_model(), sel),
        ensures
            (final(self).plan_model(), r) == moved_up(old(self).plan_model(), selection_model(sel)),
    {
        let mut new_selection = Some(0u32);
        if let Some(s) = sel {
            if let Some(row) = &s.row {
                let path = Self::row_path(row, s.position);
                match row.kind {
                    RowKind::Sector => {
                        let sector_index = path[0] as usize;
                        if sector_index > 0 {
                            self.plan.move_sector_up(sector_index);
                            new_selection = None;
                        }
                    },
                    RowKind::Waypoint => {
                        let si = path[0] as usize;
                        let sector = self.plan.get_sector(si);
                        let mut wp_index = path[1] as usize;
                        if sector.get_start().is_some() {
                            if wp_index == 0 {
                                return ViewUpdate::Unchanged;
                            }
                            wp_index = wp_index - 1;
                        }
                        if wp_index > 0 && wp_index < sector.get_waypoint_count() {
                            proof {
                                lemma_path_entries_bounded(row.depths@);
                            }
                            self.plan.move_waypoint_up(si, wp_index);
                            new_selection = Some(s.position - 1);
                        } else {
                            return ViewUpdate::Unchanged;
                        }
                    },
                    RowKind::Other => {},
                }
            }
        }
        ViewUpdate::Refresh(new_selection)
    }

    /// "Move down": the selected sector, or waypoint, changes place with the
    /// one after it.
    pub fn move_selected_down(&mut self, sel: Option<&Selection>) -> (r: ViewUpdate)
        requires
            selection_ok(old(self).plan_model(), sel),
            down_fits(old(self).plan_model(), selection_model(sel)),
        ensures
            (final(self).plan_model(), r) == moved_down(old(self).plan_model(), selection_model(sel)),
    {
        let mut new_selection = Some(0u32);
        if let Some(s) = sel {
            if let Some(row) = &s.row {
                let path = Self::row_path(row, s.position);
                match row.kind {
                    RowKind::Sector => {
                        let sector_index = path[0] as usize;
                        if sector_index < self.plan.sector_count() - 1 {
                            self.plan.move_sector_down(sector_index);
                            new_selection = None;
                        }
                    },
                    RowKind::Waypoint => {
                        let si = path[0] as usize;
                        let sector = self.plan.get_sector(si);
                        let mut wp_index = path[1] as usize;
                        if sector.get_start().is_some() {
                            if wp_index == 0 {
                                return ViewUpdate::Unchanged;
                            }
                            wp_index = wp_index - 1;
                        }
                        if wp_index < sector.get_waypoint_count() - 1 {
                            self.plan.move_waypoint_down(si, wp_index);
                            new_selection = Some(s.position + 1);
                        } else {
                            return ViewUpdate::Unchanged;
                        }
                    },
                    RowKind::Other => {},
                }
            }
        }
        ViewUpdate::Refresh(new_selection)
    }

    /// "Remove": removes the selected sector, or the selected row of a
    /// sector, as `removed` describes.
    pub fn remove_selected(&mut self, sel: Option<&Selection>) -> (r: ViewUpdate)
        requires
            selection_ok(old(self).plan_model(), sel),
        ensures
            (final(self).plan_model(), r) == removed(old(self).plan_model(), selection_model(sel)),
    {
        let mut new_selection = Some(0u32);
        if let Some(s) = sel {
            if let Some(row) = &s.row {
                let path = Self::row_path(row, s.position);
                match row.kind {
                    RowKind::Sector => {
                        let sector_index = path[0] as usize;
                        if sector_index < self.plan.sector_count() {
                            self.plan.remove_sector_at(sector_index);
                            new_selection = None;
                        }
                    },
                    RowKind::Waypoint => {
                        let si = path[0] as usize;
                        let ghost before = self.plan@;
                        let ghost c = path@[1] as int;
                        let mut wp_index = path[1] as usize;
                        if self.plan.get_sector(si).get_start().is_some() {
                            if wp_index == 0 {
                                self.plan.set_sector_start(si, None);
                                new_selection = None;
                            } else {
                                wp_index = wp_index - 1;
                            }
                        }
                        if wp_index < self.plan.get_sector(si).get_waypoint_count() {
                            self.plan.remove_waypoint(si, wp_index);
                            new_selection = Some(s.position);
                        }
                        if wp_index == self.plan.get_sector(si).get_waypoint_count() {
                            self.plan.set_sector_end(si, None);
                            new_selection = None;
                        }
                        proof {
                            let sector = before.sectors[si as int];
                            assert(self.plan@.sectors =~= before.sectors.update(
                                si as int,
                                removed_child(sector, c),
                            ));
                        }
                    },
                    RowKind::Other => {},
                }
            }
        }
        ViewUpdate::Refresh(new_selection)
    }

    /// Adds an airport using the selection, as `with_airport_at` describes.
    /// Returns whether the plan was updated (anything was selected).
    pub fn add_airport_to_plan(&mut self, airport: Waypoint, sel: Option<&Selection>) -> (r: bool)
        requires
            selection_ok(old(self).plan_model(), sel),
        ensures
            r == sel.is_some(),
            final(self).plan_model() == with_airport_at(
                old(self).plan_model(),
                airport,
                selection_model(sel),
            ),
    {
        if let Some(s) = sel {
            let mut added = false;
            if let Some(row) = &s.row {
                let mut sector: Option<usize> = None;
                match row.kind {
                    RowKind::Sector | RowKind::Waypoint => {
                        let path = Self::row_path(row, s.position);
                        sector = Some(path[0] as usize);
                    },
                    RowKind::Other => {},
                }
                if let Some(si) = sector {
                    if self.plan.get_sector(si).get_start().is_none() {
                        self.plan.set_sector_start(si, Some(airport));
                        added = true;
                    } else if self.plan.get_sector(si).get_end().is_none() {
                        self.plan.set_sector_end(si, Some(airport));
                        added = true;
                    }
                }
            }
            if !added {
                self.plan.add_airport(airport);
            }
            true
        } else {
            false
        }
    }

    /// Where a waypoint added with this selection goes (see
    /// `waypoint_placement`); the plan is not changed.
    pub fn waypoint_target(&self, sel: Option<&Selection>) -> (r: WaypointPlacement)
        requires
            selection_ok(self.plan_model(), sel),
        ensures
            r == waypoint_placement(self.plan_model(), selection_model(sel)),
    {
        match sel {
            Some(s) => {
                if let Some(row) = &s.row {
                    match row.kind {
                        RowKind::Sector => {
                            let path = Self::row_path(row, s.position);
                            WaypointPlacement::Optimise { sector: path[0] as usize }
                        },
                        RowKind::Waypoint => {
                            let path = Self::row_path(row, s.position);
                            let si = path[0] as usize;
                            let mut wp_pos = path[1] as usize;
                            if wp_pos > 0 && self.plan.get_sector(si).get_start().is_some() {
                                wp_pos = wp_pos - 1;
                            }
                            WaypointPlacement::Inserted { sector: si, index: wp_pos }
                        },
                        RowKind::Other => WaypointPlacement::NotPlaced,
                    }
                } else {
                    WaypointPlacement::NotPlaced
                }
            },
            None => {
                let n = self.plan.sector_count();
                if n > 0 {
                    WaypointPlacement::Optimise { sector: n - 1 }
                } else {
                    WaypointPlacement::NotPlaced
                }
            },
        }
    }

    /// Adds a waypoint using the selection. With a waypoint row selected it
    /// goes just before that row's waypoint (first for the start row, last
    /// for the end row); with a sector row selected, or nothing selected and
    /// the plan has sectors, it goes into that sector (the last one where
    /// nothing is selected) at `best_index`, the place the sector's
    /// optimised insertion chose for it. Otherwise the plan is left alone.
    /// Returns where the waypoint was to go.
    pub fn add_waypoint_to_plan(
        &mut self,
        waypoint: Waypoint,
        sel: Option<&Selection>,
        best_index: usize,
    ) -> (r: WaypointPlacement)
        requires
            selection_ok(old(self).plan_model(), sel),
            waypoint_placement(old(self).plan_model(), selection_model(sel)) matches WaypointPlacement::Optimise { sector }
                ==> best_index <= old(self).plan_model().sectors[sector as int].waypoints.len(),
        ensures
            r == waypoint_placement(old(self).plan_model(), selection_model(sel)),
            r matches WaypointPlacement::Inserted { sector, index } ==> final(self).plan_model()
                == old(self).plan_model().with_inserted_waypoint(sector as int, index as int, waypoint),
            r matches WaypointPlacement::Optimise { sector } ==> final(self).plan_model()
                == old(self).plan_model().with_inserted_waypoint(sector as int, best_index as int, waypoint),
            r is NotPlaced ==> final(self).plan_model() == old(self).plan_model(),
    {
        let target = self.waypoint_target(sel);
        match target {
            WaypointPlacement::Inserted { sector, index } => {
                self.plan.insert_waypoint(sector, index, waypoint);
            },
            WaypointPlacement::Optimise { sector } => {
                self.plan.insert_waypoint(sector, best_index, waypoint);
            },
            WaypointPlacement::NotPlaced => {},
        }
        target
    }

    /// "New sector": appends an empty sector which, where the last sector
    /// ends at an airport, starts at that airport.
    pub fn new_sector(&mut self)
        ensures
            ({
                let old_plan = old(self).plan_model();
                let n = old_plan.sectors.len();
                let prev = if n > 0 && (old_plan.sectors[n - 1].end matches Some(w) && w.is_airport()) {
                    old_plan.sectors[n - 1].end
                } else {
                    None
                };
                final(self).plan_model() == old_plan.edited(
                    old_plan.sectors.push(
                        SectorModel { start: prev, end: None, waypoints: Seq::empty() },
                    ),
                )
            }),
    {
        let mut prev: Option<Waypoint> = None;
        let n = self.plan.sector_count();
        if n > 0 {
            if let Some(w) = self.plan.get_sector(n - 1).get_end() {
                if w.kind == WaypointKind::Airport {
                    prev = Some(w);
                }
            }
        }
        let ghost old_plan = self.plan@;
        self.plan.add_sector(Sector::new());
        if let Some(airport) = prev {
            self.plan.add_airport(airport);
        }
        proof {
            assert(self.plan@.sectors =~= old_plan.sectors.push(
                SectorModel { start: prev, end: None, waypoints: Seq::empty() },
            ));
        }
    }

    /// "Make plan": the waypoints of each sector `i` become `routes[i]`, the
    /// route the planner found for it. Returns where the map is centred
    /// afterwards: the start of the last sector, where there is one.
    pub fn make_plan(&mut self, routes: Vec<Vec<Waypoint>>) -> (centre: Option<Waypoint>)
        requires
            routes@.len() == old(self).plan_model().sectors.len(),
        ensures
            final(self).plan_model() == old(self).plan_model().with_routes(
                routes@.map_values(|r: Vec<Waypoint>| r@),
            ),
            centre == if routes@.len() > 0 {
                old(self).plan_model().sectors.last().start
            } else {
                None
            },
    {
        let ghost old_plan = self.plan@;
        let ghost planned = routes@.map_values(|r: Vec<Waypoint>| r@);
        let n = routes.len();
        let mut routes = routes;
        let mut i = n;
        while i > 0
            invariant
                n == old_plan.sectors.len(),
                i <= n,
                routes@.len() == i,
                forall|j: int| 0 <= j < i ==> #[trigger] routes@[j]@ == planned[j],
                planned.len() == n,
                self.plan@.name == old_plan.name,
                self.plan@.max_altitude == old_plan.max_altitude,
                self.plan@.aircraft == old_plan.aircraft,
                self.plan@.dirty == (old_plan.dirty || i < n),
                self.plan@.sectors.len() == n,
                forall|j: int| 0 <= j < i ==> #[trigger] self.plan@.sectors[j] == old_plan.sectors[j],
                forall|j: int|
                    i <= j < n ==> #[trigger] self.plan@.sectors[j] == old_plan.sectors[j].with_waypoints(
                        planned[j],
                    ),
            decreases i,
        {
            let route = routes.pop().unwrap();
            i = i - 1;
            self.plan.set_sector_waypoints(i, route);
        }
        if n > 0 {
            assert(self.plan@.sectors =~= old_plan.with_routes(planned).sectors);
            self.plan.get_sector(n - 1).get_start()
        } else {
            assert(self.plan@.sectors =~= old_plan.sectors);
            None
        }
    }

    /// The waypoint the selection points at (see `selected_waypoint`).
    pub fn get_selected_waypoint(&self, sel: Option<&Selection>) -> (r: Option<Waypoint>)
        requires
            selection_ok(self.plan_model(), sel),
        ensures
            r == selected_waypoint(self.plan_model(), selection_model(sel)),
    {
        match sel {
            Some(s) => match &s.row {
                Some(row) => match row.kind {
                    RowKind::Sector => {
                        let path = Self::row_path(row, s.position);
                        let sector = self.plan.get_sector(path[0] as usize);
                        if let Some(w) = sector.get_start() {
                            Some(w)
                        } else {
                            sector.get_end()
                        }
                    },
                    RowKind::Waypoint => {
                        let path = Self::row_path(row, s.position);
                        self.plan.get_sector(path[0] as usize).child_at(path[1] as usize)
                    },
                    RowKind::Other => None,
                },
                None => None,
            },
            None => None,
        }
    }

    /// The airport the selection points at (see `selected_airport`).
    pub fn get_selected_airport(&self, sel: Option<&Selection>) -> (r: Option<Waypoint>)
        requires
            selection_ok(self.plan_model(), sel),
        ensures
            r == selected_airport(self.plan_model(), selection_model(sel)),
    {
        match self.get_selected_waypoint(sel) {
            Some(w) => if w.kind == WaypointKind::Airport {
                Some(w)
            } else {
                None
            },
            None => None,
        }
    }
}


/// A selection of one row at `position`.
pub open spec fn row_selection(position: u32, kind: RowKind, path: Seq<u32>) -> Option<
    SelectionModel,
> {
    Some(SelectionModel { position, row: Some(RowModel { kind, path }) })
}

/// The move buttons are enabled exactly for the moves that do something:
/// where "move up" (or "move down") is not enabled, it leaves the plan as it
/// is; where it is enabled, it exchanges the selected sector or waypoint with
/// its neighbour.
pub proof fn law_move_buttons_match_moves(plan: PlanModel, sel: Option<SelectionModel>)
    requires
        selection_fits(plan, sel),
    ensures
        !up_moves(plan, sel) ==> moved_up(plan, sel).0 == plan,
        !down_moves(plan, sel) ==> moved_down(plan, sel).0 == plan,
        up_moves(plan, sel) ==> ({
            let r = sel.unwrap().row.unwrap();
            let si = r.path[0] as int;
            let sector = plan.sectors[si];
            moved_up(plan, sel).0 == if r.kind == RowKind::Sector {
                plan.edited(swap_adjacent(plan.sectors, si - 1))
            } else {
                plan.with_sector(
                    si,
                    sector.with_waypoints(
                        swap_adjacent(sector.waypoints, waypoint_index(sector, r.path[1] as int) - 1),
                    ),
                )
            }
        }),
        down_moves(plan, sel) ==> ({
            let r = sel.unwrap().row.unwrap();
            let si = r.path[0] as int;
            let sector = plan.sectors[si];
            moved_down(plan, sel).0 == if r.kind == RowKind::Sector {
                plan.edited(swap_adjacent(plan.sectors, si))
            } else {
                plan.with_sector(
                    si,
                    sector.with_waypoints(
                        swap_adjacent(sector.waypoints, waypoint_index(sector, r.path[1] as int)),
                    ),
                )
            }
        }),
{
}

/// "Move down" undoes "move up": after moving a sector or waypoint up, moving
/// it down from its new row (the row above for a waypoint, the sector before
/// for a sector) gives back the plan's sectors.
pub proof fn law_move_up_then_down(plan: PlanModel, position: u32, kind: RowKind, path: Seq<u32>)
    requires
        selection_fits(plan, row_selection(position, kind, path)),
        up_moves(plan, row_selection(position, kind, path)),
    ensures
        ({
            let (moved, update) = moved_up(plan, row_selection(position, kind, path));
            let back = if kind == RowKind::Sector {
                row_selection(position, kind, seq![(path[0] - 1) as u32])
            } else {
                row_selection((position - 1) as u32, kind, seq![path[0], (path[1] - 1) as u32])
            };
            &&& kind == RowKind::Waypoint ==> update == ViewUpdate::Refresh(
                Some((position - 1) as u32),
            )
            &&& kind == RowKind::Sector ==> update == ViewUpdate::Refresh(None)
            &&& selection_fits(moved, back)
            &&& down_moves(moved, back)
            &&& moved_down(moved, back).0.sectors == plan.sectors
        }),
{
    let sel = row_selection(position, kind, path);
    let (moved, update) = moved_up(plan, sel);
    if kind == RowKind::Sector {
        let i = path[0] as int;
        assert(swap_adjacent(swap_adjacent(plan.sectors, i - 1), i - 1) =~= plan.sectors);
    } else {
        let si = path[0] as int;
        let sector = plan.sectors[si];
        let w = waypoint_index(sector, path[1] as int);
        let sector2 = sector.with_waypoints(swap_adjacent(sector.waypoints, w - 1));
        assert(moved.sectors[si] == sector2);
        assert(sector2.children().len() == sector.children().len());
        assert(swap_adjacent(swap_adjacent(sector.waypoints, w - 1), w - 1) =~= sector.waypoints);
        assert(sector2.with_waypoints(swap_adjacent(sector2.waypoints, w - 1)) == sector);
        assert(moved.sectors.update(si, sector) =~= plan.sectors);
    }
}

/// "Remove" on the row of any sector of the plan, the last one included,
/// takes that sector out: the sectors after it move up one place, the plan is
/// marked as changed and nothing is selected afterwards.
pub proof fn law_remove_sector_row(plan: PlanModel, position: u32, path: Seq<u32>)
    requires
        path.len() >= 1,
        path[0] < plan.sectors.len(),
    ensures
        ({
            let i = path[0] as int;
            let (after, update) = removed(plan, row_selection(position, RowKind::Sector, path));
            &&& after.sectors.len() == plan.sectors.len() - 1
            &&& forall|j: int| 0 <= j < i ==> #[trigger] after.sectors[j] == plan.sectors[j]
            &&& forall|j: int|
                i <= j < after.sectors.len() ==> #[trigger] after.sectors[j] == plan.sectors[j + 1]
            &&& after.dirty
            &&& after.name == plan.name
            &&& after.max_altitude == plan.max_altitude
            &&& after.aircraft == plan.aircraft
            &&& update == ViewUpdate::Refresh(None)
        }),
{
}

/// The row of waypoint `w` of sector `si`: it comes after the start row
/// where the sector has a start.
pub open spec fn waypoint_row(sector: SectorModel, w: int) -> int {
    if sector.start.is_some() {
        w + 1
    } else {
        w
    }
}

/// Whether a plan differs from another only in the waypoints of sector `si`.
pub open spec fn only_waypoints_of(after: PlanModel, plan: PlanModel, si: int) -> bool {
    &&& after.sectors.len() == plan.sectors.len()
    &&& forall|j: int| 0 <= j < plan.sectors.len() && j != si ==> #[trigger] after.sectors[j] == plan.sectors[j]
    &&& after.sectors[si].start == plan.sectors[si].start
    &&& after.sectors[si].end == plan.sectors[si].end
    &&& after.sectors[si].waypoints.len() == plan.sectors[si].waypoints.len()
    &&& after.name == plan.name
    &&& after.max_altitude == plan.max_altitude
    &&& after.aircraft == plan.aircraft
}

/// Whether a move changes anything depends only on the waypoint's place
/// among the sector's waypoints, with or without a start airport: the row of
/// waypoint `w` moves up where `w > 0`, exchanging waypoints `w - 1` and `w`
/// and selecting the row above, and moves down where `w + 1` is a waypoint,
/// exchanging waypoints `w` and `w + 1` and selecting the row below.
pub proof fn law_move_waypoint_row(plan: PlanModel, position: u32, si: int, w: int)
    requires
        0 <= si < plan.sectors.len(),
        0 <= w < plan.sectors[si].waypoints.len(),
        si <= u32::MAX,
        w + 1 <= u32::MAX,
    ensures
        ({
            let sector = plan.sectors[si];
            let n = sector.waypoints.len();
            let c = waypoint_row(sector, w);
            let sel = row_selection(position, RowKind::Waypoint, seq![si as u32, c as u32]);
            let (up, up_update) = moved_up(plan, sel);
            let (down, down_update) = moved_down(plan, sel);
            &&& sector.children()[c] == sector.waypoints[w]
            &&& up_moves(plan, sel) == (w > 0)
            &&& down_moves(plan, sel) == (w + 1 < n)
            &&& w > 0 ==> {
                &&& only_waypoints_of(up, plan, si)
                &&& up.dirty
                &&& up.sectors[si].waypoints[w - 1] == sector.waypoints[w]
                &&& up.sectors[si].waypoints[w] == sector.waypoints[w - 1]
                &&& forall|k: int|
                    0 <= k < n && k != w && k != w - 1 ==> #[trigger] up.sectors[si].waypoints[k]
                        == sector.waypoints[k]
                &&& position > 0 ==> up_update == ViewUpdate::Refresh(Some((position - 1) as u32))
            }
            &&& w == 0 ==> up == plan && up_update == ViewUpdate::Unchanged
            &&& w + 1 < n ==> {
                &&& only_waypoints_of(down, plan, si)
                &&& down.dirty
                &&& down.sectors[si].waypoints[w + 1] == sector.waypoints[w]
                &&& down.sectors[si].waypoints[w] == sector.waypoints[w + 1]
                &&& forall|k: int|
                    0 <= k < n && k != w && k != w + 1 ==> #[trigger] down.sectors[si].waypoints[k]
                        == sector.waypoints[k]
                &&& position < u32::MAX ==> down_update == ViewUpdate::Refresh(
                    Some((position + 1) as u32),
                )
            }
            &&& w + 1 == n ==> down == plan && down_update == ViewUpdate::Unchanged
        }),
{
    let sector = plan.sectors[si];
    let c = waypoint_row(sector, w);
    assert(sector.children()[c] == sector.waypoints[w]);
}

/// A waypoint added with a waypoint row of sector `si` selected goes into
/// that sector's rows just before the selected row, so that the selected row
/// and the rows below it move down one; with the start row selected it goes
/// just after the start, first among the waypoints. With the end row selected
/// it becomes the last waypoint. Nothing else changes.
pub proof fn law_add_waypoint_before_selected_row(
    plan: PlanModel,
    position: u32,
    si: int,
    c: int,
    waypoint: Waypoint,
)
    requires
        0 <= si < plan.sectors.len(),
        0 <= c < plan.sectors[si].children().len(),
        si <= u32::MAX,
        c <= u32::MAX,
    ensures
        ({
            let sector = plan.sectors[si];
            let sel = row_selection(position, RowKind::Waypoint, seq![si as u32, c as u32]);
            match waypoint_placement(plan, sel) {
                WaypointPlacement::Inserted { sector: t, index } => {
                    let after = plan.with_inserted_waypoint(t as int, index as int, waypoint);
                    &&& t == si
                    &&& index <= sector.waypoints.len()
                    &&& after.sectors.len() == plan.sectors.len()
                    &&& forall|j: int|
                        0 <= j < plan.sectors.len() && j != si ==> #[trigger] after.sectors[j]
                            == plan.sectors[j]
                    &&& after.sectors[si].start == sector.start
                    &&& after.sectors[si].end == sector.end
                    &&& after.sectors[si].children() == if is_start_row(sector, c) {
                        sector.children().insert(1, waypoint)
                    } else {
                        sector.children().insert(c, waypoint)
                    }
                    &&& (sector.end.is_some() && c == sector.children().len() - 1 && !is_start_row(sector, c))
                        ==> index == sector.waypoints.len()
                },
                _ => false,
            }
        }),
{
    let sector = plan.sectors[si];
    let n = sector.waypoints.len();
    let index = if c > 0 && sector.start.is_some() {
        c - 1
    } else {
        c
    };
    assert(index <= n);
    let moved = sector.with_waypoints(sector.waypoints.insert(index, waypoint));
    let after = plan.with_inserted_waypoint(si, index, waypoint);
    assert(after.sectors[si] == moved);
    if is_start_row(sector, c) {
        assert(moved.children() =~= sector.children().insert(1, waypoint));
    } else {
        assert(moved.children() =~= sector.children().insert(c, waypoint));
    }
}

/// An airport added with any row of sector `s` selected (the sector's own
/// row, or its start, a waypoint or its end) fills that sector: its start
/// where it has none, else its end where it has none. Only where both are set
/// does it go where the plan puts an airport added without a selection.
pub proof fn law_add_airport_to_selected_sector(
    plan: PlanModel,
    airport: Waypoint,
    position: u32,
    kind: RowKind,
    path: Seq<u32>,
)
    requires
        kind == RowKind::Sector || kind == RowKind::Waypoint,
        path.len() >= 1,
        path[0] < plan.sectors.len(),
    ensures
        ({
            let s = path[0] as int;
            let sector = plan.sectors[s];
            let after = with_airport_at(plan, airport, row_selection(position, kind, path));
            &&& after == with_airport_at(
                plan,
                airport,
                row_selection(position, RowKind::Sector, seq![path[0]]),
            )
            &&& sector.start.is_none() ==> {
                &&& after.sectors == plan.sectors.update(
                    s,
                    SectorModel { start: Some(airport), end: sector.end, waypoints: sector.waypoints },
                )
                &&& after.dirty
            }
            &&& sector.start.is_some() && sector.end.is_none() ==> {
                &&& after.sectors == plan.sectors.update(
                    s,
                    SectorModel { start: sector.start, end: Some(airport), waypoints: sector.waypoints },
                )
                &&& after.dirty
            }
            &&& sector.start.is_some() && sector.end.is_some() ==> after == plan.with_airport(airport)
            &&& after.name == plan.name
            &&& after.max_altitude == plan.max_altitude
            &&& after.aircraft == plan.aircraft
        }),
{
}

/// "Remove" on the row of waypoint `w` of sector `si` takes that waypoint
/// out, the later ones moving up one place, and keeps the start. Where it was
/// the last waypoint the end goes too and nothing is selected afterwards;
/// otherwise the same position stays selected.
pub proof fn law_remove_waypoint_row(plan: PlanModel, position: u32, si: int, w: int)
    requires
        0 <= si < plan.sectors.len(),
        0 <= w < plan.sectors[si].waypoints.len(),
        si <= u32::MAX,
        w + 1 <= u32::MAX,
    ensures
        ({
            let sector = plan.sectors[si];
            let n = sector.waypoints.len();
            let sel = row_selection(
                position,
                RowKind::Waypoint,
                seq![si as u32, waypoint_row(sector, w) as u32],
            );
            let (after, update) = removed(plan, sel);
            let left = after.sectors[si];
            &&& after.sectors.len() == plan.sectors.len()
            &&& forall|j: int| 0 <= j < plan.sectors.len() && j != si ==> #[trigger] after.sectors[j] == plan.sectors[j]
            &&& after.dirty
            &&& left.start == sector.start
            &&& left.waypoints.len() == n - 1
            &&& forall|k: int| 0 <= k < w ==> #[trigger] left.waypoints[k] == sector.waypoints[k]
            &&& forall|k: int| w <= k < n - 1 ==> #[trigger] left.waypoints[k] == sector.waypoints[k + 1]
            &&& left.end == if w == n - 1 {
                None
            } else {
                sector.end
            }
            &&& update == ViewUpdate::Refresh(
                if w == n - 1 {
                    None
                } else {
                    Some(position)
                },
            )
        }),
{
}

/// "Remove" on the start row of sector `si` clears the start and takes out
/// the first waypoint too, where there is one; where no waypoint is left the
/// end goes as well. The same position stays selected only where waypoints
/// are left.
pub proof fn law_remove_start_row(plan: PlanModel, position: u32, si: int)
    requires
        0 <= si < plan.sectors.len(),
        plan.sectors[si].start.is_some(),
        si <= u32::MAX,
    ensures
        ({
            let sector = plan.sectors[si];
            let n = sector.waypoints.len();
            let (after, update) = removed(
                plan,
                row_selection(position, RowKind::Waypoint, seq![si as u32, 0u32]),
            );
            let left = after.sectors[si];
            &&& after.sectors.len() == plan.sectors.len()
            &&& forall|j: int| 0 <= j < plan.sectors.len() && j != si ==> #[trigger] after.sectors[j] == plan.sectors[j]
            &&& left.start.is_none()
            &&& n > 0 ==> left.waypoints =~= sector.waypoints.subrange(1, n as int)
            &&& n == 0 ==> left.waypoints.len() == 0
            &&& left.end == if n <= 1 {
                None
            } else {
                sector.end
            }
            &&& update == ViewUpdate::Refresh(
                if n >= 2 {
                    Some(position)
                } else {
                    None
                },
            )
        }),
{
}

/// "Remove" on the end row of sector `si` clears the end and keeps the start
/// and the waypoints; nothing is selected afterwards.
pub proof fn law_remove_end_row(plan: PlanModel, position: u32, si: int)
    requires
        0 <= si < plan.sectors.len(),
        plan.sectors[si].end.is_some(),
        si <= u32::MAX,
        plan.sectors[si].children().len() <= u32::MAX,
    ensures
        ({
            let sector = plan.sectors[si];
            let c = sector.children().len() - 1;
            let (after, update) = removed(
                plan,
                row_selection(position, RowKind::Waypoint, seq![si as u32, c as u32]),
            );
            &&& sector.children()[c] == sector.end.unwrap()
            &&& after.sectors == plan.sectors.update(
                si,
                SectorModel { start: sector.start, end: None, waypoints: sector.waypoints },
            )
            &&& after.dirty
            &&& update == ViewUpdate::Refresh(None)
        }),
{
}

/// Moving the row of sector `i` up exchanges it with sector `i - 1` (the
/// first sector stays where it is); moving it down exchanges it with sector
/// `i + 1` (the last sector stays where it is).
pub proof fn law_move_sector_row(plan: PlanModel, position: u32, path: Seq<u32>)
    requires
        path.len() >= 1,
        path[0] < plan.sectors.len(),
    ensures
        ({
            let i = path[0] as int;
            let n = plan.sectors.len();
            let sel = row_selection(position, RowKind::Sector, path);
            let (up, up_update) = moved_up(plan, sel);
            let (down, down_update) = moved_down(plan, sel);
            &&& up_moves(plan, sel) == (i > 0)
            &&& down_moves(plan, sel) == (i + 1 < n)
            &&& i > 0 ==> {
                &&& up.sectors.len() == n
                &&& up.sectors[i - 1] == plan.sectors[i]
                &&& up.sectors[i] == plan.sectors[i - 1]
                &&& forall|j: int| 0 <= j < n && j != i && j != i - 1 ==> #[trigger] up.sectors[j] == plan.sectors[j]
                &&& up.dirty
                &&& up_update == ViewUpdate::Refresh(None)
            }
            &&& i == 0 ==> up == plan
            &&& i + 1 < n ==> {
                &&& down.sectors.len() == n
                &&& down.sectors[i + 1] == plan.sectors[i]
                &&& down.sectors[i] == plan.sectors[i + 1]
                &&& forall|j: int| 0 <= j < n && j != i && j != i + 1 ==> #[trigger] down.sectors[j] == plan.sectors[j]
                &&& down.dirty
                &&& down_update == ViewUpdate::Refresh(None)
            }
            &&& i + 1 == n ==> down == plan
        }),
{
}

/// The waypoint of a selected row is what that row shows: row `c` of sector
/// `si` shows its `c`-th row (start, waypoints, end), and a sector row its
/// start, or its end where it has no start. The selected airport is that
/// waypoint where it is an airport, and none otherwise.
pub proof fn law_selected_waypoint_is_the_row(plan: PlanModel, position: u32, si: int, c: int)
    requires
        0 <= si < plan.sectors.len(),
        0 <= c < plan.sectors[si].children().len(),
        si <= u32::MAX,
        c <= u32::MAX,
    ensures
        ({
            let sector = plan.sectors[si];
            let row = row_selection(position, RowKind::Waypoint, seq![si as u32, c as u32]);
            let sector_row = row_selection(position, RowKind::Sector, seq![si as u32]);
            &&& selected_waypoint(plan, row) == Some(sector.children()[c])
            &&& selected_airport(plan, row) == if sector.children()[c].kind == WaypointKind::Airport {
                Some(sector.children()[c])
            } else {
                None
            }
            &&& selected_waypoint(plan, sector_row) == if sector.start.is_some() {
                sector.start
            } else {
                sector.end
            }
        }),
{
}

} // verus!
