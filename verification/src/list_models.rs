//! The list models that show a plan: one item per sector of the plan, and one
//! item per row of a sector (its start, its waypoints and its end).
use vstd::prelude::*;
use crate::plan::{Plan, PlanModel, Sector, SectorModel, Waypoint};

verus! {

/// The list of a plan's sectors. It reads the plan it is given, so it
/// shows the plan as it stands.
pub struct PlanTreeModel<'a> {
    plan: Option<&'a Plan>,
}

impl<'a> PlanTreeModel<'a> {
    /// The plan shown, if one is set.
    pub closed spec fn plan_model(&self) -> Option<PlanModel> {
        match self.plan {
            Some(p) => Some(p@),
            None => None,
        }
    }

    /// A model without a plan.
    pub fn new() -> (m: PlanTreeModel<'a>)
        ensures
            m.plan_model().is_none(),
    {
        PlanTreeModel { plan: None }
    }

    pub fn set_plan(&mut self, plan: &'a Plan)
        ensures
            final(self).plan_model() == Some(plan@),
    {
        self.plan = Some(plan);
    }

    /// The plan shown; there must be one.
    pub fn plan(&self) -> (r: &'a Plan)
        requires
            self.plan_model().is_some(),
        ensures
            r@ == self.plan_model().unwrap(),
    {
        self.plan.unwrap()
    }

    /// The number of items: one per sector (as a `u32`, as the list reports it).
    pub fn n_items(&self) -> (r: u32)
        requires
            self.plan_model().is_some(),
        ensures
            r == self.plan_model().unwrap().sectors.len() as u32,
    {
        self.plan().sector_count() as u32
    }

    /// The sector at `position`, if the plan has one there.
    pub fn item(&self, position: u32) -> (r: Option<&'a Sector>)
        requires
            self.plan_model().is_some(),
        ensures
            position < self.plan_model().unwrap().sectors.len() ==> (r matches Some(s) && s@
                == self.plan_model().unwrap().sectors[position as int]),
            position >= self.plan_model().unwrap().sectors.len() ==> r.is_none(),
    {
        let plan = self.plan();
        let i = position as usize;
        if i < plan.sector_count() {
            Some(plan.get_sector(i))
        } else {
            None
        }
    }
}

/// The list model of a plan's sectors, set to the given plan.
pub fn create_plan_model<'a>(plan: &'a Plan) -> (m: PlanTreeModel<'a>)
    ensures
        m.plan_model() == Some(plan@),
{
    let mut m = PlanTreeModel::new();
    m.set_plan(plan);
    m
}

/// The rows of a sector's list: its start, its waypoints, then its end; the
/// start and end rows are there, empty, where the sector has none.
pub open spec fn sector_list_rows(s: SectorModel) -> Seq<Option<Waypoint>> {
    seq![s.start] + s.waypoints.map_values(|w: Waypoint| Some(w)) + seq![s.end]
}

/// The list of the rows of one sector of a plan. It reads the plan it is
/// given, so it shows the sector as it stands.
pub struct SectorListModel<'a> {
    plan: Option<&'a Plan>,
    sector_index: Option<usize>,
}

impl<'a> SectorListModel<'a> {
    pub closed spec fn plan_model(&self) -> Option<PlanModel> {
        match self.plan {
            Some(p) => Some(p@),
            None => None,
        }
    }

    pub closed spec fn sector_index_model(&self) -> Option<usize> {
        self.sector_index
    }

    /// The model is set to a sector of its plan, with a row count that fits
    /// a `u32`.
    pub open spec fn shows_sector(&self) -> bool {
        &&& self.plan_model() matches Some(p)
        &&& self.sector_index_model() matches Some(i)
        &&& i < p.sectors.len()
        &&& p.sectors[i as int].waypoints.len() + 2 <= u32::MAX
    }

    /// The sector shown.
    pub open spec fn sector_model(&self) -> SectorModel {
        self.plan_model().unwrap().sectors[self.sector_index_model().unwrap() as int]
    }

    /// A model without a plan or sector.
    pub fn new() -> (m: SectorListModel<'a>)
        ensures
            m.plan_model().is_none(),
            m.sector_index_model().is_none(),
    {
        SectorListModel { plan: None, sector_index: None }
    }

    pub fn set_plan(&mut self, plan: &'a Plan)
        ensures
            final(self).plan_model() == Some(plan@),
            final(self).sector_index_model() == old(self).sector_index_model(),
    {
        self.plan = Some(plan);
    }

    pub fn set_sector_index(&mut self, sector_index: usize)
        ensures
            final(self).sector_index_model() == Some(sector_index),
            final(self).plan_model() == old(self).plan_model(),
    {
        self.sector_index = Some(sector_index);
    }

    /// The plan shown; there must be one.
    pub fn plan(&self) -> (r: &'a Plan)
        requires
            self.plan_model().is_some(),
        ensures
            r@ == self.plan_model().unwrap(),
    {
        self.plan.unwrap()
    }

    /// The index of the sector shown; there must be one.
    pub fn sector_index(&self) -> (r: usize)
        requires
            self.sector_index_model().is_some(),
        ensures
            r == self.sector_index_model().unwrap(),
    {
        self.sector_index.unwrap()
    }

    /// The number of rows: the sector's waypoints, plus the start and end
    /// rows.
    pub fn n_items(&self) -> (r: u32)
        requires
            self.shows_sector(),
        ensures
            r == sector_list_rows(self.sector_model()).len(),
    {
        let sector = self.plan().get_sector(self.sector_index());
        sector.get_waypoint_count() as u32 + 2
    }

    /// The row at `position`: the start, a waypoint, or the end (each `None`
    /// where the sector has none there).
    pub fn item(&self, position: u32) -> (r: Option<Waypoint>)
        requires
            self.shows_sector(),
            position < sector_list_rows(self.sector_model()).len(),
        ensures
            r == sector_list_rows(self.sector_model())[position as int],
    {
        let sector = self.plan().get_sector(self.sector_index());
        let count = sector.get_waypoint_count() as u32;
        let ghost rows = sector_list_rows(self.sector_model());
        if position == 0 {
            sector.get_start()
        } else if position == count + 1 {
            assert(rows[position as int] == sector@.end);
            sector.get_end()
        } else {
            let w = sector.get_waypoint((position - 1) as usize);
            assert(rows[position as int] == Some(w));
            Some(w)
        }
    }
}

} // verus!
