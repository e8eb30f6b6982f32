use kelpie_planner::aircraft::Aircraft;
use kelpie_planner::plan::{Plan, Sector, Waypoint, WaypointKind};
use kelpie_planner::plan_view::{
    MoveButtons, PlanView, RowKind, SelectedRow, Selection, ViewUpdate, WaypointPlacement,
};
use kelpie_planner::tree::{expand_tree_step, get_tree_path, ExpandStep};

fn airport(id: u64) -> Waypoint {
    Waypoint { id, kind: WaypointKind::Airport }
}

fn navaid(id: u64) -> Waypoint {
    Waypoint { id, kind: WaypointKind::Navaid }
}

fn fix(id: u64) -> Waypoint {
    Waypoint { id, kind: WaypointKind::Fix }
}

/// A sector from `start` to `end` through `waypoints`.
fn sector(start: Option<Waypoint>, waypoints: &[Waypoint], end: Option<Waypoint>) -> Sector {
    let mut s = Sector::new();
    s.set_start(start);
    for w in waypoints {
        s.add_waypoint(*w);
    }
    s.set_end(end);
    s
}

/// Two sectors: 1 -> (10, 11, 12) -> 2, then 2 -> (20) -> 3.
fn two_sector_plan() -> Plan {
    let mut plan = Plan::new();
    plan.add_sector(sector(Some(airport(1)), &[navaid(10), navaid(11), fix(12)], Some(airport(2))));
    plan.add_sector(sector(Some(airport(2)), &[navaid(20)], Some(airport(3))));
    plan
}

/// The depths of the tree rows of `two_sector_plan`, expanded to its sectors:
/// sector 0 at row 0, its five rows at 1..=5, sector 1 at row 6, its three
/// rows at 7..=9.
fn depths_to(row: usize) -> Vec<Option<u32>> {
    let all = [0, 1, 1, 1, 1, 1, 0, 1, 1, 1];
    all[..=row].iter().map(|d| Some(*d)).collect()
}

fn select(row: usize, kind: RowKind) -> Selection {
    Selection {
        position: row as u32,
        row: Some(SelectedRow { kind, depths: depths_to(row) }),
    }
}

fn waypoint_ids(plan: &Plan, s: usize) -> Vec<u64> {
    let sector = plan.get_sector(s);
    (0..sector.get_waypoint_count()).map(|i| sector.get_waypoint(i).id).collect()
}

fn view_of(plan: Plan) -> PlanView {
    let mut view = PlanView::new();
    view.set_plan(plan);
    view
}

#[test]
fn tree_path_of_rows() {
    assert_eq!(get_tree_path(&depths_to(0)), vec![0]);
    assert_eq!(get_tree_path(&depths_to(3)), vec![0, 2]);
    assert_eq!(get_tree_path(&depths_to(6)), vec![1]);
    assert_eq!(get_tree_path(&depths_to(9)), vec![1, 2]);
    assert_eq!(get_tree_path(&vec![]), Vec::<u32>::new());
}

#[test]
fn tree_path_skips_missing_rows_and_deeper_levels() {
    let depths = vec![Some(0), Some(1), Some(2), Some(2), None, Some(1)];
    assert_eq!(get_tree_path(&depths), vec![0, 1]);
    let depths = vec![Some(0), Some(1), Some(2), Some(2)];
    assert_eq!(get_tree_path(&depths), vec![0, 0, 1]);
    // A row two levels below the last one opens a single new level.
    let depths = vec![Some(0), Some(2)];
    assert_eq!(get_tree_path(&depths), vec![0, 0]);
}

#[test]
fn expand_tree_steps() {
    assert_eq!(expand_tree_step(Some(0), 0), ExpandStep::Expand);
    assert_eq!(expand_tree_step(Some(1), 0), ExpandStep::Pass);
    assert_eq!(expand_tree_step(Some(1), 1), ExpandStep::Expand);
    assert_eq!(expand_tree_step(None, 3), ExpandStep::Stop);
}

#[test]
fn sector_rows_and_children() {
    let s = sector(Some(airport(1)), &[navaid(10)], Some(airport(2)));
    assert_eq!(s.child_at(0), Some(airport(1)));
    assert_eq!(s.child_at(1), Some(navaid(10)));
    assert_eq!(s.child_at(2), Some(airport(2)));
    assert_eq!(s.child_at(3), None);
    let s = sector(None, &[navaid(10)], None);
    assert_eq!(s.child_at(0), Some(navaid(10)));
    assert_eq!(s.child_at(1), None);
}

#[test]
fn sector_waypoint_edits() {
    let mut s = sector(None, &[navaid(1), navaid(2), navaid(3)], None);
    s.move_waypoint_up(2);
    assert_eq!(s.get_waypoint(1), navaid(3));
    s.move_waypoint_down(1);
    assert_eq!(s.get_waypoint(1), navaid(2));
    s.insert_waypoint(0, fix(9));
    assert_eq!(s.get_waypoint(0), fix(9));
    s.remove_waypoint(0);
    assert_eq!(s.get_waypoint_count(), 3);
    s.add_all_waypoint(vec![fix(4), fix(5)]);
    assert_eq!(s.get_waypoint_count(), 5);
    assert_eq!(s.get_waypoint(4), fix(5));
    s.remove_all_waypoints();
    assert_eq!(s.get_waypoint_count(), 0);
}

#[test]
fn plan_add_airport_fills_the_last_sector() {
    let mut plan = Plan::new();
    plan.add_airport(airport(1));
    assert_eq!(plan.sector_count(), 1);
    assert_eq!(plan.get_sector(0).get_start(), Some(airport(1)));
    plan.add_airport(airport(2));
    assert_eq!(plan.sector_count(), 1);
    assert_eq!(plan.get_sector(0).get_end(), Some(airport(2)));
    plan.add_airport(airport(3));
    assert_eq!(plan.sector_count(), 2);
    assert_eq!(plan.get_sector(1).get_start(), Some(airport(3)));
    assert_eq!(plan.get_sector(1).get_end(), None);
    assert!(plan.is_dirty());
}

#[test]
fn plan_sector_moves_undo_each_other() {
    let mut plan = two_sector_plan();
    plan.add_sector(sector(Some(airport(7)), &[], None));
    plan.move_sector_up(2);
    assert_eq!(plan.get_sector(1).get_start(), Some(airport(7)));
    assert_eq!(plan.get_sector(2).get_start(), Some(airport(2)));
    plan.move_sector_down(1);
    assert_eq!(plan.get_sector(1).get_start(), Some(airport(2)));
    assert_eq!(plan.get_sector(2).get_start(), Some(airport(7)));
    plan.remove_sector_at(0);
    assert_eq!(plan.sector_count(), 2);
    assert_eq!(plan.get_sector(0).get_start(), Some(airport(2)));
}

#[test]
fn plan_name_and_flags() {
    let mut plan = Plan::new();
    assert_eq!(plan.get_name(), "");
    assert!(!plan.is_dirty());
    plan.set_name("Hop".to_string());
    assert_eq!(plan.get_name(), "Hop");
    plan.set_max_altitude(Some(9000));
    assert_eq!(plan.get_max_altitude(), Some(9000));
    plan.set_dirty(true);
    assert!(plan.is_dirty());
}

fn aircraft(name: &str) -> Aircraft {
    Aircraft::new(name.to_string(), 120, 6000, 80, 700, 90, 500, true)
}

#[test]
fn new_plan_has_one_clean_sector() {
    let mut view = PlanView::new();
    view.new_plan(Some(aircraft("Cub")));
    assert_eq!(view.get_plan().sector_count(), 1);
    assert!(!view.get_plan().is_dirty());
    assert_eq!(view.get_plan().get_aircraft().as_ref().map(|a| a.name.as_str()), Some("Cub"));
    let mut bare = PlanView::new();
    bare.new_plan(None);
    assert!(bare.get_plan().get_aircraft().is_none());
}

#[test]
fn choosing_an_aircraft_sets_the_plans() {
    let mut view = view_of(two_sector_plan());
    assert!(view.get_plan().get_aircraft().is_none());
    view.aircraft_selected(Some(aircraft("Cub")));
    assert_eq!(view.get_plan().get_aircraft().as_ref().map(|a| a.cruise_speed), Some(120));
    // No aircraft at the chosen place: the plan keeps its aircraft.
    view.aircraft_selected(None);
    assert_eq!(view.get_plan().get_aircraft().as_ref().map(|a| a.name.as_str()), Some("Cub"));
    assert_eq!(view.get_plan().sector_count(), 2);
}

#[test]
fn move_buttons_for_rows() {
    let view = view_of(two_sector_plan());
    // Sector rows.
    assert_eq!(view.move_buttons(Some(&select(0, RowKind::Sector))), MoveButtons { up: false, down: true });
    assert_eq!(view.move_buttons(Some(&select(6, RowKind::Sector))), MoveButtons { up: true, down: false });
    // The start row enables nothing.
    assert_eq!(view.move_buttons(Some(&select(1, RowKind::Waypoint))), MoveButtons { up: false, down: false });
    // First, middle and last waypoints.
    assert_eq!(view.move_buttons(Some(&select(2, RowKind::Waypoint))), MoveButtons { up: false, down: true });
    assert_eq!(view.move_buttons(Some(&select(3, RowKind::Waypoint))), MoveButtons { up: true, down: true });
    assert_eq!(view.move_buttons(Some(&select(4, RowKind::Waypoint))), MoveButtons { up: true, down: false });
    // The end row.
    assert_eq!(view.move_buttons(Some(&select(5, RowKind::Waypoint))), MoveButtons { up: false, down: false });
    // No selection.
    assert_eq!(view.move_buttons(None), MoveButtons { up: false, down: false });
}

#[test]
fn move_waypoint_up_then_down_restores_the_plan() {
    let mut view = view_of(two_sector_plan());
    let update = view.move_selected_up(Some(&select(3, RowKind::Waypoint)));
    assert_eq!(update, ViewUpdate::Refresh(Some(2)));
    assert_eq!(waypoint_ids(view.get_plan(), 0), vec![11, 10, 12]);
    let update = view.move_selected_down(Some(&select(2, RowKind::Waypoint)));
    assert_eq!(update, ViewUpdate::Refresh(Some(3)));
    assert_eq!(waypoint_ids(view.get_plan(), 0), vec![10, 11, 12]);
}

#[test]
fn move_sector_up_then_down_restores_the_plan() {
    let mut view = view_of(two_sector_plan());
    assert_eq!(view.move_selected_up(Some(&select(6, RowKind::Sector))), ViewUpdate::Refresh(None));
    assert_eq!(view.get_plan().get_sector(0).get_start(), Some(airport(2)));
    assert_eq!(view.move_selected_down(Some(&select(0, RowKind::Sector))), ViewUpdate::Refresh(None));
    assert_eq!(view.get_plan().get_sector(0).get_start(), Some(airport(1)));
    assert_eq!(view.get_plan().get_sector(1).get_start(), Some(airport(2)));
}

#[test]
fn moves_that_do_nothing() {
    let mut view = view_of(two_sector_plan());
    // The first sector cannot move up; the view still refreshes, selecting row 0.
    assert_eq!(view.move_selected_up(Some(&select(0, RowKind::Sector))), ViewUpdate::Refresh(Some(0)));
    // The start row and the first waypoint cannot move up.
    assert_eq!(view.move_selected_up(Some(&select(1, RowKind::Waypoint))), ViewUpdate::Unchanged);
    assert_eq!(view.move_selected_up(Some(&select(2, RowKind::Waypoint))), ViewUpdate::Unchanged);
    // The last waypoint cannot move down.
    assert_eq!(view.move_selected_down(Some(&select(4, RowKind::Waypoint))), ViewUpdate::Unchanged);
    // Nothing selected.
    assert_eq!(view.move_selected_up(None), ViewUpdate::Refresh(Some(0)));
    assert_eq!(view.move_selected_down(None), ViewUpdate::Refresh(Some(0)));
    assert_eq!(waypoint_ids(view.get_plan(), 0), vec![10, 11, 12]);
}

#[test]
fn remove_a_middle_waypoint() {
    let mut view = view_of(two_sector_plan());
    assert_eq!(view.remove_selected(Some(&select(3, RowKind::Waypoint))), ViewUpdate::Refresh(Some(3)));
    assert_eq!(waypoint_ids(view.get_plan(), 0), vec![10, 12]);
    assert_eq!(view.get_plan().get_sector(0).get_end(), Some(airport(2)));
}

#[test]
fn remove_the_last_waypoint_clears_the_end_too() {
    let mut view = view_of(two_sector_plan());
    assert_eq!(view.remove_selected(Some(&select(4, RowKind::Waypoint))), ViewUpdate::Refresh(None));
    assert_eq!(waypoint_ids(view.get_plan(), 0), vec![10, 11]);
    assert_eq!(view.get_plan().get_sector(0).get_end(), None);
}

#[test]
fn remove_the_start_row_also_takes_the_first_waypoint() {
    let mut view = view_of(two_sector_plan());
    assert_eq!(view.remove_selected(Some(&select(1, RowKind::Waypoint))), ViewUpdate::Refresh(Some(1)));
    let s = view.get_plan().get_sector(0);
    assert_eq!(s.get_start(), None);
    assert_eq!(waypoint_ids(view.get_plan(), 0), vec![11, 12]);
    assert_eq!(view.get_plan().get_sector(0).get_end(), Some(airport(2)));
}

#[test]
fn remove_the_end_row() {
    let mut view = view_of(two_sector_plan());
    assert_eq!(view.remove_selected(Some(&select(9, RowKind::Waypoint))), ViewUpdate::Refresh(None));
    assert_eq!(view.get_plan().get_sector(1).get_end(), None);
    assert_eq!(waypoint_ids(view.get_plan(), 1), vec![20]);
}

#[test]
fn remove_a_sector() {
    let mut view = view_of(two_sector_plan());
    assert_eq!(view.remove_selected(Some(&select(0, RowKind::Sector))), ViewUpdate::Refresh(None));
    assert_eq!(view.get_plan().sector_count(), 1);
    assert_eq!(view.get_plan().get_sector(0).get_start(), Some(airport(2)));
}

#[test]
fn add_airport_to_a_selected_sector() {
    let mut plan = Plan::new();
    plan.add_sector(Sector::new());
    plan.add_sector(Sector::new());
    let mut view = view_of(plan);
    // Sector 0 is row 0, sector 1 is row 1 (no children yet).
    let depths = vec![Some(0), Some(0)];
    let sel = Selection { position: 1, row: Some(SelectedRow { kind: RowKind::Sector, depths }) };
    assert!(view.add_airport_to_plan(airport(5), Some(&sel)));
    assert_eq!(view.get_plan().get_sector(1).get_start(), Some(airport(5)));
    assert!(view.add_airport_to_plan(airport(6), Some(&sel)));
    assert_eq!(view.get_plan().get_sector(1).get_end(), Some(airport(6)));
    // A full sector: the airport goes to a new sector at the end of the plan.
    assert!(view.add_airport_to_plan(airport(7), Some(&sel)));
    assert_eq!(view.get_plan().sector_count(), 3);
    assert_eq!(view.get_plan().get_sector(2).get_start(), Some(airport(7)));
    assert_eq!(view.get_plan().get_sector(0).get_start(), None);
}

#[test]
fn add_airport_without_selection_does_nothing() {
    let mut view = view_of(two_sector_plan());
    assert!(!view.add_airport_to_plan(airport(5), None));
    assert_eq!(view.get_plan().sector_count(), 2);
    assert_eq!(view.get_plan().get_sector(1).get_end(), Some(airport(3)));
}

#[test]
fn add_airport_with_a_missing_row_goes_to_the_plan() {
    let mut view = view_of(two_sector_plan());
    let sel = Selection { position: 40, row: None };
    assert!(view.add_airport_to_plan(airport(5), Some(&sel)));
    assert_eq!(view.get_plan().sector_count(), 3);
    assert_eq!(view.get_plan().get_sector(2).get_start(), Some(airport(5)));
}

#[test]
fn add_waypoint_before_a_selected_row() {
    let mut view = view_of(two_sector_plan());
    // Row 3 is waypoint 11, the second waypoint: the new one goes before it.
    assert_eq!(
        view.waypoint_target(Some(&select(3, RowKind::Waypoint))),
        WaypointPlacement::Inserted { sector: 0, index: 1 }
    );
    let placed = view.add_waypoint_to_plan(fix(99), Some(&select(3, RowKind::Waypoint)), 0);
    assert_eq!(placed, WaypointPlacement::Inserted { sector: 0, index: 1 });
    assert_eq!(waypoint_ids(view.get_plan(), 0), vec![10, 99, 11, 12]);
    // The start row: first.
    let placed = view.add_waypoint_to_plan(fix(98), Some(&select(1, RowKind::Waypoint)), 3);
    assert_eq!(placed, WaypointPlacement::Inserted { sector: 0, index: 0 });
    assert_eq!(waypoint_ids(view.get_plan(), 0), vec![98, 10, 99, 11, 12]);
    assert!(view.get_plan().is_dirty());
}

#[test]
fn add_waypoint_to_a_selected_sector() {
    let mut view = view_of(two_sector_plan());
    let sel = select(6, RowKind::Sector);
    assert_eq!(view.waypoint_target(Some(&sel)), WaypointPlacement::Optimise { sector: 1 });
    // The sector's optimised insertion chose the front.
    assert_eq!(
        view.add_waypoint_to_plan(fix(99), Some(&sel), 0),
        WaypointPlacement::Optimise { sector: 1 }
    );
    assert_eq!(waypoint_ids(view.get_plan(), 1), vec![99, 20]);
    assert_eq!(waypoint_ids(view.get_plan(), 0), vec![10, 11, 12]);
}

#[test]
fn add_waypoint_without_selection_goes_to_the_last_sector() {
    let mut view = view_of(two_sector_plan());
    assert_eq!(view.waypoint_target(None), WaypointPlacement::Optimise { sector: 1 });
    assert_eq!(view.add_waypoint_to_plan(fix(99), None, 1), WaypointPlacement::Optimise { sector: 1 });
    assert_eq!(waypoint_ids(view.get_plan(), 1), vec![20, 99]);
    assert_eq!(waypoint_ids(view.get_plan(), 0), vec![10, 11, 12]);
    let mut empty = PlanView::new();
    assert_eq!(empty.add_waypoint_to_plan(fix(99), None, 0), WaypointPlacement::NotPlaced);
    assert_eq!(empty.get_plan().sector_count(), 0);
}

#[test]
fn new_sector_starts_at_the_last_airport() {
    let mut view = view_of(two_sector_plan());
    view.new_sector();
    assert_eq!(view.get_plan().sector_count(), 3);
    assert_eq!(view.get_plan().get_sector(2).get_start(), Some(airport(3)));
    assert_eq!(view.get_plan().get_sector(2).get_end(), None);
    // A sector ending at a navaid does not carry over.
    let mut plan = Plan::new();
    plan.add_sector(sector(Some(airport(1)), &[], Some(navaid(4))));
    let mut view = view_of(plan);
    view.new_sector();
    assert_eq!(view.get_plan().get_sector(1).get_start(), None);
}

#[test]
fn selected_waypoint_and_airport() {
    let view = view_of(two_sector_plan());
    assert_eq!(view.get_selected_waypoint(Some(&select(0, RowKind::Sector))), Some(airport(1)));
    assert_eq!(view.get_selected_waypoint(Some(&select(3, RowKind::Waypoint))), Some(navaid(11)));
    assert_eq!(view.get_selected_airport(Some(&select(3, RowKind::Waypoint))), None);
    assert_eq!(view.get_selected_airport(Some(&select(5, RowKind::Waypoint))), Some(airport(2)));
    assert_eq!(view.get_selected_airport(Some(&select(6, RowKind::Sector))), Some(airport(2)));
    assert_eq!(view.get_selected_waypoint(None), None);
    let other = Selection { position: 2, row: Some(SelectedRow { kind: RowKind::Other, depths: depths_to(2) }) };
    assert_eq!(view.get_selected_waypoint(Some(&other)), None);
}

#[test]
fn selected_sector_without_start_points_at_its_end() {
    let mut plan = Plan::new();
    plan.add_sector(sector(None, &[], Some(navaid(8))));
    let view = view_of(plan);
    let sel = Selection { position: 0, row: Some(SelectedRow { kind: RowKind::Sector, depths: vec![Some(0)] }) };
    assert_eq!(view.get_selected_waypoint(Some(&sel)), Some(navaid(8)));
    assert_eq!(view.get_selected_airport(Some(&sel)), None);
}

#[test]
fn max_altitude_follows_the_entry() {
    let mut view = view_of(two_sector_plan());
    view.max_altitude_toggled(true, "12000");
    assert_eq!(view.get_plan().get_max_altitude(), Some(12000));
    view.max_altitude_changed(true, "high");
    assert_eq!(view.get_plan().get_max_altitude(), None);
    view.max_altitude_changed(true, "8000");
    assert_eq!(view.get_plan().get_max_altitude(), Some(8000));
    view.max_altitude_changed(false, "5000");
    assert_eq!(view.get_plan().get_max_altitude(), Some(8000));
    view.max_altitude_toggled(false, "5000");
    assert_eq!(view.get_plan().get_max_altitude(), None);
}

#[test]
fn make_plan_replaces_each_sectors_route() {
    let mut view = view_of(two_sector_plan());
    let centre = view.make_plan(vec![vec![fix(30), fix(31)], vec![]]);
    assert_eq!(centre, Some(airport(2)));
    assert_eq!(waypoint_ids(view.get_plan(), 0), vec![30, 31]);
    assert_eq!(waypoint_ids(view.get_plan(), 1), Vec::<u64>::new());
    assert_eq!(view.get_plan().get_sector(0).get_start(), Some(airport(1)));
    assert_eq!(view.get_plan().get_sector(1).get_end(), Some(airport(3)));
    assert!(view.get_plan().is_dirty());
}

#[test]
fn make_plan_without_sectors_centres_nowhere() {
    let mut view = PlanView::new();
    assert_eq!(view.make_plan(Vec::new()), None);
    assert_eq!(view.get_plan().sector_count(), 0);
    assert!(!view.get_plan().is_dirty());
}

#[test]
fn selections_the_view_takes() {
    let view = view_of(two_sector_plan());
    assert!(view.selection_valid(None));
    assert!(view.selection_valid(Some(&select(3, RowKind::Waypoint))));
    assert!(view.selection_valid(Some(&select(6, RowKind::Sector))));
    assert!(view.selection_valid(Some(&Selection { position: 4, row: None })));
    // The depths must reach down to the selected position.
    let short = Selection {
        position: 5,
        row: Some(SelectedRow { kind: RowKind::Waypoint, depths: depths_to(3) }),
    };
    assert!(!view.selection_valid(Some(&short)));
    // A depth of u32::MAX cannot be walked.
    let deep = Selection {
        position: 1,
        row: Some(SelectedRow { kind: RowKind::Other, depths: vec![Some(0), Some(u32::MAX)] }),
    };
    assert!(!view.selection_valid(Some(&deep)));
    // A waypoint row past the sector's rows, and a sector past the plan's.
    let past = Selection {
        position: 7,
        row: Some(SelectedRow {
            kind: RowKind::Waypoint,
            depths: vec![Some(0), Some(1), Some(1), Some(1), Some(1), Some(1), Some(1), Some(1)],
        }),
    };
    assert!(!view.selection_valid(Some(&past)));
    let mut one = Plan::new();
    one.add_sector(Sector::new());
    let view = view_of(one);
    assert!(!view.selection_valid(Some(&select(6, RowKind::Sector))));
}

#[test]
fn move_down_needs_a_waypoint_below_the_end_row() {
    let mut plan = Plan::new();
    plan.add_sector(sector(Some(airport(1)), &[], Some(airport(2))));
    let view = view_of(plan);
    let start = Selection {
        position: 1,
        row: Some(SelectedRow { kind: RowKind::Waypoint, depths: vec![Some(0), Some(1)] }),
    };
    let end = Selection {
        position: 2,
        row: Some(SelectedRow { kind: RowKind::Waypoint, depths: vec![Some(0), Some(1), Some(1)] }),
    };
    assert!(view.selection_valid(Some(&start)));
    assert!(view.selection_valid(Some(&end)));
    assert!(view.down_move_valid(Some(&start)));
    assert!(!view.down_move_valid(Some(&end)));
    let view = view_of(two_sector_plan());
    assert!(view.down_move_valid(Some(&select(5, RowKind::Waypoint))));
    assert!(view.down_move_valid(None));
}
