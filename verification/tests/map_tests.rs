use kelpie_planner::map_data::{
    classify_airports, classify_navaids, quad_triangles, route_points, whitespace_buffer,
    EdgeMidpoints, RoutePoint,
};
use kelpie_planner::plan::{Plan, Sector, Waypoint, WaypointKind};

#[test]
fn airports_by_runway_length() {
    let lengths = vec![12000, 5000, 5001, 10000, 10001, 0, -1];
    let c = classify_airports(&lengths);
    assert_eq!(c.large, vec![0, 4]);
    assert_eq!(c.medium, vec![2, 3]);
    assert_eq!(c.small, vec![1, 5, 6]);
    let none = classify_airports(&vec![]);
    assert!(none.large.is_empty() && none.medium.is_empty() && none.small.is_empty());
}

#[test]
fn navaids_by_type() {
    let (vor, other) = classify_navaids(&vec![true, false, false, true]);
    assert_eq!(vor, vec![0, 3]);
    assert_eq!(other, vec![1, 2]);
}

#[test]
fn quad_cut_into_triangles() {
    assert_eq!(quad_triangles(['a', 'b', 'c', 'd']), vec!['a', 'b', 'c', 'c', 'd', 'a']);
    assert_eq!(quad_triangles([1.5f32, 2.5, 3.5, 4.5]), vec![1.5, 2.5, 3.5, 3.5, 4.5, 1.5]);
}

#[test]
fn whitespace_buffers() {
    assert_eq!(whitespace_buffer(3), b"   ".to_vec());
    assert!(whitespace_buffer(0).is_empty());
}

fn wp(id: u64, kind: WaypointKind) -> Waypoint {
    Waypoint { id, kind }
}

#[test]
fn route_of_a_plan() {
    let mut first = Sector::new();
    first.set_start(Some(wp(1, WaypointKind::Airport)));
    first.add_waypoint(wp(10, WaypointKind::Navaid));
    first.set_end(Some(wp(2, WaypointKind::Airport)));
    let mut no_start = Sector::new();
    no_start.add_waypoint(wp(20, WaypointKind::Fix));
    no_start.set_end(Some(wp(3, WaypointKind::Airport)));
    let mut open_end = Sector::new();
    open_end.set_start(Some(wp(3, WaypointKind::Airport)));
    let mut plan = Plan::new();
    plan.add_sector(first);
    plan.add_sector(no_start);
    plan.add_sector(open_end);
    let route = route_points(&plan);
    assert_eq!(
        route,
        vec![
            RoutePoint { waypoint: wp(1, WaypointKind::Airport), marker: true, joins_previous: false },
            RoutePoint { waypoint: wp(10, WaypointKind::Navaid), marker: false, joins_previous: true },
            RoutePoint { waypoint: wp(2, WaypointKind::Airport), marker: true, joins_previous: true },
            RoutePoint { waypoint: wp(3, WaypointKind::Airport), marker: true, joins_previous: false },
        ]
    );
}

#[test]
fn edge_midpoints_are_shared() {
    let mut cache = EdgeMidpoints::new();
    assert_eq!(cache.get_midpoint(3, 7, 12), (12, true));
    assert_eq!(cache.get_midpoint(7, 3, 13), (12, false));
    assert_eq!(cache.get_midpoint(3, 7, 14), (12, false));
    assert_eq!(cache.get_midpoint(7, 8, 13), (13, true));
    assert_eq!(cache.get_midpoint(8, 7, 14), (13, false));
}

use kelpie_planner::plan_view::heading_column_title;
use kelpie_planner::world_map::{pickable_airport, pickable_navaid, popup_menu};

fn menu_of(airport: Option<&str>, navaid: Option<&str>) -> Vec<(String, String)> {
    popup_menu(airport, navaid).into_iter().map(|e| (e.label, e.action.to_string())).collect()
}

#[test]
fn popup_menu_for_an_airport_and_a_navaid() {
    let menu = menu_of(Some("Heathrow"), Some("BIG"));
    let expected: Vec<(String, String)> = vec![
        ("View Heathrow layout".into(), "world_map.view_airport".into()),
        ("Add Heathrow to plan".into(), "world_map.add_to_plan".into()),
        ("Add BIG to plan".into(), "world_map.add_nav_to_plan".into()),
        ("Find airports near".into(), "world_map.find_airports_near".into()),
        ("Find navaids near".into(), "world_map.find_navaids_near".into()),
        ("Find fixes near".into(), "world_map.find_fixes_near".into()),
    ];
    assert_eq!(menu, expected);
}

#[test]
fn popup_menu_over_open_country() {
    let menu = menu_of(None, None);
    assert_eq!(menu.len(), 3);
    assert_eq!(menu[0].0, "Find airports near");
    let menu = menu_of(None, Some("OCK"));
    assert_eq!(menu[0], ("Add OCK to plan".to_string(), "world_map.add_nav_to_plan".to_string()));
}

#[test]
fn pickable_airports() {
    assert!(pickable_airport(12000, false, 10000, false));
    assert!(!pickable_airport(10000, false, 10000, false));
    assert!(!pickable_airport(0, true, 5000, false));
    assert!(pickable_airport(0, true, 5000, true));
}

#[test]
fn heading_column_titles() {
    assert_eq!(heading_column_title(true), "Hdg(mag)");
    assert_eq!(heading_column_title(false), "Hdg(true)");
}

#[test]
fn pickable_navaids() {
    assert!(pickable_navaid(true, false));
    assert!(!pickable_navaid(false, false));
    assert!(pickable_navaid(false, true));
    assert!(pickable_navaid(true, true));
}

#[test]
fn midpoints_of_far_apart_corners_stay_apart() {
    let mut cache = EdgeMidpoints::new();
    assert_eq!(cache.get_midpoint(0, usize::MAX, 1), (1, true));
    assert_eq!(cache.get_midpoint(1, 0, 2), (2, true));
    assert_eq!(cache.get_midpoint(usize::MAX, usize::MAX - 1, 3), (3, true));
    assert_eq!(cache.get_midpoint(usize::MAX, 0, 4), (1, false));
    assert_eq!(cache.get_midpoint(usize::MAX - 1, usize::MAX, 5), (3, false));
}
