use kelpie_planner::aircraft::{
    default_aircraft_index, number_from, validate_not_empty, validate_numeric, Aircraft,
    AircraftField, AircraftForm, FormError,
};
use kelpie_planner::list_models::{create_plan_model, PlanTreeModel, SectorListModel};
use kelpie_planner::plan::{Plan, Sector, Waypoint, WaypointKind};
use kelpie_planner::search::{position_refusal, search_request, SearchError, SearchList, SearchRequest};
use kelpie_planner::window::{
    close_page_request, close_page_response, initial_file_name, restored_maximized,
    restored_window_size,
    save_extension, ClosePage, CloseChoice, SaveType,
};

fn airport(id: u64) -> Waypoint {
    Waypoint { id, kind: WaypointKind::Airport }
}

fn fix(id: u64) -> Waypoint {
    Waypoint { id, kind: WaypointKind::Fix }
}

fn plan_with(sectors: Vec<Sector>) -> Plan {
    let mut plan = Plan::new();
    for s in sectors {
        plan.add_sector(s);
    }
    plan
}

#[test]
fn plan_tree_model_lists_sectors() {
    let mut s = Sector::new();
    s.set_start(Some(airport(1)));
    let plan = plan_with(vec![s, Sector::new()]);
    let mut model = PlanTreeModel::new();
    model.set_plan(&plan);
    assert_eq!(model.n_items(), 2);
    assert_eq!(model.item(0).unwrap().get_start(), Some(airport(1)));
    assert_eq!(model.item(1).unwrap().get_start(), None);
    assert!(model.item(2).is_none());
    assert_eq!(model.plan().sector_count(), 2);
    let one = plan_with(vec![Sector::new()]);
    let made = create_plan_model(&one);
    assert_eq!(made.n_items(), 1);
}

#[test]
fn sector_list_model_rows() {
    let mut s = Sector::new();
    s.set_start(Some(airport(1)));
    s.add_waypoint(fix(7));
    s.add_waypoint(fix(8));
    let plan = plan_with(vec![Sector::new(), s]);
    let mut model = SectorListModel::new();
    model.set_plan(&plan);
    model.set_sector_index(1);
    assert_eq!(model.sector_index(), 1);
    assert_eq!(model.plan().sector_count(), 2);
    assert_eq!(model.n_items(), 4);
    assert_eq!(model.item(0), Some(airport(1)));
    assert_eq!(model.item(1), Some(fix(7)));
    assert_eq!(model.item(2), Some(fix(8)));
    // The sector has no end: its row is empty.
    assert_eq!(model.item(3), None);
}

#[test]
fn sector_list_model_of_an_empty_sector() {
    let plan = plan_with(vec![Sector::new()]);
    let mut model = SectorListModel::new();
    model.set_sector_index(0);
    model.set_plan(&plan);
    assert_eq!(model.n_items(), 2);
    assert_eq!(model.item(0), None);
    assert_eq!(model.item(1), None);
}

fn form(name: &str, figures: [&str; 6]) -> AircraftForm {
    let mut f = AircraftForm::new();
    f.name = name.to_string();
    f.cruise_speed = figures[0].to_string();
    f.cruise_altitude = figures[1].to_string();
    f.climb_speed = figures[2].to_string();
    f.climb_rate = figures[3].to_string();
    f.sink_speed = figures[4].to_string();
    f.sink_rate = figures[5].to_string();
    f
}

#[test]
fn aircraft_form_accepts_figures() {
    let f = form("Cessna 172", ["110", "5000", "70", "700", "80", "500"]);
    assert_eq!(f.validate(), Ok(()));
    let a = f.save_aircraft().unwrap();
    assert_eq!(a.name, "Cessna 172");
    assert_eq!(a.cruise_speed, 110);
    assert_eq!(a.cruise_altitude, 5000);
    assert_eq!(a.climb_speed, 70);
    assert_eq!(a.climb_rate, 700);
    assert_eq!(a.sink_speed, 80);
    assert_eq!(a.sink_rate, 500);
    assert!(!a.is_default);
}

#[test]
fn aircraft_form_refusals() {
    let f = form("", ["110", "5000", "70", "700", "80", "500"]);
    assert_eq!(f.validate(), Err(FormError::Required(AircraftField::Name)));
    assert_eq!(f.save_aircraft().err(), Some("Please enter a name"));
    let f = form("X", ["fast", "5000", "70", "700", "80", "500"]);
    assert_eq!(f.validate(), Err(FormError::NotNumeric(AircraftField::CruiseSpeed)));
    let f = form("X", ["110", "", "70", "700", "80", "500"]);
    assert_eq!(f.validate(), Err(FormError::NotNumeric(AircraftField::CruiseAltitude)));
    let f = form("X", ["110", "5000", "7.5", "700", "80", "500"]);
    assert_eq!(f.validate(), Err(FormError::NotNumeric(AircraftField::ClimbSpeed)));
    let f = form("X", ["110", "5000", "70", "x", "80", "500"]);
    assert_eq!(f.validate(), Err(FormError::NotNumeric(AircraftField::ClimbRate)));
    let f = form("X", ["110", "5000", "70", "700", " 80", "500"]);
    assert_eq!(f.validate(), Err(FormError::NotNumeric(AircraftField::SinkSpeed)));
    let f = form("X", ["110", "5000", "70", "700", "80", "9999999999"]);
    assert_eq!(f.validate(), Err(FormError::NotNumeric(AircraftField::SinkRate)));
    // Saving reads unreadable figures as 0.
    let a = f.save_aircraft().unwrap();
    assert_eq!(a.sink_rate, 0);
    // The first refusal is reported.
    let f = form("", ["fast", "", "", "", "", ""]);
    assert_eq!(f.validate(), Err(FormError::Required(AircraftField::Name)));
}

#[test]
fn aircraft_form_messages() {
    assert_eq!(FormError::Required(AircraftField::Name).message(), "Name is required");
    assert_eq!(
        FormError::NotNumeric(AircraftField::CruiseSpeed).message(),
        "Cruise Speed should be numeric"
    );
    assert_eq!(
        FormError::NotNumeric(AircraftField::SinkRate).message(),
        "Sink Rate should be numeric"
    );
    assert_eq!(AircraftField::CruiseAltitude.label(), "Cruise Altitude");
    assert_eq!(AircraftField::ClimbSpeed.label(), "Climb Speed");
    assert_eq!(AircraftField::ClimbRate.label(), "Climb Rate");
    assert_eq!(AircraftField::SinkSpeed.label(), "Sink Speed");
}

#[test]
fn entry_checks() {
    assert_eq!(number_from("42"), 42);
    assert_eq!(number_from("-3"), -3);
    assert_eq!(number_from("abc"), 0);
    assert_eq!(validate_numeric("12", AircraftField::ClimbRate), Ok(()));
    assert_eq!(
        validate_numeric("1 2", AircraftField::ClimbRate),
        Err(FormError::NotNumeric(AircraftField::ClimbRate))
    );
    assert_eq!(validate_not_empty("a", AircraftField::Name), Ok(()));
    assert_eq!(validate_not_empty("", AircraftField::Name), Err(FormError::Required(AircraftField::Name)));
}

#[test]
fn shown_aircraft_saves_back() {
    let a = Aircraft::new("Glider".to_string(), 60, -10, 45, 350, 50, -200, true);
    let mut f = AircraftForm::new();
    f.set_aircraft(Some("Glider"), Some(&a));
    assert_eq!(f.cruise_altitude, "-10");
    assert_eq!(f.climb_rate, "350");
    assert!(!f.name_editable);
    assert_eq!(f.validate(), Ok(()));
    let b = f.save_aircraft().unwrap();
    assert_eq!(b.name, a.name);
    assert_eq!(b.cruise_speed, a.cruise_speed);
    assert_eq!(b.cruise_altitude, a.cruise_altitude);
    assert_eq!(b.climb_speed, a.climb_speed);
    assert_eq!(b.climb_rate, a.climb_rate);
    assert_eq!(b.sink_speed, a.sink_speed);
    assert_eq!(b.sink_rate, a.sink_rate);
}

#[test]
fn set_aircraft_without_a_match_or_a_name() {
    let mut f = form("Old", ["1", "2", "3", "4", "5", "6"]);
    f.name_editable = false;
    f.set_aircraft(Some("Unknown"), None);
    assert_eq!(f.name, "Old");
    assert_eq!(f.sink_rate, "6");
    assert!(f.name_editable);
    f.set_aircraft(None, None);
    assert_eq!(f.name, "");
    assert_eq!(f.cruise_speed, "");
    assert_eq!(f.sink_rate, "");
    assert!(f.name_editable);
}

#[test]
fn default_aircraft_is_the_last_marked() {
    assert_eq!(default_aircraft_index(&vec![false, true, false]), Some(1));
    assert_eq!(default_aircraft_index(&vec![true, false, true]), Some(2));
    assert_eq!(default_aircraft_index(&vec![false, false]), None);
    assert_eq!(default_aircraft_index(&vec![]), None);
}

#[test]
fn search_requests() {
    assert_eq!(search_request("EGLL", "", ""), Ok(SearchRequest { by_name: true, by_position: false }));
    assert_eq!(search_request("", "51.4", "-0.4"), Ok(SearchRequest { by_name: false, by_position: true }));
    assert_eq!(search_request("EG", "51", "0"), Ok(SearchRequest { by_name: true, by_position: true }));
    assert_eq!(search_request("", "", ""), Ok(SearchRequest { by_name: false, by_position: false }));
    assert_eq!(search_request("EG", "51", ""), Err(SearchError::MissingCoordinate));
    assert_eq!(search_request("", "", "12"), Err(SearchError::MissingCoordinate));
}

#[test]
fn search_messages() {
    assert_eq!(SearchError::MissingCoordinate.message(), "Enter both a Latitude and Longitude for search.");
    assert_eq!(SearchError::InvalidLatitude.message(), "Invalid Latitude for search.");
    assert_eq!(SearchError::InvalidLongitude.message(), "Invalid Longitude for search.");
}

#[test]
fn save_file_names() {
    assert_eq!(save_extension(SaveType::Native), "fgfp");
    assert_eq!(save_extension(SaveType::FgRouteManager), "xml");
    assert_eq!(initial_file_name("YSSY-YMML", SaveType::Native), "YSSY-YMML.fgfp");
    assert_eq!(initial_file_name("YSSY-YMML", SaveType::FgRouteManager), "YSSY-YMML.xml");
    assert_eq!(initial_file_name("", SaveType::Native), ".fgfp");
}

#[test]
fn closing_plan_pages() {
    assert_eq!(close_page_request(false), ClosePage::Close);
    assert_eq!(close_page_request(true), ClosePage::Ask);
    assert_eq!(close_page_response(0), CloseChoice::SaveAndClose);
    assert_eq!(close_page_response(1), CloseChoice::Close);
    assert_eq!(close_page_response(2), CloseChoice::KeepOpen);
    assert_eq!(close_page_response(-1), CloseChoice::KeepOpen);
}

#[test]
fn window_size_restore() {
    assert_eq!(restored_window_size(Some(800), Some(600)), Some((800, 600)));
    assert_eq!(restored_window_size(Some(800), None), None);
    assert_eq!(restored_window_size(None, Some(600)), None);
}

#[test]
fn window_maximized_restore() {
    assert!(restored_maximized(Some(true)));
    assert!(!restored_maximized(Some(false)));
    assert!(!restored_maximized(None));
}

#[test]
fn list_models_show_the_plan_as_edited() {
    let mut plan = plan_with(vec![Sector::new()]);
    plan.add_sector(Sector::new());
    plan.insert_waypoint(1, 0, Waypoint { id: 5, kind: WaypointKind::Fix });
    let tree = create_plan_model(&plan);
    assert_eq!(tree.n_items(), 2);
    let mut rows = SectorListModel::new();
    rows.set_plan(&plan);
    rows.set_sector_index(1);
    assert_eq!(rows.n_items(), 3);
    assert_eq!(rows.item(1), Some(Waypoint { id: 5, kind: WaypointKind::Fix }));
}

#[test]
fn position_refusals() {
    assert_eq!(position_refusal(SearchList::Airports, true, true), None);
    assert_eq!(position_refusal(SearchList::Airports, false, false), Some(SearchError::InvalidLatitude));
    assert_eq!(position_refusal(SearchList::Airports, true, false), Some(SearchError::InvalidLongitude));
    // The navaid and fix lists report an unreadable longitude as a latitude.
    assert_eq!(position_refusal(SearchList::Navaids, true, false), Some(SearchError::InvalidLatitude));
    assert_eq!(position_refusal(SearchList::Fixes, true, false), Some(SearchError::InvalidLatitude));
    assert_eq!(position_refusal(SearchList::Fixes, false, true), Some(SearchError::InvalidLatitude));
    assert_eq!(
        position_refusal(SearchList::Airports, true, false).unwrap().message(),
        "Invalid Longitude for search."
    );
}
