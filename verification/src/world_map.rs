//! The world map's context menu and the airports a click on the map can
//! pick.
use vstd::prelude::*;

verus! {

/// An entry of the map's context menu: its label and the action it runs.
pub struct MenuEntry {
    pub label: String,
    pub action: &'static str,
}

/// The label and action of a menu entry, as values.
pub open spec fn entry_model(e: MenuEntry) -> (Seq<char>, Seq<char>) {
    (e.label@, e.action@)
}

/// The entries of the context menu: for an airport under the pointer,
/// viewing its layout and adding it to the plan; for a navaid, adding it to
/// the plan; then the three searches near the pointer.
pub open spec fn popup_entries(airport: Option<Seq<char>>, navaid: Option<Seq<char>>) -> Seq<
    (Seq<char>, Seq<char>),
> {
    let airport_entries = match airport {
        Some(name) => seq![
            ("View "@ + name + " layout"@, "world_map.view_airport"@),
            ("Add "@ + name + " to plan"@, "world_map.add_to_plan"@),
        ],
        None => Seq::empty(),
    };
    let navaid_entries = match navaid {
        Some(name) => seq![("Add "@ + name + " to plan"@, "world_map.add_nav_to_plan"@)],
        None => Seq::empty(),
    };
    airport_entries + navaid_entries + seq![
        ("Find airports near"@, "world_map.find_airports_near"@),
        ("Find navaids near"@, "world_map.find_navaids_near"@),
        ("Find fixes near"@, "world_map.find_fixes_near"@),
    ]
}

fn entry(label: String, action: &'static str) -> (r: MenuEntry)
    ensures
        r.label@ == label@,
        r.action@ == action@,
{
    MenuEntry { label, action }
}

/// The context menu for the airport and navaid (by name) under the pointer.
pub fn popup_menu(airport: Option<&str>, navaid: Option<&str>) -> (r: Vec<MenuEntry>)
    ensures
        r@.map_values(|e: MenuEntry| entry_model(e)) == popup_entries(
            match airport {
                Some(a) => Some(a@),
                None => None,
            },
            match navaid {
                Some(n) => Some(n@),
                None => None,
            },
        ),
{
    let mut menu: Vec<MenuEntry> = Vec::new();
    if let Some(name) = airport {
        menu.push(
            entry(
                String::from_str("View ").concat(name).concat(" layout"),
                "world_map.view_airport",
            ),
        );
        menu.push(
            entry(String::from_str("Add ").concat(name).concat(" to plan"), "world_map.add_to_plan"),
        );
    }
    if let Some(name) = navaid {
        menu.push(
            entry(
                String::from_str("Add ").concat(name).concat(" to plan"),
                "world_map.add_nav_to_plan",
            ),
        );
    }
    menu.push(entry(String::from_str("Find airports near"), "world_map.find_airports_near"));
    menu.push(entry(String::from_str("Find navaids near"), "world_map.find_navaids_near"));
    menu.push(entry(String::from_str("Find fixes near"), "world_map.find_fixes_near"));
    assert(menu@.map_values(|e: MenuEntry| entry_model(e)) =~= popup_entries(
        match airport {
            Some(a) => Some(a@),
            None => None,
        },
        match navaid {
            Some(n) => Some(n@),
            None => None,
        },
    ));
    menu
}

/// Whether a click can pick an airport: its longest runway is longer than
/// `min_runway`, or it is a heliport and heliports count.
pub fn pickable_airport(
    max_runway_length: i32,
    is_heliport: bool,
    min_runway: i32,
    include_heliports: bool,
) -> (r: bool)
    ensures
        r == (max_runway_length > min_runway || (include_heliports && is_heliport)),
{
    max_runway_length > min_runway || (include_heliports && is_heliport)
}

/// Whether a click can pick a navaid: it is a VOR, or NDBs count too (the
/// map is zoomed in far enough).
pub fn pickable_navaid(is_vor: bool, include_ndbs: bool) -> (r: bool)
    ensures
        r == (include_ndbs || is_vor),
{
    include_ndbs || is_vor
}

} // verus!
