# kelpie_planner

The planning logic behind the main window of the Kelpie flight planner, with
its behaviour stated in contracts and proved.

- `src/plan.rs`: the flight plan (sectors with a start, waypoints and an end)
  and its edits.
- `src/plan_view.rs`: what the plan view does to the plan for the selected row
  of the plan tree: moving, removing, adding airports and waypoints, putting
  in the planned routes, and the move buttons it enables.
- `src/tree.rs`: the path of a tree row from the depths of the rows above it.
- `src/list_models.rs`: the list models that show a plan and a sector.
- `src/aircraft.rs`, `src/search.rs`, `src/window.rs`, `src/world_map.rs`: the
  aircraft dialog's checks, the search forms, the window's save and close
  decisions, and the world map's context menu.
- `src/map_data.rs`: the integer side of the map renderers.
- `src/text.rs`: entry text: numeric characters, reading and writing whole
  numbers.
- `app/`: the OpenGL, translation and floating-point map code around it.
- `tests/`: tests of the library on concrete plans, forms and texts.
