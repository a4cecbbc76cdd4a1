# osm2lanes

Transforms the tags of an OpenStreetMap way into the lanes of the road, left to
right, and lanes back into tags. The library is written in Verus: every public
function states what it returns in its contract, and Verus proves it.

## Layout

- `src/` — the verified library.
  - `text`, `tags`: characters, OSM keys and values, and tags kept sorted by key.
  - `highway`, `schemes`, `access_by_lane`: tagging schemes read from tags.
  - `metric`, `road`, `locale`: widths and speeds in exact thousandths, lanes and
    markings, countries and driving sides.
  - `infer`, `builder`, `counts`, `bus`, `cycleway`, `modes`, `separator`, `ltr`,
    `transform`: the road built from the tags, inside out, then its lanes left
    to right with separators.
  - `lanes_to_tags`: lanes back to tags, with the round trip checked on request.
  - `msg`: warnings and errors, and their texts.
  - `overpass`, `test_case`: what an Overpass answer and a documented example
    hold.
  - `editor`: the decisions of an interactive editor of tags: its state, how
    each event changes it, and what it shows for the tags typed.
- `tests/` — examples run against the compiled library.
- `app/` — JSON and YAML forms of the library's values, what is computed in
  floating point, and the loop that runs the editor's decisions.
