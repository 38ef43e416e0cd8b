# tf2_demo_insights

Finds highlight moments in Team Fortress 2 demo files: headshots, and airshots
(projectile hits on players at least 170 units above their last ground
contact), lethal or not.

- `src/` is the library, verified with Verus:
  - `text.rs`: character-level string helpers and decimal numbers;
  - `weapons.rs`: which weapon names are projectile weapons, which server
    classes are listed non-projectile (hitscan) weapons;
  - `highlight.rs`: the recorded highlights;
  - `analyser.rs`: the analyser's state (players, entity flags, origins,
    active weapons) and the decision taken on each entity update message, kill,
    hit and user info entry, and the entity state after a whole update message;
  - `userinfo.rs`: decoding user info entries with `tf-demo-parser`, and the
    entry texts it cannot take;
  - `dedup.rs`: dropping non-lethal airshots covered by a lethal one, and the
    stable ordering by tick (merge sort);
  - `report.rs`: the labels, columns and summary counts of the report;
  - `laws.rs`: properties that hold across these operations.
- `app/` is the command-line program: it reads the demo, drives
  `tf-demo-parser`, measures heights (in `f32`), and prints the result.
- `tests/` holds the tests.
