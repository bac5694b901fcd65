# raidsim

The rules of a raid battle simulator, written in Rust and proved with Verus.

- `src/` is the verified library: damage rules and bitmask keys of applied skills, exact
  decimal ratios, gear tables and their validation, boss data lookup and skill building,
  boss and student skill patterns and the effects each skill declares, the state of a fight,
  how time moves it on and how an action reaches its caster and targets, and a
  fixed-capacity slot pool. Each public function states what it returns in its contract, and
  the laws that relate several functions are proof functions beside them.
- `tests/` runs the library on concrete values.
- `app/` is the ordinary Rust around it: reading the json data files, the display language of
  a run, and the rules that work in floating point (stat growth curves, the low end of damage
  ranges, positions and areas on the field).
