# sonar_game

A top-down survival game in Bevy: the player steers with WASD through a dark
arena, sends out sonar waves that briefly outline walls and enemies, and counts
the enemies killed and the time survived.

- `src/` is the verified library (Verus): the decimal text of the kill counter
  and the `MM:SS` clock, the rule that counts a kill, the steering direction
  from the movement keys, and the collision layers. `text.rs` also proves that
  both texts read back as the numbers they show.
- `app/` is the Bevy game around it: ECS systems, spawning, physics (avian2d)
  and everything that computes in `f32`.
- `tests/` runs the library on concrete values.
