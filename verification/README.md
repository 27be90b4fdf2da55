# invaders

The rules of a small space-invaders style arcade game, verified with Verus.

- `src/march.rs`: the classic marching formation and the rolls that send aliens circling.
- `src/formation.rs`: the starting grid of aliens and the scale each is drawn at.
- `src/animation.rs`: sprite-sheet animation cycles.
- `src/player.rs`: steering and firing.
- `src/bolt.rs`: the bolts' flight and despawning.
- `src/chance.rs`: the random rolls, drawn with `rand`.
- `app/main.rs`: the game itself on bevy (window, input, sprites, timers and floating-point motion).
