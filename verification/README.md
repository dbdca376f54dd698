# Wurstenstein 3D

A small 3D arena shooter for the Sony PSP, with a ProTracker MOD music player, whose game
logic is written in Verus and proved against its contracts.

## Layout

- `src/` — the verified library:
  - `modplay/` — the MOD player: loading a module, ticking through its patterns and effects,
    mixing its channels, and jumping within the song; `model.rs` states all of it over
    mathematical values, `player.rs` implements it, `laws.rs` holds properties across calls.
  - `playfield.rs` — the grid of the level, the faces and index buffer of its mesh, and the
    cells the player may stand on.
  - `controller/` — the player's life and supplies, spawn slots, and the kinds of bullets,
    enemies and powerups.
  - `scene.rs` — the title, round, death and win scenes and how events move between them.
  - `audio.rs`, `assets.rs` — which song a music request starts, and texture padding.
  - `util/` — the rectangle arena and batching, and font atlas layout and text measuring.
- `tests/` — tests of the library on concrete values.
- `app/` — the PSP program around the library: the GPU, audio and input, and everything that
  works on floating-point positions and times.
