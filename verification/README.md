# dota_2_gsi_invoker

An always-on-top overlay for Invoker in Dota 2: it reads Game State
Integration payloads that the game posts to a local HTTP endpoint and shows
the ten Invoker spells in two rows, with their cooldowns and whether the
player has the mana to cast them.

## Layout

- `src/` is the library, verified with Verus:
  - `spells.rs`: the spell table and the mapping of raw ability names onto it;
  - `config.rs`: default settings, the mana cost table and the check of a
    configured skill order;
  - `decimal.rs`, `json.rs`, `gsi.rs`: reading a payload into an update;
  - `cooldown.rs`, `cooldown_laws.rs`: the cooldown tracker and the
    properties that hold across its calls;
  - `tile.rs`, `assets.rs`: what each tile of the overlay shows;
  - `text.rs`: character-level string helpers.
- `app/` is the program around it: settings file, HTTP endpoint, clock and
  the egui window.
- `tests/` holds the tests.

## Units

The library uses whole numbers throughout: clock times and cooldowns are in
milliseconds. A number read from a payload is a reading: a finite value in
thousandths of a unit, rounded down, with whether it is exact to the
thousandth; an infinity; or not-a-number, as the game's text can spell them.
The program hands the tracker the time in milliseconds since it started.
