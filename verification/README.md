# statusbar

A status line for i3bar/swaybar. Each block (clock, CPU, memory, traffic,
mail, audio, brightness, network, battery, weather) runs in its own thread,
keeps its element up to date and announces changes; the bar writes a JSON
frame of all blocks for each announcement, and click messages read from
standard input are routed to the block they name.

Layout:

- `src/` is the verified library (Verus):
  - `text.rs`: decimal numerals, whitespace trimming, `i32` parsing,
    substring search and splitting, with their specifications;
  - `block/element.rs`: a block's element and its JSON rendering, pango markup;
  - `bar.rs`: the bar's blocks, the frames it writes, and its redraw policy;
  - `event.rs`: reading click messages and routing them to blocks;
  - `block/*.rs`: the text each block shows for its readings (time, weather,
    brightness, mail, network, audio).
- `app/` is the program: the threads that read the system (clock, `/proc`,
  ALSA, D-Bus, maildirs, HTTP, the backlight file), print the frames and
  read standard input, calling the library for everything they decide.
- `tests/` exercises the library on concrete values.
