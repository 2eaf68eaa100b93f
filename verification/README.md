# GAW

The logic of a music editor, written in Verus and proved.

- `src/` is the library. It decides what the program does: which part of the timeline is
  rendered, which edits go to disk and when, what a key, a drag or a dialog asks for, what
  every label says. Each function carries a contract; laws that hold across functions stand
  beside them as public proof functions.
- `app/` is the desktop program around it: windows, files, threads. It shows what the library
  decided and tells it what happened. It plays through an interface for a sound engine; the engine
  that comes with it keeps time and is silent.
- `tests/` runs the library.

Numbers are whole numbers throughout the library. Positions are counted in 1/960 000 of a beat,
tempos in thousandths of a beat per minute, times in nanoseconds (milliseconds where the
scheduler waits), gains and places on the screen in thousandths of their unit.

What the library takes on trust of the standard library is gathered in `src/text.rs`: appending
a character, and the classes and cases of characters.
