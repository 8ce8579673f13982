# dondon

A small piano-roll synthesizer. `src/` is the verified core: note naming and
the piano layout, the ADSR envelope stage machine, voice allocation, the
playback schedule, the piano-roll editor, transport state, option menus and
the color themes. `app/` is the program around it: the cpal audio callback,
the scheduler thread, the egui window, and everything that computes with
samples and screen coordinates.
