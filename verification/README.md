# goldsrc_plugin

Preset and parameter logic of the GoldSrc reverb plugin (a CLAP/VST3 effect
that emulates the Half-Life engine reverb), verified with Verus.

- `src/` — the verified library:
  - `float_bits` — `f32` equality and comparison computed on bit patterns;
  - `text` — character classes, trimming, decimal formatting;
  - `params` — parameter values, the nine DSP knobs, parameter labels;
  - `presets` — user preset snapshots, safe file names, the preset folder choice,
    the order of listed preset files;
  - `rooms` — which room the knobs stand for, factory room and user preset application;
  - `state` — the loaded-preset comparison state and the DSP row tracker, with
    the law of one audio block's preset management;
  - `editor` — window sizes, the preset picker, user preset labels and order.
- `app/` — the plugin around it: host parameters, audio processing, the
  editor GUI, JSON files on disk.
- `tests/` — tests of the library.

`f32` values are carried in the library as their IEEE-754 bit patterns; the
factory room table is handed to the library as a slice of such rows.
