# phantom_editor

The editor of the Phantom game engine, split in two:

- `src/` is a Verus-verified library holding the editor's logic: the asset
  browser (listing order, new-file and paste names, renames, folder
  navigation), the undo/redo history, the log filter and console buffer,
  play mode, project and game-file lookup, the inspector's component order
  and clip editing, the decisions of the component/script macros, and the
  workspace catalogue. Each public function carries a contract, and the laws
  that span several calls are proof functions beside them.
- `tests/` runs the library on concrete values.
- `app/` is the program around it: the window, GPU rendering, egui panels,
  file-system and dynamic-library access, audio, and the macros' token
  building. It calls the library for every decision it makes.
