# etib

The verified core of the ETIB cube engine and of its asset manager.

- `src/` is the library, verified with Verus: the asset manager's project,
  category and asset lists (`json`), file naming and relative path rules (`handlefile`), the
  `.model` text format (`model_file`), keyboard state (`input`), the camera's movement keys (`camera`), dynamic model
  slots (`dynamic`), the chunking of static cubes (`scene`), bind group
  resources (`bindgroup`), surface format and present mode choice
  (`surface`), dispatch sizes and Hi-Z mip levels (`culling`), and small engine settings.
- `app/` is the asset manager program around it: JSON files on disk, folder
  synchronisation, and the engine pieces that hold floating-point values.
- `tests/` exercises the library.
