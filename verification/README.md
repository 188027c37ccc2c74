# lapiz

The verified core of the Lapiz painting program, written in Verus.

- `src/` is the library. Every function in it carries a contract that
  Verus proves, except the few `#[verifier::external_body]` wrappers around
  outside crates (`uuid`, `xxhash-rust`, `path-clean`, `indexmap`), whose
  contracts are trusted as their sources document them. The library
  covers path and file-name rules of asset bundles and of the revisions kept in a bundle's `.modified` directory (`path`, `bundle`,
  `bundle_files`), bundle manifests and what a scan and an index sync make
  of them (`manifest`, `sync`, `index`), the recent-files list (`recent`),
  brush graph nodes and their generated code (`graph`), the input layout
  of a brush's main dab expression (`main_effect`), the outer framing
  of ABR brush files (`abr`), action registration (`actions`), layer
  selection, layer-tree navigation and layer renaming (`selection`,
  `layers`, `rename`), the
  jump-flooding schedules of the bucket tool (`bucket`), the open
  canvases (`manager`, `canvas`), and two decisions of the main window:
  modifier key changes and where new canvas docks open (`main_view`).
- `tests/` exercises the library from outside.
- `app/` is a small command-line program around the library: it reads and
  writes the recent-files TOML file, reads ABR files from disk, and scans
  an asset bundle directory.
