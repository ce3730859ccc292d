# konoasset

The verified core of an asset manager for VRChat assets whose metadata
can be shared between several machines through a cloud-synchronised
folder. Each machine writes only its own `<kind>__<device id>.json` file;
reading merges every such file in name order, the first asset of each
identifier winning.

- `src/` — the library, verified with Verus:
  - `asset` — the four kinds of assets, their descriptions and the
    `AssetTrait` interface;
  - `container` — the in-memory collection of one kind of asset and every
    change to it, each answered with the file to write;
  - `file_names`, `ident`, `text` — per-device file names, identifier text
    and the name order used when reading;
  - `preference` — user preferences and the device's identity;
  - `device_registry`, `availability`, `legacy`, `values`;
  - `laws` — properties that relate several operations.
- `app/` — file system, JSON and asynchronous plumbing around the library.
- `tests/` — tests of the library.
