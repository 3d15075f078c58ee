# opc_desktop

The desktop viewfinder's decisions for an Osmo Pocket camera, as a verified library:
what the shell does with a key, a tap or a chrome control; how the media browser walks
the camera's catalogue and what the library grid shows; how pairing, joining the
camera's Wi-Fi and sharing a feed over the relay proceed; and how the bytes the camera
and the relay send are cut into frames, records, access units and pictures.

The functions in `src/` carry `requires`/`ensures` contracts that Verus proves, with
one exception: the calls into other crates (`zune-jpeg`, `png`, and a few `std`
functions) sit behind small trusted wrappers, marked `external_body`, whose contracts
Verus takes on trust and which say only what those crates' sources and documentation
show.

Layout:

- `src/camera` — DUML frames and packed blobs, pairing, the Wi-Fi join policy and the
  platform command lines, the datalink's counters, what a Bluetooth scan keeps.
- `src/decode` — Annex-B access units, which codec wrote a unit, keyframes, backlogs.
- `src/media` — the catalogue browser's state machine, chunk assembly, the cache layout,
  store order on the camera's HTTP server, sorting and filtering, thumbnails.
- `src/monitor` — the library grid, LUT names, the settings sheets, and the shell.
- `src/relay` — the relay's records, its receive buffer, message framing answers, and
  the table of discovered hosts.
- `src/render` — rendered pictures, how chrome pixels are laid over them, and stills
  as PNG bytes.
- `src/text.rs` — strings as character sequences, shared by the rest.
- `app/` — the command line and the I/O the library is driven by: the cache on disk,
  HTTP, mDNS browsing, writing stills to disk, the per-user folders and clocks.
