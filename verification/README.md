# aoostar

Control logic for the secondary LCD of the AOOSTAR WTR MAX and GEM12+ PRO,
written in Verus: the functions of the library in `src/` carry
`requires`/`ensures` contracts that Verus proves. The few calls into std
and the `bytes` crate go through small `#[verifier::external_body]`
wrappers whose contracts are trusted, not proved (UTF-8/UTF-16 decoding,
path joining, string building, the `BytesMut` frame buffer).

## Layout

- `src/` — the verified library
  - `le_bytes`, `stats`, `slot` — the shared-memory sensor protocol: two
    fixed producer slots, a 32-byte little-endian header and an odd/even
    sequence marking writes in progress. A write is three steps
    (`begin_write`, `store_payload`, `publish`) whose intermediate region
    states `write_slot_traced` reports. Laws: a read returns what the last
    write stored; writing one slot leaves the other untouched; an unwritten
    or half-written slot never reads as a snapshot.
  - `text`, `sensor_values`, `payload` — the `label: value` payload format
    and the sensor map it is merged into.
  - `shm` — polling of the producer slots: merge on a new sequence only,
    one warning per stale episode.
  - `launcher_config`, `paths`, `process`, `logging`, `tray` — the
    launcher's settings (refresh intervals, theme, display mode, in-place
    `launcher.toml` rewrite), file locations, child command lines, the
    child watcher's step function and restart backoff, log line format and
    tray status line.
  - `display`, `power`, `device`, `panel` — display on/off decisions, the
    sleep/wake latch and the ordered steps of each power flow, recognition
    of the LCD's USB UART and its re-enumeration ladder, and the panel
    process's display-state polling, lost-launcher shutdown and init
    retries.
  - `lcd` — the LCD wire framing: command packets, chunked frame upload that
    skips chunks unchanged since the cached previous frame, builder
    settings, `vid:pid` parsing, serial port selection.
- `tests/` — executable tests of the library.
- `app/` — the launcher program and the I/O around the library: the POSIX
  shared-memory mapping, serial port access, files, child processes and
  logging.
