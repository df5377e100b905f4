# cli_modbus_rtu_master_rust

A terminal tool that polls a Modbus device over RTU (serial) or TCP and shows
the values of configured registers.

- `src/` is the verified library: connection settings and their defaults,
  the register table format (`tags.csv`, `;`-separated, read and written
  through the `csv` crate), decoding of register words into displayed values,
  the answers accepted at every prompt and menu, and the decisions of the
  polling loop. Every function carries a contract checked by Verus; the
  `law_*` proof functions state properties that span several functions, such
  as registers written to the table being read back unchanged. That law is
  proved for the records (decoding the records that the library writes gives
  the same registers) and, for the bytes, rests on one trusted clause: that
  csv's reader reads back the records its writer wrote, for records of one
  non-zero length whose first field does not begin with a byte order mark.
- `app/` is the program around it: console I/O, the settings file
  (`connect_settings.json`, through `serde_json`), files on disk, the clock,
  and the serial and TCP connections (`tokio-modbus`, `tokio-serial`).
- `tests/` exercises the library on concrete values.
