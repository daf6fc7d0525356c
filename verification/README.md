# pmdhost

Host for playing PMD music data (`.M`) on a YMF288 (OPN3-L) board. The real
PMD driver runs in an 8086 emulator; its OPNA register writes are captured,
turned into 4-byte packets and sent to `driver.exe` over a named pipe.

- `src/` — the verified library (Verus):
  - `opna.rs`: the OPNA timer/status model, with its laws (event order, tie to
    Timer B, periodicity, Reset/Load behaviour);
  - `board.rs`: the I/O trap (latches, SSG shadow, detection answers, DOS stub,
    interrupt dispatch) and the packets for each write and batch;
  - `packet.rs`: the packet and its wire form;
  - `pipe.rs`: dry-run batch statistics, their summary, the queue-length reply;
  - `control.rs`: the `play/stop/fade/status/quit` language, the prompt and TCP
    line rules, and the rule confining remote `play` to the music directory;
  - `emu.rs`: the register file of an interrupt call;
  - `player.rs`: the steps of a change of song and of each command, the
    replies, and the playback loop with its back pressure.
- `app/` — the program: emulator FFI, the pipe, threads, TCP and the console.
- `tests/` — tests of the library.
