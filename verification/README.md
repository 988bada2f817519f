# deterix

A time-slotted (TDMA) network emulator. Node 0 is the orchestrator: it keeps
the reference clock and the slot schedule, and admits nodes that ask to join.
Every slot of a slotframe names one sender and one receiver; a slot is split
into a clear window, a transmit window, an acknowledgement window and a guard
band.

## Layout

- `src/` — the library, verified with Verus:
  - `codec.rs`: big-endian integer fields and their read/write roundtrip;
  - `text.rs`: zero-padded UTF-8 text fields;
  - `schedule.rs`: slots, schedules and their wire form;
  - `buffer.rs`: packet buffers and the pool they are lent from;
  - `packet.rs`: the packet wire format, packet views and builders;
  - `tdma.rs`: the decisions a node takes (ticks, slot windows, roles,
    transmit/receive/acknowledge checks, joining);
  - `clock.rs`, `entropy.rs`: the system clock and the random packet uids.
- `tests/` — tests of the library on concrete packets, pools and schedules.
- `app/` — the program: nodes with UDP sockets, threads and real-time
  scheduling, driven by the library's decisions.
