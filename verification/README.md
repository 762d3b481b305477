# dban

Secure disk sanitization with a verified core: overwrite schemes with read-back
verification, drive-internal erase commands, a safety interlock that no code path
can bypass, and signed erasure reports.

The library under `src/` is written in Verus. It decides everything: which bytes
a pass writes, which command goes to a drive, when a wipe may start, which disk
is locked, what the screen shows. Each function states what it returns in its
contract, and Verus proves it. The program under `app/` performs what the library
decides: it opens devices, issues ioctls, runs worker threads and draws on the
terminal.

## Modules

| Module | What it holds |
|---|---|
| `algorithm` | passes, verification policies, the registry of overwrite schemes |
| `prng` | the xoshiro256++ stream of random passes |
| `engine`, `job` | sessions, progress, reports; one overwrite job, operation by operation |
| `wipe_laws` | what an overwrite job achieves on a device that works, and what it reports of one that does not |
| `safety` | the arming ceremony: phrase, countdown, token |
| `device`, `linux`, `demo`, `sysinfo` | disks, their discovery and locks, simulated disks, the host |
| `firmware`, `ata`, `nvme`, `tcg`, `transport`, `bytes` | what a drive's firmware can do, and the commands for it |
| `erase` | one firmware erase, operation by operation |
| `signing`, `report` | the session report and its detached Ed25519 signature |
| `app_model`, `app`, `app_laws` | the application's state, its transitions, and what holds of it |
| `theme`, `ui`, `speed` | glyphs, the lines of every screen, throughput |
| `binary64` | sums and quotients rounded as a double rounds them |
| `text`, `scan`, `error` | text building and scanning, error messages |

## What is proved of the whole

* A job on a working device ends with exactly the last pass on the disk, from its
  first byte to its last, with nothing behind it changed and every count right; a
  read-back passes if and only if the disk holds the pass, and otherwise names the
  first byte that differs; a report of success is complete (`wipe_laws`).
* A wipe starts only after the phrase with the number of its disks was typed and
  confirmed and the countdown ran out without an abort; any key aborts it
  (`safety`, `app_laws`).
* No locked disk is ever a target, and a firmware method targets only disks that
  support it (`app_model`).
* The program never leaves while a worker runs (`app_laws`).
* Every glyph of every screen takes one column in every font, and on the console
  it is ASCII (`theme`, `ui`).
* While a real drive erases itself, its gauge pulses in place of a percentage
  (`ui`).

## What is trusted

The contracts of a few outside functions are believed without proof: two methods
of `String` (`text`), the entropy source (`prng`), key derivation, signing and
strict verification of Ed25519 (`signing`), and lossy UTF-8 decoding (`linux`).
Each says in its doc comment what is claimed of it.

Percentages, throughput in MB/s and the seconds in reports are floating-point
numbers and are computed in `app/`. The library counts bytes and nanoseconds;
sizes, times left and pauses are rounded to the bit as a double rounds them
(`binary64`).
