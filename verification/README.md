# linux_disk_space_manager

A disk-space management daemon for Linux whose decision logic is verified
with Verus.

- `src/` is the verified library:
  - `config`: the policy types, the stable sort of thresholds, policy
    validation and the daemon's timing defaults;
  - `disk`: which of block and inode usage a filesystem is measured by, and
    the human-readable rendering of byte counts;
  - `monitor`: the per-threshold state machine (health window, one firing
    per breach, reminders, recovery) and laws over runs of polls;
  - `lifecycle`: what a lifecycle rule does to a file, the compressed-file
    sweep, preserve decisions (one pattern and a whole preserve list) and
    the lifecycle schedule;
  - `logger`: log levels and which lines each level writes;
  - `runner`: how a reaction command's exit is reported.
- `app/` is the program around it: command line, YAML parsing, `statvfs`,
  globbing, gzip, file operations, threads, timing and printing.
- `tests/` exercises the library on concrete values.
