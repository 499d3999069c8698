# daq_core

The verified core of a data-acquisition suite: experiment graphs (structure,
ordering, validation, translation into plans and scripts, progress
tracking), the recording service's decisions, run-document storage plans,
file naming rules, and the logic behind the GUI panels.

- `src/` is the library, written in Verus and verified: every public
  function carries a contract (but for the two raw clock readings,
  `unix_seconds` and `unix_nanos`, whose value nothing can promise), and
  the laws that relate several functions are stated and proved as public
  proof functions.
- `tests/` exercises the library on concrete values.
- `app/` is the plain Rust around it: file system, clocks, floating-point
  rendering, gRPC statuses, the daemon process, and stores for the file
  formats whose libraries are not linked here.

Calls into outside crates (`chrono`, `getrandom`, `serde_json`, `tonic`, `uuid`) and the
few parts of `std` without a specification stand behind small trusted
wrappers whose documentation says what is assumed of them.
