# enpose_api — verified core

Client library for Enpose 6-DoF optical trackers: device discovery on the
local network and live marker-pose streaming over UDP.

* `src/` — the verified library (Verus): the packet format (`protocol`), the
  pose batch codec (`marker_pose`), the decisions of a discovery round
  (`devicediscovery`) and of a pose stream (`posestream`), the values of the
  C interface (`c_api`), and big-endian byte helpers (`bytes`, `address`).
  Real-valued pose fields are carried as IEEE 754 bit patterns.
* `app/` — ordinary Rust around it: UDP sockets, clocks, the background
  receiver thread, interface enumeration (`if-addrs`), the `f64` view of a
  pose, and the functions with C linkage.
* `tests/` — tests of the library.
