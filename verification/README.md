# ksud

The parts of a root daemon that talk to the kernel driver and serve its web
admin, verified with Verus.

## Layout

- `src/ksucalls.rs`, `src/profile.rs`: calls to the kernel driver, and app
  profiles with the block in which the kernel takes them. A call is a function
  from what has come back so far to what is to be done next, so that no system
  call is made in the library.
- `src/su.rs`: requests for root, from the records that the driver writes to
  the list of those that wait for a decision.
- `src/http.rs`, `src/response.rs`: requests and responses on a connection.
- `src/api.rs`, `src/feature.rs`, `src/decision.rs`, `src/modules.rs`: what a
  request to the web API asks for, who may ask, and how it is carried out.
- `src/webadmin.rs`, `src/page.rs`: the token, the files and the start of the
  web admin, and its page.
- `src/json.rs`: JSON values, which come from `serde_json`.
- `src/text.rs`, `src/number.rs`, `src/bytes.rs`: text, numbers and bytes.
- `app/`: system calls, files, sockets and threads around the library. The
  bindings of the kernel's headers and the rest of the daemon are reached
  through two traits there.

Public proof functions whose names begin with `law_` state what holds of the
library as a whole.
