# ironbar

The logic of a desktop bar, written in Rust and verified with Verus.

`src/` is the library. What a function returns or changes is stated in its
contract and proved; properties that span several functions are stated as
proof functions whose names begin with `law_`.

- `cached_broadcast`: a list of keyed items whose changes are announced over
  channels.
- `clients::volume::pulse`: the session with the sound server, the monitors of
  its objects and the streams they record from.
- `clients::volume::pulse_trial`: a trial connection that lists the sinks.
- `config::common`: the options that every module has.
- `ipc`: the commands that a running bar takes, and the server that takes them.
- `startup`: how the program starts, reloads and builds its bars.

Where work outside the library and decisions alternate, the library is a state
machine: one function gives the first requests, another takes an answer and
gives the requests that follow it. `app/` is the program around the library. It
makes the requests: it draws the bars, listens on the socket, talks to the sound
server and the compositor, and reads the configuration.

The channels are those of `tokio`. What the library takes for granted about them
is said at the `assume_specification` items in `cached_broadcast` and
`pulse::stream`, and at the two functions in `pulse::monitor` that make a channel
and send through it.
