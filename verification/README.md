# ibx

A trading engine for Interactive Brokers, in Verus: the wire formats, the session's logon, the
market data and order state, and the rules by which messages change them are verified; sockets,
cryptography and floating point are not part of the library.

- `src/text.rs`, `src/types.rs`, `src/calendar.rs`: texts, fixed-point values, dates.
- `src/protocol/`: the wire formats: field messages (`fix`), packed messages (`fixcomp`), the
  session's text and binary messages (`ns`, `xyz`), and packed ticks and bars (`tick_decoder`).
- `src/gateway.rs`: opening a session, from the first message to the data connections.
- `src/bridge.rs`: what clients are told, and what they see.
- `src/client.rs`: what clients ask for.
- `src/engine/`: instruments and quotes (`market_state`), orders and requests (`order`), what the
  engine knows (`context`), and what follows from what comes in (`hot_loop`).
- `tests/`: what the library does, on examples.
- `app/`: a program around the library: connections, decimal numbers, the loop that runs an
  engine, and the bindings for Python.

Prices are in units of 10^-8 and quantities in units of 10^-4. Where a message carries a decimal
number, the library takes it as the text that was sent, or as the scaled integer that the caller
read from it (`bridge::Number`). Times are in milliseconds from any start.

Messages come in one at a time, and every function that takes one in says exactly what the state
is afterwards, and what is to be sent. The functions that start with `law_` state what holds
across functions: what is read back from what was written, what is told once, what ends.
