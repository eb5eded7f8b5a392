# pnio

A PROFINET RT IO-Device: the side of a fieldbus station that answers a controller.

- `src/` is the library, verified with Verus. It holds formats and rules:
  DCP frames and Set requests (`dcp`), connectionless DCE-RPC (`rpc`), the context manager and its PNIO blocks
  (`cm`), identification records (`im`), alarms (`alarm`) and diagnoses (`diag`), the cyclic
  frames, layout, image and loop (`rt`), the acyclic loop (`device`), device configurations
  (`config`), their GSDML description (`gsdml`), typed process data (`data`, `api`) and
  recorded traffic (`capture`). It owns no socket, clock, thread or file: it is told what
  happened and says what to do. Times are nanoseconds.
- `app/` surrounds it with sockets, threads, scheduling and files. Three things it takes from
  whoever runs a device: the answer to a DCP Identify request (`IdentifyAnswer`; the library
  reads the request), the lifecycle machine of an AR (`ArMachine`) and the engine of the cyclic
  exchange (`RtEngine`).
- `tests/` runs the library.

Contracts are stated over views (`x@`) and spec functions; what holds across functions
stands in public proof functions, named as sentences, at the end of each module. What is
trusted is marked `external_body` or `assume_specification`, with a comment that says what is
taken for granted: text conversions and a compiler hint of the standard library, and the
container parsers of `pcap-file`.
