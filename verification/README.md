# sysmon_companion

The native companion of the System Monitor add-on: a Windows process that
speaks a length-prefixed JSON protocol with its host on stdin/stdout and
reports CPU, physical-memory and GPU utilisation samples.

- `src/` is the verified library (Verus):
  - `frame` — the little-endian length prefix, its limits, and the
    round trip between a payload and its frame;
  - `session` — the host/companion lifecycle (`init`, `settings`,
    `message`, `shutdown`), protocol-version checks, refresh-interval
    validation, and the error frames the companion answers with;
  - `cpu` — tick counts from their 32-bit halves, busy/elapsed ticks
    between readings, memory in use;
  - `gpu` — choice of the reported adapter, its name, and the grouping of
    engine counters of that adapter;
  - `text` — digits, equality and substring search on character views.
- `app/` is the process itself: stdin/stdout, the JSON shapes (serde), the
  sampler thread, and the Windows API calls (DXGI, PDH, system times and
  memory status). Floating-point percentages are computed there from the
  library's integer results.
- `tests/` exercises the library on concrete values.
