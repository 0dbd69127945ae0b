# gpu_smi

A portable system-management view of AMD GPUs (Windows and Linux): discovery
through HIP, ADL, WMI and sysfs, a console table, JSON output, and a headless
HTTP API with Prometheus metrics.

The logic is a Verus-verified library under `src/`:

- `text`, `num`: character and number handling with exact specifications
  (trimming, line splitting, radix parsing and printing as std does them).
- `gpu`: the GPU and process records, and the stable descending sort by memory.
- `http`: bind policy, request-line and header parsing, bearer authorization,
  routing, response text, Prometheus exposition, token selection.
- `render`: every line of the console table and of the process list.
- `backend`: what each backend makes of its raw readings (sysfs files, HIP
  device properties, WMI JSON, ADL sensors and adapters, WDDM memory
  statistics, per-process counters) and the discovery order as a state machine.

`app/` is the executable around it: argument parsing, the socket loop, file and
process I/O, the dynamically loaded vendor libraries, float formatting of
sensor readings, and JSON serialization.

Sensor readings are kept as integers in the library: temperatures in
thousandths of a degree Celsius, power in milliwatts.
