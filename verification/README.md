# jvm_lifecycle_mgr

A node daemon that runs tenant JVMs inside cgroup v2 slices, sized by service
tier, watches them for OOM kills and crashes, and reports those to a
controller.

- `src/` is the verified library: tiers and their sizing (`config`), the
  daemon's errors (`error`), text and path helpers (`text`, `paths`), the
  cgroup layout, file contents and readings (`cgroups`), launch-request
  checks, command lines and shutdown pacing (`jvm_forker`), the tenant
  registry and the watchdog's decisions (`watchdog`, on top of `table`), and
  the HTTP API's answers and metrics page (`api`).
- `app/` is the daemon binary: file system, processes, signals, the HTTP
  server and the crash reports, all driven by the library's decisions.
- `tests/` exercises the library on concrete values.
