# codex-rate-proxy

A local proxy for the Codex command line. It keeps a least distance between the
starts of requests, sends a request again that the upstream refused with HTTP
429, and runs one proxy per API key, upstream and configuration file.

- `src/` is the library. What it decides and computes is stated in contracts and
  proved with Verus.
- `app/` is the program around it: files, locks, sockets, processes and HTTP.
- `tests/` runs the library on concrete values.

| Module | What it holds |
| --- | --- |
| `text`, `digits`, `paths`, `json` | texts, numbers, paths and JSON texts |
| `ini`, `settings` | the configuration and what a reload may change |
| `pacing`, `proxy`, `headers` | when and where requests go, and with which header fields |
| `keys`, `credentials`, `env_export` | API keys, how they are kept, and how a shell gets one |
| `identity`, `control`, `lifecycle`, `startup` | proxy instances |
| `launcher` | the command line |
| `gateway` | the shared entry point |

Times are nanoseconds. What is floating point (seconds with a fraction, and the
backoff and jitter where whole numbers do not settle them) the program computes
and hands to the library.

Public proof functions whose names begin with `law_` state what holds of the
library as a whole.
