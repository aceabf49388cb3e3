# uptime-exporter

HTTP uptime and response-time exporter for Prometheus. It probes a configured
list of services with real HTTP(S) requests and exposes, for each of them,
whether it is up, its last status code, how long its last probe took, when it
ran and how many probes went which way.

The rules of the exporter are a library verified with
[Verus](https://github.com/verus-lang/verus):

| Module | What it holds |
|---|---|
| `config`, `config_laws` | Settings, defaults, validation and resolution of the services |
| `addr`, `addr_laws`, `method`, `url`, `text` | Addresses, request methods, URLs and the texts they are read from |
| `error` | What can be wrong with the settings and the configuration |
| `probe` | A probe from the request to its outcome, and the client it needs |
| `scheduler` | The probe loop of a service and its startup delay |
| `exposition`, `fnv` | The Prometheus registry, its families and series, and the hash that tells them apart |
| `metrics`, `metrics_laws`, `family_hashes` | The families of the exporter and what a probe does to them |
| `server` | What the endpoint answers |
| `duration` | Spans of time |

Functions named `law_*` state what holds of the library as a whole. The program
around the library is in `app/`: it reads the environment and the configuration
file, performs the requests, runs the loops and serves the metrics.

## Configuration

```yaml
defaults:
  interval_seconds: 30
  timeout_seconds: 10
  method: GET
  acceptable_status: [[200, 399]]
  follow_redirects: true
  resolve_override: "192.168.1.10:443"

services:
  - name: portainer
    url: https://portainer.example.com
  - name: grafana
    url: https://grafana.example.com
    interval_seconds: 60
```

| Variable | Default | Purpose |
|---|---|---|
| `UPTIME_CONFIG_PATH` | `/etc/uptime-exporter/config.yaml` | Configuration file |
| `UPTIME_LISTEN_ADDR` | `0.0.0.0:9184` | Listen address |
| `UPTIME_RESOLVE_OVERRIDE` | unset | Wins over `defaults.resolve_override`; empty switches pinning off |
| `RUST_LOG` | `info` | Log filter |

The file is checked before anything is probed. A `defaults.resolve_override` that
is no address is refused even where the environment overrides it.

Prometheus files the series of a family under a hash of its label values, joined
with nothing between them. Two services whose name and URL join to the same text
share their series.
