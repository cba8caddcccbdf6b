# pppoe

A Windows service that dials a PPPoE broadband connection at boot and keeps it
online: it checks the network cable before dialling, leaves a connection alone
that is already up, backs off after failures, and never hangs the connection up
when it stops.

The rules of the service are a library verified with Verus:

| Module | What it holds |
| --- | --- |
| `config` | configuration model, file decoding, validation, credential-free summary |
| `link` | choice of the adapter that decides whether the cable is plugged in |
| `ras` | dialling, hanging up, the connection table, error codes |
| `backoff`, `worker` | retry delays and the dial state machine |
| `once` | the `dial-once` command |
| `service`, `svc_install` | service lifecycle, installation and control |
| `logger`, `notice` | log records, the credential guard, file rotation and retention |
| `cli` | commands and the tables they print |
| `text`, `utf16`, `lists`, `error` | what the others share |

The library calls nothing of Windows; of the system it only reads the clock, for
the jitter of the retry delays. A state machine names the next action, the
caller performs it and hands back what it came to. `app/` is that caller: it
reads the configuration file, writes the log and calls the Windows API
(`app/sys/win.rs`; on other systems every call reports that it needs Windows).
