# Windows Codex Monitor

A tray monitor for the weekly usage of Codex. It shows how much of the weekly
quota remains as a gauge in the tray, and in a popup when the quota is reset and
what Codex is doing.

The rules of the monitor are a library whose behaviour is stated in contracts
and proved with Verus:

| Module | Rules |
| --- | --- |
| `quota`, `double` | what remains of the quota, rounded and clamped as doubles are |
| `status`, `session` | what Codex is doing, from the process list and the session logs |
| `protocol`, `install` | the exchange with the app server, and where it is found |
| `state`, `settings`, `control` | what is shown and set, and what follows an event |
| `popup`, `icon`, `color`, `pixels`, `glyphs` | layout and painting |
| `text`, `json` | texts and JSON documents |

The program around it, in `app/`, does the rest: processes, files, the clock,
windows, the tray, and the geometry of curved shapes, which is in floating point.

| Weekly remaining | Gauge colour |
| --- | --- |
| 50–100% | Green |
| 25–49% | Yellow |
| 10–24% | Orange |
| 0–9% | Red |

`--diagnose` prints what the monitor reads, without a window; `--preview` opens
the popup at once. `CODEX_MONITOR_CODEX_PATH` names the executable of Codex where
it is installed in an unusual place.
