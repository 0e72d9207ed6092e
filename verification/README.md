# Codex Switch

A desktop relay for command line coding agents: it keeps a list of upstreams
(relays with API keys, and accounts that were signed in to), schedules requests
over them, keeps prompt caches alive, and shows what was used and what it cost.

## Layout

- `src/` is the library: the rules of the program, with contracts that Verus
  checks. It reads no files, opens no sockets and draws nothing. Times are
  arguments, or come from `clock`.
- `tests/` runs the library on concrete values.
- `app/` is the program around it: the window, HTTP, files and sockets. It hands
  the library plain values and shows what comes back.

## Where things are

- Amounts and numbers: `double`, `float64`, `float_text`, `number`,
  `token_amount`, `tokens`, `duration_text`.
- Text, JSON, addresses and time: `text`, `elide`, `json`, `url_text`, `http`,
  `clock`, `table`, `name_list`.
- Upstreams: `models`, `upstreams`, `upstream_editor`, `upstream_detection`,
  `upstream_transfer`, `relay_form`, `presets`, `model_capabilities`.
- Scheduling and keys: `scheduler`, `temp_keys`, `peers`.
- What is watched: `active`, `activity`, `logs`, `log_filter`, `dashboard`,
  `balance`, `balance_alert`, `quota`, `cache_keepalive`.
- Tools: `model_test`, `pricing_script`, `oauth`, `guide`.
- The window and its surroundings: `shell`, `tray`, `update_view`,
  `window_state`, `single_instance`, `app_events`, `icon`, `icns`.

Floating point numbers are held as `Double`: a sign, a significand and an
exponent of two, with rounding to the nearest even as the hardware does it.

What the library takes on trust stands beside the calls that need it, each
behind a function marked `external_body` whose comment says what is claimed.
