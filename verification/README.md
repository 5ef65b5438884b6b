# air_monitor

Firmware logic of an ESP32-S3 indoor air-quality monitor (SCD30 CO₂ /
temperature / humidity sensor, PMS5003 particulate sensor, ST7735 panel,
web settings page, MQTT publishing), written in Verus with its behaviour
stated in `requires` / `ensures` contracts and proved.

## Layout

- `src/` — the verified library:
  - `sensors.rs` — Sensirion CRC-8, SCD30 command and reply framing,
    PMS5003 frame search, particulate levels and their colours;
  - `text.rs` — decimal formatting and `str::parse`-exact integer parsing;
  - `calendar.rs` — days ↔ civil dates, with the date proved unique;
  - `logbuf.rs` — the bounded log ring, log line layout, JSON escaping
    (proved to read back unchanged) and the `/logs` tail protocol;
  - `form.rs` — `application/x-www-form-urlencoded` bodies;
  - `network.rs` — stored settings (MQTT, Wi-Fi list, rotation, night mode)
    and what a submitted settings form asks to store;
  - `wifi.rs` — the access-point watchdog and address selection;
  - `schedule.rs` — local time of day, night dimming, the CO₂ history window
    and the display loop's timers;
  - `display.rs` — screen layout as a list of drawing operations;
  - `web.rs` — `/status`, `/scan`, `/rotate` replies, MQTT start-up and
    publishing schedule.
- `tests/` — tests of the library on concrete values.
- `app/` — the firmware program around the library: hardware drivers, Wi-Fi,
  HTTP server, MQTT client, NVS access, threads, and the floating-point
  handling of readings.

Verify the library with `verus` on `src/lib.rs`; the outside crates are
`percent-encoding` for the library and the ESP-IDF / embedded-graphics stack
for the program.
