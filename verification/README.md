# embedded_alarm_clock

Logic of an ESP32 alarm clock (DS3231 real-time clock, 2.9" e-paper display,
buzzer), verified with Verus.

- `src/` — the verified library:
  - `alarm_table`: a table of up to 16 weekly alarms protected by a
    CRC-16/IBM-SDLC checksum (`crc` crate), with the laws of `push_alarm`,
    `clear` and `is_consistent`;
  - `date_time`: the calendar model matched against alarms; date validity and
    weekdays come from `chrono` (through `ds323x`);
  - `flush_policy`: when the e-paper display gets a full instead of a quick refresh;
  - `buzzer`: the decisions of a buzzing cycle (toggle, deadline, interrupt button);
  - `clock`: "HH:MM" formatting and the deep-sleep duration.
- `app/` — the firmware around it (esp-hal peripherals, async tasks, drawing).
- `tests/` — tests of the library.
