# iot_sensors

Logic of an ESP32 sensor station (DHT11, photoresistor, HC-SR04, buzzer,
Wi-Fi uplink), verified with Verus.

- `src/` — the verified library: the buzzer rule, echo timing and distance,
  the JSON payload and HTTP request written into `heapless` strings, the reply
  line that gets reported, the DNS address cache, and Wi-Fi bookkeeping.
- `app/` — the firmware around it: peripherals, embassy tasks, sockets and
  printing, which ask the library what to do and pass it what they read.
- `tests/` — tests of the library on concrete values.
