# board_logic

The decisions of a set of small micro:bit and ESP32-C6 programs, written as
plain functions with contracts and proved with Verus.

- `src/` — the verified library: LED matrix frames and the running border
  light (`matrix`), a fixed-capacity serial line (`line_buffer`), the line
  reverser (`echo`), the sensor command reader (`command`), the punch meter
  (`punch`), the ultrasonic range finder (`sonar`), the servo pulse widths
  (`servo`), the button toggler (`leds`) and the RGB colour wheel
  (`rainbow`).
- `tests/` — tests of the library on concrete values.
- `app/` — the hardware side of each program: peripherals, timers, serial
  I/O and printing, driving the library.
