//! Decision logic of a collection of small microcontroller programs: LED
//! matrix animations, a serial line reverser, a serial command reader, a
//! punch meter, an ultrasonic range finder, a hobby servo, a button-driven
//! LED toggler and an RGB colour wheel. Everything that touches hardware
//! lives outside this crate; the functions here take plain values and return
//! plain values.

pub mod command;
pub mod echo;
pub mod leds;
pub mod line_buffer;
pub mod matrix;
pub mod punch;
pub mod rainbow;
pub mod servo;
pub mod sonar;
