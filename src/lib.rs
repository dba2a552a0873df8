//! A Morse-code beacon's core: the symbol codec, the emitter that paces a
//! transmission, the serial transmit queue and the clock arithmetic behind it.

pub mod codes;
pub mod morser;
pub mod timing;
pub mod ring;
pub mod uart;
pub mod delay;
pub mod timer;
pub mod strbuf;
pub mod fizzbuzz;
