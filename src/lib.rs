//! A serial-port relay: lines typed by a user are framed and written to a
//! byte-stream device, and whatever the device has buffered is read back and
//! decoded as text. The library holds the decisions of the polling loop as a
//! verified state machine; the program around it performs the I/O.

pub mod baud;
pub mod frame;
pub mod input;
pub mod poller;
