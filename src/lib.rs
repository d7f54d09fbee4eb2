//! A serial-line terminal core: the hex/raw payload encoder, the port
//! supervisor's open/close/send state machine, the reader task's polling
//! protocol and the event relay that folds notifications into the display.

pub mod hex;
pub mod message;
pub mod supervisor;
pub mod reader;
pub mod relay;
