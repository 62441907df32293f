//! Decode-and-synchronisation core of a small media player, together with
//! the task list that ships beside it.

pub mod channel;
pub mod clock;
pub mod demux;
pub mod filler;
pub mod frame;
pub mod input;
pub mod output;
pub mod presenter;
pub mod ring;
pub mod session;
pub mod time;
pub mod todo;
pub mod worker;
