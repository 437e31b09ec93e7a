//! External processes: what is run, in which lane, and when it is given up.

pub mod bus;
pub mod command;
