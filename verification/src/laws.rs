//! What the pool promises as a whole: laws over what goes into an operation and
//! what comes out of it.

pub mod choice;
pub mod timing;
pub mod quota;
pub mod selection;
pub mod words;
pub mod credentials;
pub mod records;
pub mod lines;
