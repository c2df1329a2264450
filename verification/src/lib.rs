pub mod channel;
pub mod flow;
pub mod info;
pub mod listing;
pub mod look;
pub mod mention;
pub mod natural;
pub mod phrase;
pub mod remind;
pub mod text;
pub mod timer;
pub mod unicode;
