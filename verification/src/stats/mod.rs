pub mod battery;
pub mod volume;
