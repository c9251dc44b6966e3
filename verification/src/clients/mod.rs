pub mod volume;
