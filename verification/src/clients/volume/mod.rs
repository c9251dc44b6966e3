pub mod pulse;
pub mod pulse_trial;
