pub mod input_pin;
pub mod output_pin;
pub mod pin;
