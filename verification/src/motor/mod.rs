pub mod encoder;
pub mod supervisor;
