//! Sensor readings: the data model, the formatted view of a reading and the
//! text encoding of sensor definitions.

pub mod decimal;
pub mod measure;
pub mod sensor;
