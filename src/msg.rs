use vstd::prelude::*;

verus! {

/// The configuration of one expander chip, as the configuration service sends it.
/// `topics` holds one topic name per pin; an empty name leaves the pin unbound.
/// `option_keys` and `option_values` are parallel lists forming an option table.
pub struct I2CDevice {
    pub bus: u8,
    pub address: u8,
    pub frequency: u16,
    pub device: String,
    pub option_keys: Vec<String>,
    pub option_values: Vec<String>,
    pub topics: [String; 16],
}

} // verus!
