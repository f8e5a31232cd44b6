//! The peripheral layout: the declared inventory of devices that the board is to offer.

use crate::ledger::PinNumber;
use vstd::prelude::*;

verus! {

/// The two pins of the shared bus.
#[derive(Debug)]
pub struct I2cInfo {
    pub gpio_sda: PinNumber,
    pub gpio_scl: PinNumber,
}

/// A digital input or output.
#[derive(Debug)]
pub struct DigitalIO {
    pub name: String,
    pub gpio: PinNumber,
    pub negated: bool,
}

/// A motor on two PWM outputs.
#[derive(Debug)]
pub struct Motor {
    pub name: String,
    pub gpio_positive: PinNumber,
    pub gpio_negative: PinNumber,
}

/// Several motors that are driven by one call, in the order of `members`.
#[derive(Debug)]
pub struct MotorGroup {
    pub name: String,
    pub members: Vec<String>,
}

/// An ultrasonic rangefinder.
#[derive(Debug)]
pub struct HCSR04 {
    pub name: String,
    pub gpio_trigger: PinNumber,
    pub gpio_echo: PinNumber,
}

/// A sensor on the shared bus.
#[derive(Debug)]
pub struct BasicI2c {
    pub name: String,
    pub i2c_addr: u8,
}

/// The whole layout. Within a kind the entries are bound in the order given here.
#[derive(Debug)]
pub struct PeripheralsConfig {
    pub i2c: Option<I2cInfo>,
    pub digital_ins: Vec<DigitalIO>,
    pub digital_outs: Vec<DigitalIO>,
    pub motors: Vec<Motor>,
    pub motor_groups: Vec<MotorGroup>,
    pub hcsr04s: Vec<HCSR04>,
    pub max30205s: Vec<BasicI2c>,
    pub is31fl3741s: Vec<BasicI2c>,
    pub bmp388s: Vec<BasicI2c>,
    pub lis3dhs: Vec<BasicI2c>,
    pub veml7700s: Vec<BasicI2c>,
}

impl PeripheralsConfig {
    /// Whether the layout declares nothing at all.
    pub open spec fn is_empty(&self) -> bool {
        &&& self.i2c is None
        &&& self.digital_ins@.len() == 0
        &&& self.digital_outs@.len() == 0
        &&& self.motors@.len() == 0
        &&& self.motor_groups@.len() == 0
        &&& self.hcsr04s@.len() == 0
        &&& self.max30205s@.len() == 0
        &&& self.is31fl3741s@.len() == 0
        &&& self.bmp388s@.len() == 0
        &&& self.lis3dhs@.len() == 0
        &&& self.veml7700s@.len() == 0
    }
}

impl Default for PeripheralsConfig {
    /// The layout that declares nothing.
    fn default() -> (layout: PeripheralsConfig)
        ensures
            layout.is_empty(),
    {
        PeripheralsConfig {
            i2c: None,
            digital_ins: Vec::new(),
            digital_outs: Vec::new(),
            motors: Vec::new(),
            motor_groups: Vec::new(),
            hcsr04s: Vec::new(),
            max30205s: Vec::new(),
            is31fl3741s: Vec::new(),
            bmp388s: Vec::new(),
            lis3dhs: Vec::new(),
            veml7700s: Vec::new(),
        }
    }
}

} // verus!
