//! Configuration, and what one readout of a supply yields.
//!
//! Register values stay in their LINEAR11 form here; turning them into
//! physical quantities is floating-point work that happens outside.

use vstd::prelude::*;
use crate::linear11::Linear11;

verus! {

/// Which serial devices to open.
#[derive(Clone)]
pub struct Config {
    pub device_paths: Vec<String>,
}

impl Config {
    /// One device, `/dev/ttyUSB0`.
    pub fn default() -> (c: Config)
        ensures
            c.device_paths@.len() == 1,
            c.device_paths@[0]@ == "/dev/ttyUSB0"@,
    {
        let mut paths: Vec<String> = Vec::new();
        paths.push(String::from_str("/dev/ttyUSB0"));
        Config { device_paths: paths }
    }
}

/// The fan controller's mode, from the first byte of register 0xf0.
#[derive(Clone, Copy, Debug, PartialEq, Eq, Structural)]
pub enum FanMode {
    Auto,
    Fixed,
    Unknown,
}

/// One output rail (12V, 5V or 3.3V) on the main PMBus page.
#[derive(Clone, Copy, Debug, PartialEq, Eq, Structural)]
pub struct RailReadings {
    pub voltage: Linear11,
    pub current: Linear11,
    pub power: Linear11,
}

/// One of the twelve virtual 12V pages.
#[derive(Clone, Copy, Debug, PartialEq, Eq, Structural)]
pub struct TwelveVPageReadings {
    pub page: u8,
    pub voltage: Linear11,
    pub current: Linear11,
    pub power: Linear11,
    pub ocp_limit: Linear11,
}

/// Everything one readout yields, in register form.
#[derive(Clone, Debug)]
pub struct PsuReadings {
    pub bus: u8,
    pub address: u8,
    pub name: String,
    pub input_voltage: Linear11,
    pub input_current: Linear11,
    /// Register 0x97, the supply's own input-power reading.
    pub input_power_raw: Linear11,
    pub cable_type_20a: bool,
    pub fan_mode: FanMode,
    pub rails: Vec<RailReadings>,
    pub twelve_v_pages: Vec<TwelveVPageReadings>,
    pub temp1: Linear11,
    pub temp2: Linear11,
    pub fan_speed: Linear11,
    pub uptime_seconds: u32,
}

/// The mathematical value of a readout.
pub struct ReadingsView {
    pub bus: u8,
    pub address: u8,
    pub name: Seq<char>,
    pub input_voltage: Linear11,
    pub input_current: Linear11,
    pub input_power_raw: Linear11,
    pub cable_type_20a: bool,
    pub fan_mode: FanMode,
    pub rails: Seq<RailReadings>,
    pub twelve_v_pages: Seq<TwelveVPageReadings>,
    pub temp1: Linear11,
    pub temp2: Linear11,
    pub fan_speed: Linear11,
    pub uptime_seconds: u32,
}

impl View for PsuReadings {
    type V = ReadingsView;

    open spec fn view(&self) -> ReadingsView {
        ReadingsView {
            bus: self.bus,
            address: self.address,
            name: self.name@,
            input_voltage: self.input_voltage,
            input_current: self.input_current,
            input_power_raw: self.input_power_raw,
            cable_type_20a: self.cable_type_20a,
            fan_mode: self.fan_mode,
            rails: self.rails@,
            twelve_v_pages: self.twelve_v_pages@,
            temp1: self.temp1,
            temp2: self.temp2,
            fan_speed: self.fan_speed,
            uptime_seconds: self.uptime_seconds,
        }
    }
}

} // verus!
