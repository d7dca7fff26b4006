//! Verified core of a command line client for the Crazyflie family of drones.

pub mod address;
pub mod cli;
pub mod completion;
pub mod config;
pub mod console;
pub mod deck;
pub mod eeprom;
pub mod error;
pub mod flash;
pub mod flash_run;
pub mod lifecycle;
pub mod memory;
pub mod number;
pub mod platform;
pub mod scan;
pub mod select;
pub mod session;
pub mod text;
pub mod text_map;
