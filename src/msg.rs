//! Control commands: start or stop a bridge, with its configuration.
use vstd::prelude::*;
use crate::text::{chars_of, is_line};

verus! {

/// A control command.
#[derive(Debug)]
pub enum Message {
    StartAction(Config),
    StopAction(Config),
}

/// What a bridge is started with.
#[derive(Debug)]
pub struct Config {
    /// The network bus device, which also identifies the bridge.
    pub host_device: String,
    pub baudrate: Baudrate,
    pub plugin: Plugin,
}

/// The backend of a bridge.
#[derive(Debug)]
pub enum Plugin {
    Lin(Lin),
    Simulator(Simulator),
}

/// A hardware bus adapter.
#[derive(Debug)]
pub struct Lin {
    pub driver: String,
    /// Defaults to the host device.
    pub name: Option<String>,
    pub host_mode: HostMode,
    pub device_id: String,
    pub base_tick_ms: BaseTick,
}

/// A simulated bus, played from a schedule file.
#[derive(Debug)]
pub struct Simulator {
    pub driver: String,
    pub name: String,
    pub host_mode: HostMode,
    pub schedule_table_name: String,
    /// Path of the schedule file.
    pub database: String,
}

/// The role that the local side of the bus plays.
#[derive(Debug, Clone, Copy, PartialEq, Eq, Structural)]
pub enum HostMode {
    Slave,
    Master,
}

/// Bus speed in bits per second.
#[derive(Debug, Clone, Copy, PartialEq, Eq, Structural)]
pub struct Baudrate(pub u32);

impl Default for Baudrate {
    fn default() -> (r: Self)
        ensures
            r.0 == 19_200,
    {
        Baudrate(19_200)
    }
}

/// Base tick in milliseconds.
#[derive(Debug, Clone, Copy, PartialEq, Eq, Structural)]
pub struct BaseTick(pub u32);

impl Default for BaseTick {
    fn default() -> (r: Self)
        ensures
            r.0 == 5,
    {
        BaseTick(5)
    }
}

/// The name a simulator gets where none is given.
pub fn default_simulator_name() -> (r: String)
    ensures
        r@ == "simulator"@,
{
    "simulator".to_string()
}

/// Which shape a plugin configuration has.
#[derive(Debug, Clone, Copy, PartialEq, Eq, Structural)]
pub enum PluginKind {
    Lin,
    Simulator,
}

/// Why a command was refused.
#[derive(Debug, Clone, Copy, PartialEq, Eq, Structural)]
pub enum ConfigError {
    UnknownPluginType,
}

/// The plugin shape that a `type` tag selects: an absent tag means `lin`.
pub open spec fn plugin_kind_of(tag: Option<Seq<char>>) -> Result<PluginKind, ConfigError> {
    match tag {
        None => Ok(PluginKind::Lin),
        Some(t) => if t == "lin"@ {
            Ok(PluginKind::Lin)
        } else if t == "simulator"@ {
            Ok(PluginKind::Simulator)
        } else {
            Err(ConfigError::UnknownPluginType)
        },
    }
}

/// Reads the `type` tag of a plugin configuration; see [`plugin_kind_of`].
pub fn plugin_kind(tag: Option<&str>) -> (r: Result<PluginKind, ConfigError>)
    ensures
        r == plugin_kind_of(
            match tag {
                Some(t) => Some(t@),
                None => None,
            },
        ),
{
    match tag {
        None => Ok(PluginKind::Lin),
        Some(t) => {
            let cs = chars_of(t);
            if is_line(&cs, "lin") {
                Ok(PluginKind::Lin)
            } else if is_line(&cs, "simulator") {
                Ok(PluginKind::Simulator)
            } else {
                Err(ConfigError::UnknownPluginType)
            }
        },
    }
}

} // verus!
