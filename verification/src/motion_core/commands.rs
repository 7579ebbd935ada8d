use vstd::prelude::*;

use super::attributes::Attribute;
use super::devices::Command as DevicesCommand;
use crate::name::Name;

verus! {

/// Why a command failed.
#[derive(Debug, PartialEq)]
pub enum CommandError {
    Failed { reason: String },
    NotFound,
}

/// What a command answers.
#[derive(Debug, PartialEq, Eq)]
pub enum CommandReply {
    EntityId(u32),
}

/// The answer to a command.
pub type CommandResult = std::result::Result<Option<CommandReply>, CommandError>;

/// A command for the world.
pub enum Command {
    Device(DevicesCommand),
}

impl Command {
    /// The command that carries a device command.
    pub fn from_device(value: DevicesCommand) -> (r: Command)
        ensures
            r == Command::Device(value),
    {
        Command::Device(value)
    }
}

/// The data of a device registration: its name and attributes.
pub struct DeviceData {
    pub name: Name,
    pub attributes: Vec<Attribute>,
}

/// A device command as the engine handles it.
pub enum DeviceCommand {
    Register(DeviceData),
}

/// The text `device with name '<name>' already exists.`.
pub open spec fn device_exists_reason(name: Seq<char>) -> Seq<char> {
    "device with name '"@ + name + "' already exists."@
}

/// The text `object with name '<name>' already exists.`.
pub open spec fn object_exists_reason(name: Seq<char>) -> Seq<char> {
    "object with name '"@ + name + "' already exists."@
}

/// Build the text `<prefix><name><suffix>`.
pub fn reason_text(prefix: &str, name: &Name, suffix: &str) -> (r: String)
    ensures
        r@ == prefix@ + name@ + suffix@,
{
    let mut s = prefix.to_owned();
    s.append(name.as_str());
    s.append(suffix);
    s
}

} // verus!
