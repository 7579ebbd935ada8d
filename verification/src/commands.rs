use vstd::prelude::*;

use crate::data::controllers::Controller;
use crate::data::motion::Mode;
use crate::data::sample::Sample;
use crate::name::Name;
use crate::scene::SceneObject;

verus! {

/// Asks the engine to send a message back.
#[derive(Debug, Clone)]
pub struct Echo(pub String);

impl Echo {
    /// An echo of the given message.
    pub fn new(message: String) -> (r: Self)
        ensures
            r.0@ == message@,
    {
        Echo(message)
    }

    /// The text of the echo, as its display shows it: `Echo(<message>)`.
    pub fn to_string(&self) -> (r: String)
        ensures
            r@ == "Echo("@ + self.0@ + ")"@,
    {
        let mut s = "Echo(".to_owned();
        s.append(self.0.as_str());
        s.append(")");
        s
    }
}

/// The event that answers an echo.
pub struct EchoEvent(pub String);

impl EchoEvent {
    /// The answer to an echo: the same message.
    pub fn from_echo(value: Echo) -> (r: Self)
        ensures
            r.0@ == value.0@,
    {
        EchoEvent(value.0)
    }
}

/// A controller introduces itself.
#[derive(Debug)]
pub struct Init {
    pub peer: Controller,
}

/// Sent by the service layer when a connection opens.
#[derive(Debug)]
pub struct OpenConnection {}

/// Sent by the service layer when a connection closes.
#[derive(Debug)]
pub struct CloseConnection {}

/// Placeholder for opening a session.
pub struct OpenSession {}

/// Switch the motion mode.
#[derive(Debug, Clone)]
pub struct ChangeMode(pub Mode);

/// A sample of controller property values.
#[derive(Debug, Clone)]
pub struct SampleMotion(pub Sample);

/// Add an object to the scene.
#[derive(Debug)]
pub struct AddSceneObject(pub SceneObject);

/// Remove every object from the scene.
#[derive(Debug)]
pub struct ClearScene {}

/// Remove an object from the scene, by name.
#[derive(Debug)]
pub struct DeleteSceneObject(pub Name);

/// Replace an object of the scene.
#[derive(Debug)]
pub struct UpdateSceneObject(pub SceneObject);

/// An internal command is not received from the client but used internally
/// to communicate between service layers and the core engine.
#[derive(Debug)]
pub enum SystemCommand {
    OpenConnection(OpenConnection),
    CloseConnection(CloseConnection),
}

/// Controller commands are received from the controller to control the
/// engine.
#[derive(Debug)]
pub enum ControllerCommand {
    Echo(Echo),
    Init(Init),
    ChangeMode(ChangeMode),
    AddSceneObject(AddSceneObject),
    ClearScene(ClearScene),
    DeleteSceneObject(DeleteSceneObject),
    UpdateSceneObject(UpdateSceneObject),
    SampleMotion(SampleMotion),
}

/// A command for the engine.
#[derive(Debug)]
pub enum Command {
    System(SystemCommand),
    Controller(ControllerCommand),
    Invalid,
}

/// A command together with the connection it came from.
#[derive(Debug)]
pub struct Message {
    pub source_id: usize,
    pub command: Command,
}

impl Message {
    /// The message that carries `command` from connection `source_id`.
    pub fn with_command(source_id: usize, command: Command) -> (r: Message)
        ensures
            r.source_id == source_id,
            r.command == command,
    {
        Message { source_id, command }
    }
}

/// A command together with the connection it came from.
pub struct Request {
    pub conn_id: usize,
    pub command: Command,
}

impl Request {
    /// The request that carries `command` from connection `conn_id`.
    pub fn with_command(conn_id: usize, command: Command) -> (r: Request)
        ensures
            r.conn_id == conn_id,
            r.command == command,
    {
        Request { conn_id, command }
    }
}

impl Command {
    /// The command of a controller.
    pub fn from_controller(value: ControllerCommand) -> (r: Command)
        ensures
            r == Command::Controller(value),
    {
        Command::Controller(value)
    }

    /// An internal command.
    pub fn from_system(value: SystemCommand) -> (r: Command)
        ensures
            r == Command::System(value),
    {
        Command::System(value)
    }
}

} // verus!
