use crate::configuration::module_properties::ModuleProperties;
use crate::messaging::message::Message;
use async_channel::{Receiver, Sender};
use tokio::task::JoinHandle;
use vstd::prelude::*;

verus! {

/// `tokio::task::JoinHandle`: the handle to a spawned task, which resolves
/// when the task ends. The library passes such handles on and never awaits one.
#[verifier::external_type_specification]
#[verifier::external_body]
#[verifier::reject_recursive_types(T)]
pub struct ExJoinHandle<T>(JoinHandle<T>);

/// `tokio::task::JoinError`: why a spawned task did not run to its end. It is
/// named by the declaration of `JoinHandle` and the library never holds one.
#[verifier::external_type_specification]
#[verifier::external_body]
pub struct ExJoinError(tokio::task::JoinError);

/// A module's settings do not have the shape that its type requires.
#[derive(Debug, Clone, PartialEq, Eq)]
pub struct ConfigurationError {
    pub reason: String,
}

/// A module was handed an inbox or an outbox that its kind cannot have.
#[derive(Debug, Clone, Copy, PartialEq, Eq)]
pub struct UnsupportedOperation;

/// What wiring can see of a module: what its kind is able to take, and the
/// endpoints that it holds.
pub struct ModuleState {
    pub accepts_inbox: bool,
    pub accepts_outbox: bool,
    pub inbox: Option<Receiver<Message>>,
    pub outbox: Option<Sender<Message>>,
}

/// The state of a module, as its contract exposes it.
pub open spec fn state_of<M: ModuleTrait>(module: M) -> ModuleState {
    ModuleState {
        accepts_inbox: module.accepts_inbox(),
        accepts_outbox: module.accepts_outbox(),
        inbox: module.inbox(),
        outbox: module.outbox(),
    }
}

/// What every processing unit offers: construction from its properties, an
/// optional inbox, an optional outbox, and a run that consumes it.
///
/// The three phases are strictly ordered (construct, wire, run), so that a whole
/// graph is checked and connected before any module touches a socket or a file.
pub trait ModuleTrait {
    /// Whether this kind of module can take an inbox. A pure source cannot.
    spec fn accepts_inbox(&self) -> bool;

    /// Whether this kind of module can take an outbox. A pure sink cannot.
    spec fn accepts_outbox(&self) -> bool;

    /// The receiving half that the module currently holds.
    spec fn inbox(&self) -> Option<Receiver<Message>>;

    /// The sending half that the module currently holds.
    spec fn outbox(&self) -> Option<Sender<Message>>;

    /// Builds the module from its properties. It only checks the settings: no
    /// socket is bound and no file is opened before `run`.
    fn new(configuration: ModuleProperties) -> Result<Self, ConfigurationError> where
        Self: Sized,
    ;

    /// Assigns or clears the sending half of an outgoing channel. A kind that
    /// cannot have an outbox refuses one and a refusal changes nothing; what a
    /// module is able to take is fixed by its kind. A module that overrides
    /// nothing refuses every call.
    fn set_outbox(&mut self, outbox: Option<Sender<Message>>) -> (result: Result<
        (),
        UnsupportedOperation,
    >)
        ensures
            final(self).accepts_inbox() == old(self).accepts_inbox(),
            final(self).accepts_outbox() == old(self).accepts_outbox(),
            final(self).inbox() == old(self).inbox(),
            result is Ok ==> final(self).outbox() == outbox,
            result is Err ==> final(self).outbox() == old(self).outbox(),
            !old(self).accepts_outbox() && outbox is Some ==> result is Err,
    {
        Err(UnsupportedOperation)
    }

    /// Assigns or clears the receiving half of an incoming channel. A kind that
    /// cannot have an inbox refuses one and a refusal changes nothing; what a
    /// module is able to take is fixed by its kind. A module that overrides
    /// nothing refuses every call.
    fn set_inbox(&mut self, inbox: Option<Receiver<Message>>) -> (result: Result<
        (),
        UnsupportedOperation,
    >)
        ensures
            final(self).accepts_inbox() == old(self).accepts_inbox(),
            final(self).accepts_outbox() == old(self).accepts_outbox(),
            final(self).outbox() == old(self).outbox(),
            result is Ok ==> final(self).inbox() == inbox,
            result is Err ==> final(self).inbox() == old(self).inbox(),
            !old(self).accepts_inbox() && inbox is Some ==> result is Err,
    {
        Err(UnsupportedOperation)
    }

    /// Consumes the module and starts its work as a task of its own. The task
    /// ends when the module is done or has failed beyond repair.
    fn run(self) -> JoinHandle<()>;
}

} // verus!
