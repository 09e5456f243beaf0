//! Extensions that attach to the running system at startup.

use vstd::prelude::*;

verus! {

/// Why an extension could not start.
#[derive(Clone, Debug, PartialEq, Eq)]
pub struct ComponentError {
    pub message: String,
}

/// Code that brings additional functionality to the running system.
///
/// `H` is the handle to the system that every component is given. A
/// component is initialized once, at startup; there is no teardown.
pub trait Component<H> {
    /// Called once at startup with a handle to the running system.
    fn init(&mut self, system: H) -> Result<(), ComponentError>;

    /// A unique name for this component.
    fn component_name(&self) -> &str;
}

/// A listener for newly appended aggregates.
///
/// `H` is the handle to the system. The sender keeps the subscription it is
/// given and reads it until the publisher is gone.
pub trait Sender<H> {
    /// Called once at startup with the running system and a subscription
    /// that sees every identifier published from now on.
    fn init(
        &mut self,
        system: &H,
        subscription: tokio::sync::broadcast::Receiver<uuid::Uuid>,
    ) -> Result<(), ComponentError>;

    /// A unique name for this sender.
    fn name(&self) -> &str;
}

} // verus!
