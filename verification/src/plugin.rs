//! What the description of a plugin depends on in the function that creates
//! it.

use vstd::prelude::*;

verus! {

/// How a plugin's creation function is called.
#[derive(Clone, Copy, Debug, PartialEq, Eq, Structural)]
pub enum FactoryKind {
    /// The function takes a log level after its other arguments.
    WithLogging,
    WithoutLogging,
}

/// A function may take a log level after the arguments that every creation
/// function of its kind takes.
pub open spec fn spec_factory_kind(required: usize, inputs: usize) -> FactoryKind {
    if inputs > required {
        FactoryKind::WithLogging
    } else {
        FactoryKind::WithoutLogging
    }
}

/// How the creation function of a connector is called, by the number of its
/// parameters: a connector is created from its arguments alone.
pub fn connector_factory(inputs: usize) -> (kind: FactoryKind)
    ensures
        kind == spec_factory_kind(1, inputs),
{
    if inputs > 1 {
        FactoryKind::WithLogging
    } else {
        FactoryKind::WithoutLogging
    }
}

/// How the creation function of an operating-system layer is called, by the
/// number of its parameters: a layer is created from its arguments and a
/// connector.
pub fn os_layer_factory(inputs: usize) -> (kind: FactoryKind)
    ensures
        kind == spec_factory_kind(2, inputs),
{
    if inputs > 2 {
        FactoryKind::WithLogging
    } else {
        FactoryKind::WithoutLogging
    }
}

} // verus!
