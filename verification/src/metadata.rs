//! Handler-attached metadata — the seam a layer reads at decision time — and
//! the markers the framework itself attaches: `#[public]` on a handler, a
//! mapped error on a response, an active global guard pool.
use vstd::prelude::*;

verus! {

/// Marker attached when a handler is `#[public]`. The framework does not act
/// on it; guards read it through [`HandlerMetadata::is_public`].
#[derive(Copy, Clone, Debug, PartialEq, Eq, Structural)]
pub struct Public;

/// Marker on a response produced by mapping a handler error: the handler
/// failed, so whatever it wrote in the ambient transaction must roll back,
/// and the edge boundary leaves its body alone.
#[derive(Copy, Clone, Debug, PartialEq, Eq, Structural)]
pub struct MappedError;

/// Marker provided when at least one global guard is registered; the
/// transport reads it to decide whether an endpoint it cannot shape is a
/// fail-secure violation.
#[derive(Copy, Clone, Debug, PartialEq, Eq, Structural)]
pub struct GlobalGuardsActive;

/// The HTTP activation seam an app module imports.
#[derive(Copy, Clone, Debug, PartialEq, Eq, Structural)]
pub struct HttpModule;

/// Typed read access to the metadata attached to the current handler.
pub trait HandlerMetadata {
    /// The attached value of type `M`, or `None` when none was attached.
    fn get<M: 'static + Send + Sync>(&self) -> Option<&M>;

    /// Whether the handler was marked `#[public]`.
    fn is_public(&self) -> (r: bool)
        ensures
            exists|o: Option<&Public>| call_ensures(Self::get::<Public>, (self,), o) && r == (o is Some),
    {
        self.get::<Public>().is_some()
    }
}

} // verus!
