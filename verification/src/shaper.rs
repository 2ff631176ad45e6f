//! Per-route response shaping: which step a route's seam takes, and the
//! run-time backstop that fails a request closed when a masking extractor
//! ran on a route no shaper armed.
use vstd::prelude::*;

verus! {

/// What a route's shaping seam does with one request.
#[derive(Clone, Copy, Debug, PartialEq, Eq, Structural)]
pub enum ShapingStep {
    /// An armed shaper captured the request: it wraps the handler.
    Shape,
    /// Nothing shapes it, but the route carries extractors: run it inside a
    /// mask probe.
    Probe,
    /// Run the handler as it is.
    Plain,
}

/// The step for a request. A shaper that captured wins, and an armed route
/// runs no probe scope; a capture that declined leaves the request to the
/// unshaped path, probed when the route asks for it.
pub fn shaping_step(captured: bool, probed: bool) -> (r: ShapingStep)
    ensures
        r == (if captured {
            ShapingStep::Shape
        } else if probed {
            ShapingStep::Probe
        } else {
            ShapingStep::Plain
        }),
{
    if captured {
        ShapingStep::Shape
    } else if probed {
        ShapingStep::Probe
    } else {
        ShapingStep::Plain
    }
}

/// The run-time backstop behind the type-directed arm: an extractor reached
/// indirectly arms nothing, so its route runs inside a probe, and a mark on
/// a success response fails the request closed instead of shipping unmasked
/// fields.
#[derive(Clone, Copy, Debug)]
pub struct MaskProbe;

impl MaskProbe {
    /// Whether a probed response fails closed (answered `500`): a masking
    /// extractor marked the request and the response is a success (`2xx`).
    /// Anything else passes through untouched.
    pub fn fails_closed(marked: bool, status: u16) -> (r: bool)
        ensures
            r == (marked && 200 <= status && status <= 299),
    {
        marked && 200 <= status && status <= 299
    }
}

} // verus!
