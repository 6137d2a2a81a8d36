//! DOM element operations that the renderer needs from the host page.
use vstd::prelude::*;

verus! {

/// Operations on a DOM element that the renderer performs.
pub trait ElementExt {
    /// Removes the attribute `name`, or clears the property of that name
    /// for the attributes that are properties (such as `value`).
    fn remove_attribute_or_property(&self, name: &str);

    /// Sets the attribute `name`, or the property of that name for the
    /// attributes that are properties.
    fn set_attribute_or_property(&self, name: &str, value: &str);

    /// Records that the signal at `addr` drives this element.
    fn track_signal_addr(&self, addr: usize);
}

} // verus!
