//! The schema registry: the routes of the service, in the order in which they
//! were registered.
//!
//! The registry only grows, and only until the API document is built from it.
//! From then on it is frozen and refuses every registration.

use crate::error::{DomainError, ErrorView};
use crate::route::{RouteDescriptor, RouteView};
use vstd::prelude::*;

verus! {

/// The descriptors of `entries` as mathematical values, in the same order.
pub open spec fn route_views(entries: Seq<RouteDescriptor>) -> Seq<RouteView> {
    entries.map_values(|d: RouteDescriptor| d@)
}

/// A registry as a mathematical value.
pub struct RegistryView {
    /// The registered routes, oldest first.
    pub entries: Seq<RouteView>,
    /// Whether the API document has been built.
    pub frozen: bool,
}

/// The routes of the service, in registration order.
pub struct SchemaRegistry {
    entries: Vec<RouteDescriptor>,
    frozen: bool,
}

impl View for SchemaRegistry {
    type V = RegistryView;

    closed spec fn view(&self) -> RegistryView {
        RegistryView { entries: route_views(self.entries@), frozen: self.frozen }
    }
}

impl SchemaRegistry {
    /// An empty registry that accepts registrations.
    pub fn new() -> (r: SchemaRegistry)
        ensures
            r@ == (RegistryView { entries: Seq::empty(), frozen: false }),
    {
        let r = SchemaRegistry { entries: Vec::new(), frozen: false };
        assert(route_views(r.entries@) =~= Seq::empty());
        r
    }

    /// Appends `descriptor`. A frozen registry refuses it and stays as it is.
    pub fn register(&mut self, descriptor: RouteDescriptor) -> (r: Result<(), DomainError>)
        ensures
            old(self)@.frozen ==> (r matches Err(e) && e@ == ErrorView::RegistrationAfterFreezeError)
                && final(self)@ == old(self)@,
            !old(self)@.frozen ==> r is Ok && final(self)@ == (RegistryView {
                entries: old(self)@.entries.push(descriptor@),
                frozen: false,
            }),
    {
        if self.frozen {
            return Err(DomainError::RegistrationAfterFreezeError);
        }
        self.entries.push(descriptor);
        assert(route_views(self.entries@) =~= route_views(old(self).entries@).push(descriptor@));
        Ok(())
    }

    /// Every registered descriptor, in registration order.
    pub fn all_descriptors(&self) -> (r: &Vec<RouteDescriptor>)
        ensures
            route_views(r@) == self@.entries,
    {
        &self.entries
    }

    /// How many routes are registered.
    pub fn len(&self) -> (r: usize)
        ensures
            r == self@.entries.len(),
    {
        self.entries.len()
    }

    /// Whether the registry is frozen.
    pub fn is_frozen(&self) -> (r: bool)
        ensures
            r == self@.frozen,
    {
        self.frozen
    }

    /// Freezes the registry: its routes stay, and it accepts no more.
    pub fn freeze(&mut self)
        ensures
            final(self)@ == (RegistryView { entries: old(self)@.entries, frozen: true }),
    {
        self.frozen = true;
    }
}

} // verus!
