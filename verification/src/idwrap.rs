//! The identifier-wrapped command envelope.

use vstd::prelude::*;

use crate::IDType;

verus! {

/// Pairs the identifier of a target child with an arbitrary command payload.
///
/// The envelope carries no semantics of its own beyond "route by id, then
/// forward": the identifier names a child within whatever parent resolves it
/// at dispatch time, and the payload is opaque until it reaches its target.
/// No validation happens at construction; the identifier is only meaningful
/// relative to a specific parent during dispatch.
#[derive(Clone, Debug)]
pub struct IDWrap<T> {
    pub id: IDType,
    pub inner: T,
}

/// An envelope at the level of views: the identifier and the payload's view.
pub ghost struct IDWrapView<V> {
    pub id: IDType,
    pub inner: V,
}

impl<T: View> View for IDWrap<T> {
    type V = IDWrapView<<T as View>::V>;

    open spec fn view(&self) -> IDWrapView<<T as View>::V> {
        IDWrapView { id: self.id, inner: self.inner@ }
    }
}

impl<T> IDWrap<T> {
    /// Construct an envelope addressing the child `id` with payload `h`.
    pub fn new(id: IDType, h: T) -> (w: Self)
        ensures
            w == (IDWrap { id, inner: h }),
    {
        Self { id, inner: h }
    }

    /// The identifier of the addressed child.
    pub fn id(&self) -> (r: IDType)
        ensures
            r == self.id,
    {
        self.id
    }

    /// Read-only access to the payload; the envelope never mutates it.
    pub fn inner(&self) -> (r: &T)
        ensures
            r == &self.inner,
    {
        &self.inner
    }
}

} // verus!
