//! The dispatch mechanism: resolve the addressed child inside its parent,
//! apply the payload to it, and — at the root level only — record the
//! original envelope in the project's history log.

use vstd::prelude::*;

use crate::codec::{encode_to_vec, Codec};
use crate::error::{EntityKind, NotFoundError};
use crate::idwrap::IDWrap;
use crate::model::{Project, ProjectView, Workbench};
use crate::IDType;

verus! {

/// A node type that can be located inside its declared parent by identifier.
///
/// Resolution is pure: it never mutates the tree. Together with
/// `put_in_parent` it is the sole primitive dispatch composes; `child_of` and
/// `with_child` are its view-level model.
pub trait Identifiable: Sized + View {
    type Parent: View;

    /// The kind a failed resolution names.
    spec fn kind() -> EntityKind;

    /// The unique child of `p` carrying identifier `id`, if any.
    spec fn child_of(p: <Self::Parent as View>::V, id: IDType) -> Option<Self::V>;

    /// `p` with the child carrying `id` replaced by `c`; every other part of
    /// `p` is kept.
    spec fn with_child(p: <Self::Parent as View>::V, id: IDType, c: Self::V) -> <Self::Parent as View>::V;

    /// Resolve the child of `parent` carrying `id`, or fail with NotFound
    /// naming `id` and the expected kind — exactly when no child carries `id`.
    fn from_parent_id(parent: &Self::Parent, id: IDType) -> (r: Result<Self, NotFoundError>)
        ensures
            match r {
                Ok(c) => Self::child_of(parent@, id) == Some(c@),
                Err(e) => Self::child_of(parent@, id) is None && e == (NotFoundError {
                    id,
                    kind: Self::kind(),
                }),
            },
    ;

    /// Write `self` back over the child of `parent` carrying `id`.
    fn put_in_parent(self, parent: &mut Self::Parent, id: IDType)
        requires
            Self::child_of(old(parent)@, id) is Some,
        ensures
            final(parent)@ == Self::with_child(old(parent)@, id, self@),
    ;
}

/// A command payload that can be applied to a resolved parent.
///
/// `outcome` is the payload's view-level meaning: what it does to the parent
/// and what it returns. `handle_message` must realize exactly that outcome —
/// in particular, on failure the parent is left untouched.
pub trait MessageHandler: Sized {
    type Parent: View;

    /// What handling `self` against a parent in state `p` does: the new state
    /// and the identifier of a newly created entity (if one), or the failure
    /// it propagates.
    spec fn outcome(self, p: <Self::Parent as View>::V) -> Result<
        (<Self::Parent as View>::V, Option<IDType>),
        NotFoundError,
    >;

    fn handle_message(&self, parent: &mut Self::Parent) -> (r: Result<Option<IDType>, NotFoundError>)
        ensures
            match Self::outcome(*self, old(parent)@) {
                Ok((p2, res)) => r == Ok::<Option<IDType>, NotFoundError>(res) && final(parent)@
                    == p2,
                Err(e) => r == Err::<Option<IDType>, NotFoundError>(e) && final(parent)@ == old(
                    parent,
                )@,
            },
    ;
}

/// Nested dispatch: an envelope addressed to a child `C` of some parent is
/// itself a payload for that parent. It resolves `C` by its identifier,
/// forwards the inner payload to the resolved child, and writes the child
/// back — no logging, no other bookkeeping. Chaining this implementation
/// composes dispatch to any depth.
impl<T, C, P> MessageHandler for IDWrap<T> where
    T: MessageHandler<Parent = C>,
    C: Identifiable<Parent = P>,
    P: View,
 {
    type Parent = P;

    open spec fn outcome(self, p: <P as View>::V) -> Result<
        (<P as View>::V, Option<IDType>),
        NotFoundError,
    > {
        match C::child_of(p, self.id) {
            Some(cv) => match T::outcome(self.inner, cv) {
                Ok((cv2, res)) => Ok((C::with_child(p, self.id, cv2), res)),
                Err(e) => Err(e),
            },
            None => Err(NotFoundError { id: self.id, kind: C::kind() }),
        }
    }

    fn handle_message(&self, parent: &mut P) -> (r: Result<Option<IDType>, NotFoundError>) {
        let resolved = C::from_parent_id(&*parent, self.id);
        match resolved {
            Ok(mut child) => {
                let inner_result = self.inner.handle_message(&mut child);
                match inner_result {
                    Ok(res) => {
                        child.put_in_parent(parent, self.id);
                        Ok(res)
                    },
                    Err(e) => Err(e),
                }
            },
            Err(e) => Err(e),
        }
    }
}

/// Recursion transparency: dispatching an envelope nested around a payload is
/// the same as resolving the addressed child by hand, applying the payload to
/// it directly, and writing the result back. Applied once per level, this
/// unfolds a dispatch nested to any depth into the chain of manual
/// resolutions it stands for.
pub proof fn lemma_recursion_transparency<T, C, P>(
    w: IDWrap<T>,
    p: <P as View>::V,
    cv: <C as View>::V,
) where T: MessageHandler<Parent = C>, C: Identifiable<Parent = P>, P: View
    requires
        C::child_of(p, w.id) == Some(cv),
    ensures
        <IDWrap<T> as MessageHandler>::outcome(w, p) == (match T::outcome(w.inner, cv) {
            Ok((cv2, res)) => Ok::<(<P as View>::V, Option<IDType>), NotFoundError>(
                (C::with_child(p, w.id, cv2), res),
            ),
            Err(e) => Err::<(<P as View>::V, Option<IDType>), NotFoundError>(e),
        }),
{
}

/// Failure short-circuit: when resolution of the addressed child fails, or
/// the inner payload fails, nested dispatch propagates that failure
/// unchanged — and its contract then guarantees the parent, and with it every
/// level of the tree, is left exactly as it was.
pub proof fn lemma_failure_short_circuit<T, C, P>(
    w: IDWrap<T>,
    p: <P as View>::V,
) where T: MessageHandler<Parent = C>, C: Identifiable<Parent = P>, P: View
    ensures
        C::child_of(p, w.id) is None ==> <IDWrap<T> as MessageHandler>::outcome(w, p) == Err::<
            (<P as View>::V, Option<IDType>),
            NotFoundError,
        >(NotFoundError { id: w.id, kind: C::kind() }),
        C::child_of(p, w.id) matches Some(cv) ==> (T::outcome(w.inner, cv) matches Err(e)
            ==> <IDWrap<T> as MessageHandler>::outcome(w, p) == Err::<
            (<P as View>::V, Option<IDType>),
            NotFoundError,
        >(e)),
{
}

/// Root-level dispatch: the single entry point of the whole mechanism, and
/// the single place where the history log is mutated.
///
/// Its contract carries the logging law: a dispatch that succeeds grows the
/// project's history log by exactly one entry; a dispatch that fails — at any
/// nesting level — leaves the project, history log included, exactly as it
/// was.
pub trait ProjectMessageHandler: Sized {
    /// What dispatching `self` at the root does to the whole project: the new
    /// project state (history log included) and the optional identifier of a
    /// newly created entity, or the failure it propagates.
    spec fn project_outcome(self, p: ProjectView) -> Result<
        (ProjectView, Option<IDType>),
        NotFoundError,
    >;

    fn handle_project_message(&self, project: &mut Project) -> (r: Result<
        Option<IDType>,
        NotFoundError,
    >)
        ensures
            match Self::project_outcome(*self, old(project)@) {
                Ok((p2, res)) => r == Ok::<Option<IDType>, NotFoundError>(res) && final(project)@
                    == p2,
                Err(e) => r == Err::<Option<IDType>, NotFoundError>(e) && final(project)@ == old(
                    project,
                )@,
            },
            r is Ok ==> final(project)@.history.len() == old(project)@.history.len() + 1,
            r is Err ==> final(project)@.history == old(project)@.history,
    ;
}

/// First-level dispatch: resolve the workbench the envelope addresses, apply
/// the payload to it, write it back, and append the original envelope — not
/// the result — to the project's history log. Failure in resolution or in the
/// payload aborts before the log is touched.
impl<T> ProjectMessageHandler for IDWrap<T> where
    T: MessageHandler<Parent = Workbench> + Codec,
 {
    open spec fn project_outcome(self, p: ProjectView) -> Result<
        (ProjectView, Option<IDType>),
        NotFoundError,
    > {
        match Workbench::child_of(p, self.id) {
            Some(wv) => match T::outcome(self.inner, wv) {
                Ok((wv2, res)) => {
                    let tree = Workbench::with_child(p, self.id, wv2);
                    Ok(
                        (
                            ProjectView {
                                workbenches: tree.workbenches,
                                history: tree.history.push(self.encoding()),
                            },
                            res,
                        ),
                    )
                },
                Err(e) => Err(e),
            },
            None => Err(NotFoundError { id: self.id, kind: EntityKind::Workbench }),
        }
    }

    fn handle_project_message(&self, project: &mut Project) -> (r: Result<
        Option<IDType>,
        NotFoundError,
    >) {
        let resolved = Workbench::from_parent_id(&*project, self.id);
        match resolved {
            Ok(mut wb) => {
                let inner_result = self.inner.handle_message(&mut wb);
                match inner_result {
                    Ok(res) => {
                        let entry = encode_to_vec(self);
                        wb.put_in_parent(project, self.id);
                        project.add_message_step(entry);
                        Ok(res)
                    },
                    Err(e) => Err(e),
                }
            },
            Err(e) => Err(e),
        }
    }
}

/// The log records the original envelope: a successful root dispatch appends
/// exactly the dispatched envelope's own wire form — never the result, never
/// only the leaf command — to the history log.
pub proof fn lemma_root_logs_original<T>(w: IDWrap<T>, p: ProjectView) where
    T: MessageHandler<Parent = Workbench> + Codec,
    ensures
        <IDWrap<T> as ProjectMessageHandler>::project_outcome(w, p) matches Ok((p2, res))
            ==> p2.history == p.history.push(w.encoding()),
{
}

} // verus!


