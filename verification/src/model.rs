//! A concrete document model for the dispatcher: a project owning
//! workbenches, each owning sketches, with the leaf commands applied to them.
//! Each type implements resolution by identifier within its declared parent,
//! forming the acyclic parent chain that dispatch walks.

use vstd::prelude::*;
use vstd::slice::slice_to_vec;

use crate::codec::{
    decode_lp_bytes, decode_u64, encode_lp_bytes, encode_u64, is_encoding_at,
    lemma_encoding_concat, spec_lp_bytes, Codec,
};
use crate::error::{EntityKind, NotFoundError};
use crate::handler::{Identifiable, MessageHandler, ProjectMessageHandler};
use crate::idwrap::IDWrap;
use crate::resolve::{
    find_keyed, lemma_find_keyed_at, lemma_find_keyed_correct, lemma_find_keyed_unique,
    lemma_replace_keyed_at, replace_keyed, unique_keys,
};
use crate::IDType;
use vstd::bytes::spec_u64_to_le_bytes;

verus! {

/// A leaf object of the document tree.
#[derive(Debug, Clone, PartialEq, Eq)]
pub struct Sketch {
    pub id: IDType,
    pub name: Vec<u8>,
}

/// A sketch at the level of views.
pub ghost struct SketchView {
    pub id: IDType,
    pub name: Seq<u8>,
}

impl View for Sketch {
    type V = SketchView;

    open spec fn view(&self) -> SketchView {
        SketchView { id: self.id, name: self.name@ }
    }
}

/// An intermediate container: resolvable from the project, owning sketches.
#[derive(Debug, Clone, PartialEq, Eq)]
pub struct Workbench {
    pub id: IDType,
    pub sketches: Vec<Sketch>,
}

/// A workbench at the level of views.
pub ghost struct WorkbenchView {
    pub id: IDType,
    pub sketches: Seq<SketchView>,
}

impl View for Workbench {
    type V = WorkbenchView;

    open spec fn view(&self) -> WorkbenchView {
        WorkbenchView { id: self.id, sketches: self.sketches@.map_values(|s: Sketch| s@) }
    }
}

/// The root container: the single owner of the document tree and of the
/// history log of applied root-level commands.
#[derive(Debug, Clone, PartialEq, Eq)]
pub struct Project {
    pub workbenches: Vec<Workbench>,
    pub history: Vec<Vec<u8>>,
}

/// A project at the level of views.
pub ghost struct ProjectView {
    pub workbenches: Seq<WorkbenchView>,
    pub history: Seq<Seq<u8>>,
}

impl View for Project {
    type V = ProjectView;

    open spec fn view(&self) -> ProjectView {
        ProjectView {
            workbenches: self.workbenches@.map_values(|w: Workbench| w@),
            history: self.history@.map_values(|h: Vec<u8>| h@),
        }
    }
}

/// The identifier a workbench is resolved by.
pub open spec fn workbench_key() -> spec_fn(WorkbenchView) -> u64 {
    |w: WorkbenchView| w.id
}

/// The identifier a sketch is resolved by.
pub open spec fn sketch_key() -> spec_fn(SketchView) -> u64 {
    |s: SketchView| s.id
}

impl WorkbenchView {
    /// Sketch identifiers are unique within a workbench; the surrounding
    /// document model maintains this.
    pub open spec fn wf(self) -> bool {
        unique_keys(self.sketches, sketch_key())
    }
}

impl ProjectView {
    /// Workbench identifiers are unique within the project, and each
    /// workbench is itself well-formed.
    pub open spec fn wf(self) -> bool {
        &&& unique_keys(self.workbenches, workbench_key())
        &&& forall|i: int| 0 <= i < self.workbenches.len() ==> (#[trigger] self.workbenches[i]).wf()
    }
}

/// A fresh buffer holding the same bytes.
fn copy_bytes(v: &Vec<u8>) -> (r: Vec<u8>)
    ensures
        r@ == v@,
{
    slice_to_vec(v.as_slice())
}

impl Sketch {
    /// A value-copy with the same view.
    fn duplicate(&self) -> (r: Sketch)
        ensures
            r@ == self@,
    {
        Sketch { id: self.id, name: copy_bytes(&self.name) }
    }
}

impl Workbench {
    /// A value-copy with the same view.
    fn duplicate(&self) -> (r: Workbench)
        ensures
            r@ == self@,
    {
        let mut sketches: Vec<Sketch> = Vec::new();
        let mut i: usize = 0;
        while i < self.sketches.len()
            invariant
                i <= self.sketches@.len(),
                sketches@.len() == i,
                forall|j: int| 0 <= j < i ==> (#[trigger] sketches@[j])@ == self.sketches@[j]@,
            decreases self.sketches@.len() - i,
        {
            let s = self.sketches[i].duplicate();
            sketches.push(s);
            i += 1;
        }
        let r = Workbench { id: self.id, sketches };
        proof {
            assert(r@.sketches =~= self@.sketches);
        }
        r
    }
}

/// Position of the first workbench carrying `id`, if any.
fn find_workbench_index(v: &Vec<Workbench>, id: IDType) -> (r: Option<usize>)
    ensures
        match r {
            Some(i) => i < v@.len() && v@[i as int]@.id == id && (forall|j: int|
                0 <= j < i ==> (#[trigger] v@[j])@.id != id),
            None => forall|j: int| 0 <= j < v@.len() ==> (#[trigger] v@[j])@.id != id,
        },
{
    let mut i: usize = 0;
    while i < v.len()
        invariant
            i <= v@.len(),
            forall|j: int| 0 <= j < i ==> (#[trigger] v@[j])@.id != id,
        decreases v@.len() - i,
    {
        if v[i].id == id {
            return Some(i);
        }
        i += 1;
    }
    None
}

/// Position of the first sketch carrying `id`, if any.
fn find_sketch_index(v: &Vec<Sketch>, id: IDType) -> (r: Option<usize>)
    ensures
        match r {
            Some(i) => i < v@.len() && v@[i as int]@.id == id && (forall|j: int|
                0 <= j < i ==> (#[trigger] v@[j])@.id != id),
            None => forall|j: int| 0 <= j < v@.len() ==> (#[trigger] v@[j])@.id != id,
        },
{
    let mut i: usize = 0;
    while i < v.len()
        invariant
            i <= v@.len(),
            forall|j: int| 0 <= j < i ==> (#[trigger] v@[j])@.id != id,
        decreases v@.len() - i,
    {
        if v[i].id == id {
            return Some(i);
        }
        i += 1;
    }
    None
}

/// A workbench is identifiable within the project.
impl Identifiable for Workbench {
    type Parent = Project;

    open spec fn kind() -> EntityKind {
        EntityKind::Workbench
    }

    open spec fn child_of(p: ProjectView, id: IDType) -> Option<WorkbenchView> {
        find_keyed(p.workbenches, workbench_key(), id)
    }

    open spec fn with_child(p: ProjectView, id: IDType, c: WorkbenchView) -> ProjectView {
        ProjectView {
            workbenches: replace_keyed(p.workbenches, workbench_key(), id, c),
            history: p.history,
        }
    }

    fn from_parent_id(parent: &Project, id: IDType) -> (r: Result<Workbench, NotFoundError>) {
        match find_workbench_index(&parent.workbenches, id) {
            Some(i) => {
                proof {
                    lemma_find_keyed_at(parent@.workbenches, workbench_key(), id, i as int);
                }
                Ok(parent.workbenches[i].duplicate())
            },
            None => {
                proof {
                    lemma_find_keyed_correct(parent@.workbenches, workbench_key(), id);
                    match find_keyed(parent@.workbenches, workbench_key(), id) {
                        Some(a) => {
                            let k = choose|k: int|
                                0 <= k < parent@.workbenches.len() && parent@.workbenches[k] == a;
                            assert((workbench_key())(parent@.workbenches[k]) == id);
                            assert(false);
                        },
                        None => {},
                    }
                }
                Err(NotFoundError { id, kind: EntityKind::Workbench })
            },
        }
    }

    fn put_in_parent(self, parent: &mut Project, id: IDType) {
        let idx = find_workbench_index(&parent.workbenches, id);
        match idx {
            Some(i) => {
                proof {
                    lemma_replace_keyed_at(
                        old(parent)@.workbenches,
                        workbench_key(),
                        id,
                        self@,
                        i as int,
                    );
                }
                let ghost before = parent@.workbenches;
                parent.workbenches[i] = self;
                proof {
                    assert(parent@.workbenches =~= before.update(i as int, self@));
                }
            },
            None => {
                proof {
                    match Workbench::child_of(old(parent)@, id) {
                        Some(a) => {
                            lemma_find_keyed_correct(old(parent)@.workbenches, workbench_key(), id);
                            let k = choose|k: int|
                                0 <= k < old(parent)@.workbenches.len() && old(
                                    parent,
                                )@.workbenches[k] == a;
                            assert((workbench_key())(old(parent)@.workbenches[k]) == id);
                            assert(false);
                        },
                        None => {
                            assert(false);
                        },
                    }
                }
            },
        }
    }
}

/// A sketch is identifiable within a workbench.
impl Identifiable for Sketch {
    type Parent = Workbench;

    open spec fn kind() -> EntityKind {
        EntityKind::Sketch
    }

    open spec fn child_of(p: WorkbenchView, id: IDType) -> Option<SketchView> {
        find_keyed(p.sketches, sketch_key(), id)
    }

    open spec fn with_child(p: WorkbenchView, id: IDType, c: SketchView) -> WorkbenchView {
        WorkbenchView { id: p.id, sketches: replace_keyed(p.sketches, sketch_key(), id, c) }
    }

    fn from_parent_id(parent: &Workbench, id: IDType) -> (r: Result<Sketch, NotFoundError>) {
        match find_sketch_index(&parent.sketches, id) {
            Some(i) => {
                proof {
                    lemma_find_keyed_at(parent@.sketches, sketch_key(), id, i as int);
                }
                Ok(parent.sketches[i].duplicate())
            },
            None => {
                proof {
                    lemma_find_keyed_correct(parent@.sketches, sketch_key(), id);
                    match find_keyed(parent@.sketches, sketch_key(), id) {
                        Some(a) => {
                            let k = choose|k: int|
                                0 <= k < parent@.sketches.len() && parent@.sketches[k] == a;
                            assert((sketch_key())(parent@.sketches[k]) == id);
                            assert(false);
                        },
                        None => {},
                    }
                }
                Err(NotFoundError { id, kind: EntityKind::Sketch })
            },
        }
    }

    fn put_in_parent(self, parent: &mut Workbench, id: IDType) {
        let idx = find_sketch_index(&parent.sketches, id);
        match idx {
            Some(i) => {
                proof {
                    lemma_replace_keyed_at(
                        old(parent)@.sketches,
                        sketch_key(),
                        id,
                        self@,
                        i as int,
                    );
                }
                let ghost before = parent@.sketches;
                parent.sketches[i] = self;
                proof {
                    assert(parent@.sketches =~= before.update(i as int, self@));
                }
            },
            None => {
                proof {
                    match Sketch::child_of(old(parent)@, id) {
                        Some(a) => {
                            lemma_find_keyed_correct(old(parent)@.sketches, sketch_key(), id);
                            let k = choose|k: int|
                                0 <= k < old(parent)@.sketches.len() && old(parent)@.sketches[k]
                                    == a;
                            assert((sketch_key())(old(parent)@.sketches[k]) == id);
                            assert(false);
                        },
                        None => {
                            assert(false);
                        },
                    }
                }
            },
        }
    }
}

impl Project {
    /// An empty project: no workbenches, no history.
    pub fn new() -> (r: Project)
        ensures
            r@ == (ProjectView { workbenches: Seq::<WorkbenchView>::empty(), history: Seq::<Seq<u8>>::empty() }),
    {
        let r = Project { workbenches: Vec::new(), history: Vec::new() };
        proof {
            assert(r@.workbenches =~= Seq::<WorkbenchView>::empty());
            assert(r@.history =~= Seq::<Seq<u8>>::empty());
        }
        r
    }

    /// Append one applied root-level command to the history log. This is the
    /// only operation that grows the log, and it grows it by exactly one.
    pub fn add_message_step(&mut self, entry: Vec<u8>)
        ensures
            final(self)@ == (ProjectView {
                workbenches: old(self)@.workbenches,
                history: old(self)@.history.push(entry@),
            }),
    {
        let ghost before = self@.history;
        self.history.push(entry);
        proof {
            assert(self@.history =~= before.push(entry@));
        }
    }
}

/// Renames the sketch it is dispatched to; never fails, returns no new
/// identifier.
#[derive(Debug, Clone, PartialEq, Eq)]
pub struct RenameCommand {
    pub new_name: Vec<u8>,
}

/// A rename at the level of views.
pub ghost struct RenameCommandView {
    pub new_name: Seq<u8>,
}

impl View for RenameCommand {
    type V = RenameCommandView;

    open spec fn view(&self) -> RenameCommandView {
        RenameCommandView { new_name: self.new_name@ }
    }
}

impl MessageHandler for RenameCommand {
    type Parent = Sketch;

    open spec fn outcome(self, s: SketchView) -> Result<
        (SketchView, Option<IDType>),
        NotFoundError,
    > {
        Ok((SketchView { id: s.id, name: self.new_name@ }, None))
    }

    fn handle_message(&self, parent: &mut Sketch) -> (r: Result<Option<IDType>, NotFoundError>) {
        parent.name = copy_bytes(&self.new_name);
        Ok(None)
    }
}

impl Codec for RenameCommand {
    open spec fn encoding(self) -> Seq<u8> {
        spec_lp_bytes(self.new_name@)
    }

    fn encode(&self, out: &mut Vec<u8>) {
        encode_lp_bytes(&self.new_name, out);
    }

    fn decode(data: &Vec<u8>, pos: usize) -> (r: Option<(Self, usize)>) {
        match decode_lp_bytes(data, pos) {
            Some((name, end)) => Some((RenameCommand { new_name: name }, end)),
            None => None,
        }
    }
}

/// Adds a sketch with the given identifier and name to the workbench it is
/// dispatched to; never fails, returns the new sketch's identifier.
#[derive(Debug, Clone, PartialEq, Eq)]
pub struct AddSketchCommand {
    pub sketch_id: IDType,
    pub name: Vec<u8>,
}

/// An addition at the level of views.
pub ghost struct AddSketchCommandView {
    pub sketch_id: IDType,
    pub name: Seq<u8>,
}

impl View for AddSketchCommand {
    type V = AddSketchCommandView;

    open spec fn view(&self) -> AddSketchCommandView {
        AddSketchCommandView { sketch_id: self.sketch_id, name: self.name@ }
    }
}

impl MessageHandler for AddSketchCommand {
    type Parent = Workbench;

    open spec fn outcome(self, w: WorkbenchView) -> Result<
        (WorkbenchView, Option<IDType>),
        NotFoundError,
    > {
        Ok(
            (
                WorkbenchView {
                    id: w.id,
                    sketches: w.sketches.push(SketchView { id: self.sketch_id, name: self.name@ }),
                },
                Some(self.sketch_id),
            ),
        )
    }

    fn handle_message(&self, parent: &mut Workbench) -> (r: Result<Option<IDType>, NotFoundError>) {
        let ghost before = parent@.sketches;
        let s = Sketch { id: self.sketch_id, name: copy_bytes(&self.name) };
        let ghost sv = s@;
        parent.sketches.push(s);
        proof {
            assert(parent@.sketches =~= before.push(sv));
        }
        Ok(Some(self.sketch_id))
    }
}

impl Codec for AddSketchCommand {
    open spec fn encoding(self) -> Seq<u8> {
        spec_u64_to_le_bytes(self.sketch_id) + spec_lp_bytes(self.name@)
    }

    fn encode(&self, out: &mut Vec<u8>) {
        encode_u64(self.sketch_id, out);
        encode_lp_bytes(&self.name, out);
        proof {
            assert(out@ =~= old(out)@ + self.encoding());
        }
    }

    fn decode(data: &Vec<u8>, pos: usize) -> (r: Option<(Self, usize)>) {
        proof {
            vstd::bytes::lemma_auto_spec_u64_to_from_le_bytes();
        }
        match decode_u64(data, pos) {
            None => {
                proof {
                    assert forall|v: Self| !is_encoding_at(
                        data@,
                        pos as int,
                        #[trigger] v.encoding(),
                    ) by {
                        lemma_encoding_concat(
                            data@,
                            pos as int,
                            spec_u64_to_le_bytes(v.sketch_id),
                            spec_lp_bytes(v.name@),
                        );
                    }
                }
                None
            },
            Some((sketch_id, mid)) => {
                match decode_lp_bytes(data, mid) {
                    None => {
                        proof {
                            assert forall|v: Self| !is_encoding_at(
                                data@,
                                pos as int,
                                #[trigger] v.encoding(),
                            ) by {
                                lemma_encoding_concat(
                                    data@,
                                    pos as int,
                                    spec_u64_to_le_bytes(v.sketch_id),
                                    spec_lp_bytes(v.name@),
                                );
                            }
                        }
                        None
                    },
                    Some((name, end)) => {
                        let c = AddSketchCommand { sketch_id, name };
                        proof {
                            lemma_encoding_concat(
                                data@,
                                pos as int,
                                spec_u64_to_le_bytes(sketch_id),
                                spec_lp_bytes(c.name@),
                            );
                            assert forall|v: Self|
                                is_encoding_at(
                                    data@,
                                    pos as int,
                                    #[trigger] v.encoding(),
                                ) implies v@ == c@ && end == pos + v.encoding().len() by {
                                lemma_encoding_concat(
                                    data@,
                                    pos as int,
                                    spec_u64_to_le_bytes(v.sketch_id),
                                    spec_lp_bytes(v.name@),
                                );
                                assert(v.sketch_id == sketch_id);
                                assert(v.name@ == name@);
                            }
                        }
                        Some((c, end))
                    },
                }
            },
        }
    }
}

/// Resolution correctness at the project level: in a well-formed project, a
/// workbench identifier resolves to the unique workbench carrying it — never
/// to a sibling.
pub proof fn lemma_project_resolution_correct(p: ProjectView, id: IDType, i: int)
    requires
        p.wf(),
        0 <= i < p.workbenches.len(),
        p.workbenches[i].id == id,
    ensures
        Workbench::child_of(p, id) == Some(p.workbenches[i]),
{
    lemma_find_keyed_unique(p.workbenches, workbench_key(), id, i);
}

/// Resolution correctness at the workbench level: in a well-formed workbench,
/// a sketch identifier resolves to the unique sketch carrying it — never to a
/// sibling.
pub proof fn lemma_workbench_resolution_correct(w: WorkbenchView, id: IDType, i: int)
    requires
        w.wf(),
        0 <= i < w.sketches.len(),
        w.sketches[i].id == id,
    ensures
        Sketch::child_of(w, id) == Some(w.sketches[i]),
{
    lemma_find_keyed_unique(w.sketches, sketch_key(), id, i);
}

/// A doubly nested dispatch, unfolded: routing an envelope through a
/// workbench to a sketch rename equals resolving the workbench, resolving the
/// sketch inside it, renaming that sketch, writing both back, and appending
/// the original envelope's wire form to the history log.
pub proof fn lemma_two_level_dispatch(
    w: IDWrap<IDWrap<RenameCommand>>,
    p: ProjectView,
    wv: WorkbenchView,
    sv: SketchView,
)
    requires
        Workbench::child_of(p, w.id) == Some(wv),
        Sketch::child_of(wv, w.inner.id) == Some(sv),
    ensures
        <IDWrap<IDWrap<RenameCommand>> as ProjectMessageHandler>::project_outcome(w, p) == Ok::<
            (ProjectView, Option<IDType>),
            NotFoundError,
        >(
            (
                ProjectView {
                    workbenches: replace_keyed(
                        p.workbenches,
                        workbench_key(),
                        w.id,
                        WorkbenchView {
                            id: wv.id,
                            sketches: replace_keyed(
                                wv.sketches,
                                sketch_key(),
                                w.inner.id,
                                SketchView { id: sv.id, name: w.inner.inner.new_name@ },
                            ),
                        },
                    ),
                    history: p.history.push(w.encoding()),
                },
                None,
            ),
        ),
{
}

} // verus!


