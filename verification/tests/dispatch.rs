use cadmium::codec::encode_to_vec;
use cadmium::error::{EntityKind, NotFoundError};
use cadmium::handler::{Identifiable, MessageHandler, ProjectMessageHandler};
use cadmium::idwrap::IDWrap;
use cadmium::model::{AddSketchCommand, Project, RenameCommand, Sketch, Workbench};

fn sample_project() -> Project {
    Project {
        workbenches: vec![
            Workbench {
                id: 7,
                sketches: vec![
                    Sketch { id: 42, name: b"bar".to_vec() },
                    Sketch { id: 43, name: b"other".to_vec() },
                ],
            },
            Workbench { id: 8, sketches: vec![] },
        ],
        history: vec![],
    }
}

#[test]
fn nested_rename_dispatch_applies_and_logs_once() {
    let mut project = sample_project();
    let envelope = IDWrap::new(7, IDWrap::new(42, RenameCommand { new_name: b"foo".to_vec() }));
    let entry = encode_to_vec(&envelope);
    let result = envelope.handle_project_message(&mut project);
    assert_eq!(result, Ok(None));
    assert_eq!(project.workbenches[0].sketches[0].name, b"foo".to_vec());
    assert_eq!(project.workbenches[0].sketches[1].name, b"other".to_vec());
    assert_eq!(project.workbenches[1].sketches.len(), 0);
    assert_eq!(project.history.len(), 1);
    assert_eq!(project.history[0], entry);
}

#[test]
fn unknown_workbench_returns_not_found_and_leaves_log() {
    let mut project = sample_project();
    let envelope = IDWrap::new(99, IDWrap::new(42, RenameCommand { new_name: b"foo".to_vec() }));
    let result = envelope.handle_project_message(&mut project);
    assert_eq!(
        result,
        Err(NotFoundError { id: 99, kind: EntityKind::Workbench })
    );
    assert_eq!(project.history.len(), 0);
    assert_eq!(project.workbenches[0].sketches[0].name, b"bar".to_vec());
}

#[test]
fn unknown_sketch_short_circuits_without_mutation() {
    let mut project = sample_project();
    let envelope = IDWrap::new(7, IDWrap::new(99, RenameCommand { new_name: b"foo".to_vec() }));
    let result = envelope.handle_project_message(&mut project);
    assert_eq!(result, Err(NotFoundError { id: 99, kind: EntityKind::Sketch }));
    assert_eq!(project.history.len(), 0);
    assert_eq!(project.workbenches[0].sketches[0].name, b"bar".to_vec());
    assert_eq!(project.workbenches[0].sketches[1].name, b"other".to_vec());
}

#[test]
fn add_sketch_returns_the_new_identifier() {
    let mut project = sample_project();
    let envelope = IDWrap::new(8, AddSketchCommand { sketch_id: 5, name: b"lid".to_vec() });
    let entry = encode_to_vec(&envelope);
    let result = envelope.handle_project_message(&mut project);
    assert_eq!(result, Ok(Some(5)));
    assert_eq!(project.workbenches[1].sketches.len(), 1);
    assert_eq!(project.workbenches[1].sketches[0].id, 5);
    assert_eq!(project.workbenches[1].sketches[0].name, b"lid".to_vec());
    assert_eq!(project.history.len(), 1);
    assert_eq!(project.history[0], entry);
}

#[test]
fn successive_dispatches_append_history_in_order() {
    let mut project = sample_project();
    let first = IDWrap::new(7, IDWrap::new(42, RenameCommand { new_name: b"a".to_vec() }));
    let second = IDWrap::new(8, AddSketchCommand { sketch_id: 9, name: b"b".to_vec() });
    let first_entry = encode_to_vec(&first);
    let second_entry = encode_to_vec(&second);
    first.handle_project_message(&mut project).unwrap();
    second.handle_project_message(&mut project).unwrap();
    assert_eq!(project.history.len(), 2);
    assert_eq!(project.history[0], first_entry);
    assert_eq!(project.history[1], second_entry);
}

#[test]
fn failed_dispatch_after_success_keeps_history_length() {
    let mut project = sample_project();
    let good = IDWrap::new(7, IDWrap::new(42, RenameCommand { new_name: b"a".to_vec() }));
    let bad = IDWrap::new(7, IDWrap::new(1000, RenameCommand { new_name: b"c".to_vec() }));
    good.handle_project_message(&mut project).unwrap();
    assert_eq!(project.history.len(), 1);
    let result = bad.handle_project_message(&mut project);
    assert_eq!(result, Err(NotFoundError { id: 1000, kind: EntityKind::Sketch }));
    assert_eq!(project.history.len(), 1);
}

#[test]
fn workbench_resolution_returns_matching_child() {
    let project = sample_project();
    let wb = Workbench::from_parent_id(&project, 8).unwrap();
    assert_eq!(wb.id, 8);
    let wb7 = Workbench::from_parent_id(&project, 7).unwrap();
    assert_eq!(wb7.id, 7);
    assert_eq!(wb7.sketches.len(), 2);
    assert_eq!(
        Workbench::from_parent_id(&project, 99),
        Err(NotFoundError { id: 99, kind: EntityKind::Workbench })
    );
}

#[test]
fn sketch_resolution_never_returns_a_sibling() {
    let project = sample_project();
    let wb = Workbench::from_parent_id(&project, 7).unwrap();
    let s42 = Sketch::from_parent_id(&wb, 42).unwrap();
    assert_eq!(s42.id, 42);
    assert_eq!(s42.name, b"bar".to_vec());
    let s43 = Sketch::from_parent_id(&wb, 43).unwrap();
    assert_eq!(s43.id, 43);
    assert_eq!(s43.name, b"other".to_vec());
    assert_eq!(
        Sketch::from_parent_id(&wb, 44),
        Err(NotFoundError { id: 44, kind: EntityKind::Sketch })
    );
}

#[test]
fn empty_project_resolves_nothing() {
    let project = Project::new();
    assert_eq!(project.workbenches.len(), 0);
    assert_eq!(project.history.len(), 0);
    assert_eq!(
        Workbench::from_parent_id(&project, 0),
        Err(NotFoundError { id: 0, kind: EntityKind::Workbench })
    );
}

#[test]
fn nested_dispatch_matches_manual_resolution() {
    let mut dispatched = sample_project();
    let envelope = IDWrap::new(7, IDWrap::new(42, RenameCommand { new_name: b"zz".to_vec() }));
    envelope.handle_project_message(&mut dispatched).unwrap();

    let mut manual = sample_project();
    let mut wb = Workbench::from_parent_id(&manual, 7).unwrap();
    let mut sk = Sketch::from_parent_id(&wb, 42).unwrap();
    let cmd = RenameCommand { new_name: b"zz".to_vec() };
    assert_eq!(cmd.handle_message(&mut sk), Ok(None));
    sk.put_in_parent(&mut wb, 42);
    wb.put_in_parent(&mut manual, 7);

    assert_eq!(dispatched.workbenches.len(), manual.workbenches.len());
    for (dw, mw) in dispatched.workbenches.iter().zip(manual.workbenches.iter()) {
        assert_eq!(dw.id, mw.id);
        assert_eq!(dw.sketches.len(), mw.sketches.len());
        for (ds, ms) in dw.sketches.iter().zip(mw.sketches.iter()) {
            assert_eq!(ds.id, ms.id);
            assert_eq!(ds.name, ms.name);
        }
    }
}

#[test]
fn rename_applied_one_level_deep() {
    let mut wb = Workbench {
        id: 1,
        sketches: vec![Sketch { id: 2, name: b"old".to_vec() }],
    };
    let envelope = IDWrap::new(2, RenameCommand { new_name: vec![] });
    let result = envelope.handle_message(&mut wb);
    assert_eq!(result, Ok(None));
    assert_eq!(wb.sketches[0].name, Vec::<u8>::new());
}
