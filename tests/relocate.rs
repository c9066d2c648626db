use std::collections::HashSet;

use fileforge::relocate::{first_move_step, next_move_action, MoveAction, MoveStep};

/// Files on two volumes: a rename across them fails, and the destination
/// volume may refuse writes.
struct Disk {
    files: HashSet<String>,
    dest_full: bool,
}

fn volume(p: &str) -> &str {
    p.split('/').nth(1).unwrap()
}

fn run_move(disk: &mut Disk, source: &str, dest: &str, same_volume: bool) -> Result<(), String> {
    let mut step = first_move_step();
    loop {
        let outcome = match step {
            MoveStep::CreateParent => Ok(()),
            MoveStep::Rename => {
                if same_volume && disk.files.remove(source) {
                    disk.files.insert(dest.to_string());
                    Ok(())
                } else {
                    Err("cross-device link".to_string())
                }
            }
            MoveStep::Copy => {
                if disk.dest_full {
                    Err("no space left on device".to_string())
                } else {
                    disk.files.insert(dest.to_string());
                    Ok(())
                }
            }
            MoveStep::RemoveSource => {
                disk.files.remove(source);
                Ok(())
            }
        };
        match next_move_action(step, outcome) {
            MoveAction::Run(s) => step = s,
            MoveAction::Finish(r) => return r,
        }
    }
}

#[test]
fn same_volume_move_is_a_rename() {
    let mut disk = Disk { files: HashSet::from(["/a/x.iso".to_string()]), dest_full: false };
    assert_eq!(volume("/a/x.iso"), "a");
    assert_eq!(run_move(&mut disk, "/a/x.iso", "/b/x.iso", true), Ok(()));
    assert!(disk.files.contains("/b/x.iso"));
    assert!(!disk.files.contains("/a/x.iso"));
}

#[test]
fn failed_cross_volume_copy_keeps_source() {
    let mut disk = Disk { files: HashSet::from(["/a/x.iso".to_string()]), dest_full: true };
    let r = run_move(&mut disk, "/a/x.iso", "/b/x.iso", false);
    let e = r.unwrap_err();
    assert!(e.contains("Copy failed"));
    assert_eq!(e, "Copy failed: no space left on device");
    assert!(disk.files.contains("/a/x.iso"));
}

#[test]
fn cross_volume_move_copies_then_removes() {
    let mut disk = Disk { files: HashSet::from(["/a/x.iso".to_string()]), dest_full: false };
    assert_eq!(run_move(&mut disk, "/a/x.iso", "/b/x.iso", false), Ok(()));
    assert!(disk.files.contains("/b/x.iso"));
    assert!(!disk.files.contains("/a/x.iso"));
}

#[test]
fn each_step_failure_is_reported() {
    match next_move_action(MoveStep::CreateParent, Err("denied".to_string())) {
        MoveAction::Finish(Err(e)) => assert_eq!(e, "denied"),
        _ => panic!("expected an error"),
    }
    match next_move_action(MoveStep::RemoveSource, Err("busy".to_string())) {
        MoveAction::Finish(Err(e)) => assert_eq!(e, "Delete original failed: busy"),
        _ => panic!("expected an error"),
    }
    assert!(matches!(next_move_action(MoveStep::Rename, Err("x".to_string())), MoveAction::Run(MoveStep::Copy)));
    assert!(matches!(next_move_action(MoveStep::CreateParent, Ok(())), MoveAction::Run(MoveStep::Rename)));
    assert!(matches!(next_move_action(MoveStep::Copy, Ok(())), MoveAction::Run(MoveStep::RemoveSource)));
    assert!(matches!(next_move_action(MoveStep::RemoveSource, Ok(())), MoveAction::Finish(Ok(()))));
    assert!(matches!(next_move_action(MoveStep::Rename, Ok(())), MoveAction::Finish(Ok(()))));
    assert_eq!(first_move_step(), MoveStep::CreateParent);
}
