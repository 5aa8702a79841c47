use std::collections::HashMap;
use wots::link::{create_link, delete_link, refusal, FsOp, LinkError, LinkRequest, TargetState};

#[derive(Debug, Clone, PartialEq, Eq)]
enum Node {
    Link(String),
    Other,
}

fn probe(tree: &HashMap<String, Node>, path: &str) -> TargetState {
    match tree.get(path) {
        None => TargetState::Absent,
        Some(Node::Link(_)) => TargetState::Link,
        Some(Node::Other) => TargetState::Occupied,
    }
}

fn carry_out(tree: &mut HashMap<String, Node>, ops: &[FsOp]) {
    for op in ops {
        match op {
            FsOp::Remove { target } => {
                assert_eq!(probe(tree, target), TargetState::Link);
                tree.remove(target);
            }
            FsOp::Symlink { source, target } => {
                assert_eq!(probe(tree, target), TargetState::Absent);
                tree.insert(target.clone(), Node::Link(source.clone()));
            }
        }
    }
}

fn symlink(source: &str, target: &str) -> FsOp {
    FsOp::Symlink { source: source.to_string(), target: target.to_string() }
}

fn remove(target: &str) -> FsOp {
    FsOp::Remove { target: target.to_string() }
}

#[test]
fn free_target_takes_one_creation() {
    assert_eq!(
        create_link("/proj/a", "/home/a", false, TargetState::Absent),
        Ok(vec![symlink("/proj/a", "/home/a")])
    );
    assert_eq!(
        create_link("/proj/a", "/home/a", true, TargetState::Absent),
        Ok(vec![symlink("/proj/a", "/home/a")])
    );
}

#[test]
fn link_at_target_is_replaced_with_force() {
    assert_eq!(
        create_link("/proj/a", "/home/a", true, TargetState::Link),
        Ok(vec![remove("/home/a"), symlink("/proj/a", "/home/a")])
    );
}

#[test]
fn link_at_target_is_kept_without_force() {
    assert_eq!(
        create_link("/proj/a", "/home/a", false, TargetState::Link),
        Err(LinkError::LinkAlreadyExists)
    );
}

#[test]
fn occupied_target_is_never_touched() {
    assert_eq!(
        create_link("/proj/a", "/home/a", false, TargetState::Occupied),
        Err(LinkError::TargetOccupied)
    );
    assert_eq!(
        create_link("/proj/a", "/home/a", true, TargetState::Occupied),
        Err(LinkError::TargetOccupied)
    );
}

#[test]
fn only_a_link_is_deleted() {
    assert_eq!(delete_link("/home/a", TargetState::Link), Ok(vec![remove("/home/a")]));
    assert_eq!(delete_link("/home/a", TargetState::Absent), Err(LinkError::LinkNotFound));
    assert_eq!(delete_link("/home/a", TargetState::Occupied), Err(LinkError::LinkNotFound));
}

#[test]
fn created_link_points_to_the_source() {
    let mut tree = HashMap::new();
    tree.insert("/home/other".to_string(), Node::Other);
    let ops = create_link("/proj/a", "/home/a", false, probe(&tree, "/home/a")).unwrap();
    carry_out(&mut tree, &ops);
    assert_eq!(tree.get("/home/a"), Some(&Node::Link("/proj/a".to_string())));
    assert_eq!(tree.get("/home/other"), Some(&Node::Other));
    assert_eq!(tree.len(), 2);
}

#[test]
fn deleted_link_is_gone_and_nothing_else() {
    let mut tree = HashMap::new();
    tree.insert("/home/a".to_string(), Node::Link("/proj/a".to_string()));
    tree.insert("/home/b".to_string(), Node::Link("/proj/b".to_string()));
    let ops = delete_link("/home/a", probe(&tree, "/home/a")).unwrap();
    carry_out(&mut tree, &ops);
    assert_eq!(tree.get("/home/a"), None);
    assert_eq!(tree.get("/home/b"), Some(&Node::Link("/proj/b".to_string())));
}

#[test]
fn deleting_what_is_no_link_changes_nothing() {
    let mut tree = HashMap::new();
    tree.insert("/home/a".to_string(), Node::Other);
    let before = tree.clone();
    assert_eq!(delete_link("/home/a", probe(&tree, "/home/a")), Err(LinkError::LinkNotFound));
    assert_eq!(delete_link("/home/none", probe(&tree, "/home/none")), Err(LinkError::LinkNotFound));
    assert_eq!(tree, before);
}

#[test]
fn forced_link_twice_leaves_one_link() {
    let mut tree = HashMap::new();
    for _ in 0..2 {
        let ops = create_link("/proj/a", "/home/a", true, probe(&tree, "/home/a")).unwrap();
        carry_out(&mut tree, &ops);
        assert_eq!(tree.len(), 1);
        assert_eq!(tree.get("/home/a"), Some(&Node::Link("/proj/a".to_string())));
    }
}

#[test]
fn forced_link_takes_over_a_link_to_elsewhere() {
    let mut tree = HashMap::new();
    tree.insert("/home/a".to_string(), Node::Link("/old/a".to_string()));
    let ops = create_link("/proj/a", "/home/a", true, probe(&tree, "/home/a")).unwrap();
    carry_out(&mut tree, &ops);
    assert_eq!(tree.get("/home/a"), Some(&Node::Link("/proj/a".to_string())));
}

#[test]
fn unforced_link_leaves_the_old_link() {
    let mut tree = HashMap::new();
    tree.insert("/home/a".to_string(), Node::Link("/old/a".to_string()));
    assert_eq!(
        create_link("/proj/a", "/home/a", false, probe(&tree, "/home/a")),
        Err(LinkError::LinkAlreadyExists)
    );
    assert_eq!(tree.get("/home/a"), Some(&Node::Link("/old/a".to_string())));
}

#[test]
fn real_file_at_target_survives_force() {
    let mut tree = HashMap::new();
    tree.insert("/home/a".to_string(), Node::Other);
    assert_eq!(
        create_link("/proj/a", "/home/a", true, probe(&tree, "/home/a")),
        Err(LinkError::TargetOccupied)
    );
    assert_eq!(tree.get("/home/a"), Some(&Node::Other));
}

#[test]
fn probe_tells_the_three_states_apart() {
    assert_eq!(TargetState::from_probe(true, true), TargetState::Link);
    assert_eq!(TargetState::from_probe(true, false), TargetState::Link);
    assert_eq!(TargetState::from_probe(false, true), TargetState::Occupied);
    assert_eq!(TargetState::from_probe(false, false), TargetState::Absent);
}

#[test]
fn taken_target_at_creation_is_a_race() {
    assert_eq!(
        refusal(false, &symlink("/proj/a", "/home/a"), true, "AlreadyExists"),
        LinkError::UnreachableRace
    );
}

#[test]
fn other_refusals_while_linking_are_creation_failures() {
    assert_eq!(
        refusal(false, &symlink("/proj/a", "/home/a"), false, "PermissionDenied"),
        LinkError::LinkCreateFailed { cause: "PermissionDenied".to_string() }
    );
    assert_eq!(
        refusal(false, &remove("/home/a"), false, "PermissionDenied"),
        LinkError::LinkCreateFailed { cause: "PermissionDenied".to_string() }
    );
    assert_eq!(
        refusal(false, &remove("/home/a"), true, "AlreadyExists"),
        LinkError::LinkCreateFailed { cause: "AlreadyExists".to_string() }
    );
}

#[test]
fn refusal_while_unlinking_is_a_removal_failure() {
    assert_eq!(
        refusal(true, &remove("/home/a"), false, "PermissionDenied"),
        LinkError::LinkRemoveFailed { cause: "PermissionDenied".to_string() }
    );
}

#[test]
fn request_names_the_link_after_the_source() {
    let request = LinkRequest::new("/proj/sub/a.txt", "/home/u", true, false).unwrap();
    assert_eq!(
        request,
        LinkRequest {
            source: "/proj/sub/a.txt".to_string(),
            target: "/home/u/a.txt".to_string(),
            force: true,
            delete: false,
        }
    );
}

#[test]
fn request_needs_a_source_with_a_name() {
    assert_eq!(LinkRequest::new("/", "/home/u", false, false), None);
    assert_eq!(LinkRequest::new("/proj/..", "/home/u", false, false), None);
    assert_eq!(LinkRequest::new("", "/home/u", false, false), None);
}

#[test]
fn request_plans_a_link_or_an_unlink() {
    let link = LinkRequest::new("/proj/a", "/home", false, false).unwrap();
    assert_eq!(link.plan(TargetState::Absent), Ok(vec![symlink("/proj/a", "/home/a")]));
    assert_eq!(link.plan(TargetState::Link), Err(LinkError::LinkAlreadyExists));
    let unlink = LinkRequest::new("/proj/a", "/home", false, true).unwrap();
    assert_eq!(unlink.plan(TargetState::Link), Ok(vec![remove("/home/a")]));
    assert_eq!(unlink.plan(TargetState::Absent), Err(LinkError::LinkNotFound));
}

#[test]
fn request_explains_a_refusal_by_its_kind() {
    let link = LinkRequest::new("/proj/a", "/home", true, false).unwrap();
    assert_eq!(link.failure(&symlink("/proj/a", "/home/a"), true, "x"), LinkError::UnreachableRace);
    let unlink = LinkRequest::new("/proj/a", "/home", false, true).unwrap();
    assert_eq!(
        unlink.failure(&remove("/home/a"), false, "x"),
        LinkError::LinkRemoveFailed { cause: "x".to_string() }
    );
}
