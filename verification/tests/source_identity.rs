use capture_session::{CaptureFilter, CaptureSource};
use std::collections::hash_map::DefaultHasher;
use std::collections::HashMap;
use std::hash::{Hash, Hasher};

fn hash_of(source: &CaptureSource) -> u64 {
    let mut hasher = DefaultHasher::new();
    source.hash(&mut hasher);
    hasher.finish()
}

#[test]
fn toplevels_with_equal_identity_are_equal() {
    let a = CaptureSource::Toplevel(41);
    let b = CaptureSource::Toplevel(41);
    assert_eq!(a, b);
    assert!(a == b);
}

#[test]
fn toplevels_with_different_identity_differ() {
    assert_ne!(CaptureSource::Toplevel(41), CaptureSource::Toplevel(42));
}

#[test]
fn toplevel_never_equals_workspace() {
    assert_ne!(CaptureSource::Toplevel(7), CaptureSource::Workspace(7, 7));
    assert_ne!(CaptureSource::Toplevel(0), CaptureSource::Workspace(0, 0));
    assert_ne!(CaptureSource::Workspace(1, 2), CaptureSource::Toplevel(1));
    assert_ne!(CaptureSource::Workspace(1, 2), CaptureSource::Toplevel(2));
}

#[test]
fn workspaces_compare_by_workspace_and_output() {
    assert_eq!(CaptureSource::Workspace(3, 9), CaptureSource::Workspace(3, 9));
    assert_ne!(CaptureSource::Workspace(3, 9), CaptureSource::Workspace(3, 8));
    assert_ne!(CaptureSource::Workspace(3, 9), CaptureSource::Workspace(4, 9));
    assert_ne!(CaptureSource::Workspace(3, 9), CaptureSource::Workspace(9, 3));
}

#[test]
fn equal_sources_hash_identically() {
    assert_eq!(
        hash_of(&CaptureSource::Toplevel(41)),
        hash_of(&CaptureSource::Toplevel(41))
    );
    assert_eq!(
        hash_of(&CaptureSource::Workspace(3, 9)),
        hash_of(&CaptureSource::Workspace(3, 9))
    );
}

#[test]
fn source_serves_as_map_key() {
    let mut per_source: HashMap<CaptureSource, u32> = HashMap::new();
    per_source.insert(CaptureSource::Toplevel(5), 1);
    per_source.insert(CaptureSource::Toplevel(5), 2);
    per_source.insert(CaptureSource::Workspace(5, 5), 3);
    assert_eq!(per_source.len(), 2);
    assert_eq!(per_source.get(&CaptureSource::Toplevel(5)), Some(&2));
    assert_eq!(per_source.get(&CaptureSource::Workspace(5, 5)), Some(&3));
    assert_eq!(per_source.get(&CaptureSource::Toplevel(6)), None);
}

#[test]
fn source_copy_names_the_same_target() {
    let source = CaptureSource::Workspace(12, 34);
    let copy = source;
    let clone = source.clone();
    assert_eq!(copy, source);
    assert_eq!(clone, CaptureSource::Workspace(12, 34));
}

#[test]
fn default_filter_is_empty() {
    let filter = CaptureFilter::default();
    assert!(filter.workspaces_on_outputs.is_empty());
    assert!(filter.toplevels_on_workspaces.is_empty());
}

#[test]
fn filter_keeps_the_order_of_its_lists() {
    let mut filter = CaptureFilter::default();
    filter.workspaces_on_outputs.push(30);
    filter.workspaces_on_outputs.push(10);
    filter.workspaces_on_outputs.push(20);
    filter.toplevels_on_workspaces.push(2);
    filter.toplevels_on_workspaces.push(1);
    assert_eq!(filter.workspaces_on_outputs, vec![30, 10, 20]);
    assert_eq!(filter.toplevels_on_workspaces, vec![2, 1]);
}

#[test]
fn filter_clone_is_equal_and_independent() {
    let filter = CaptureFilter {
        workspaces_on_outputs: vec![1, 2],
        toplevels_on_workspaces: vec![3],
    };
    let mut copy = filter.clone();
    assert!(copy == filter);
    assert_eq!(copy.workspaces_on_outputs, vec![1, 2]);
    assert_eq!(copy.toplevels_on_workspaces, vec![3]);
    copy.toplevels_on_workspaces.push(4);
    assert!(copy != filter);
    assert_eq!(filter.toplevels_on_workspaces, vec![3]);
}

#[test]
fn filters_compare_by_both_lists_in_order() {
    let filter = CaptureFilter {
        workspaces_on_outputs: vec![1, 2],
        toplevels_on_workspaces: vec![3, 4],
    };
    let same = CaptureFilter {
        workspaces_on_outputs: vec![1, 2],
        toplevels_on_workspaces: vec![3, 4],
    };
    let other_outputs = CaptureFilter {
        workspaces_on_outputs: vec![2, 1],
        toplevels_on_workspaces: vec![3, 4],
    };
    let other_workspaces = CaptureFilter {
        workspaces_on_outputs: vec![1, 2],
        toplevels_on_workspaces: vec![3],
    };
    let swapped = CaptureFilter {
        workspaces_on_outputs: vec![3, 4],
        toplevels_on_workspaces: vec![1, 2],
    };
    assert!(filter == same);
    assert!(filter != other_outputs);
    assert!(filter != other_workspaces);
    assert!(filter != swapped);
    assert!(CaptureFilter::default() == CaptureFilter::default());
    assert!(filter != CaptureFilter::default());
}
