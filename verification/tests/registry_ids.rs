//! Identity allocation, deferred reclaim, aliases and tags.

use danmaku_core::registry::{Registry, RegistryError};

#[test]
fn allocate_release_reclaim_cycle() {
    let mut r = Registry::new();
    assert_eq!(r.get_id(), 1);
    assert_eq!(r.get_id(), 2);
    assert_eq!(r.get_id(), 3);
    r.return_id(2);
    // The released id is not reusable before the reclaim boundary.
    assert_eq!(r.get_id(), 4);
    r.reclaim();
    // The lowest reusable id comes back first, then the counter extends.
    assert_eq!(r.get_id(), 2);
    assert_eq!(r.get_id(), 5);
}

#[test]
fn smallest_free_id_wins() {
    let mut r = Registry::new();
    for _ in 0..5 {
        r.get_id();
    }
    r.return_id(4);
    r.return_id(1);
    r.return_id(3);
    r.reclaim();
    assert_eq!(r.get_id(), 1);
    assert_eq!(r.get_id(), 3);
    assert_eq!(r.get_id(), 4);
    assert_eq!(r.get_id(), 6);
}

#[test]
fn immediate_reuse_after_no_reclaim() {
    let mut r = Registry::new();
    let a = r.get_id();
    r.no_reclaim();
    r.return_id(a);
    assert_eq!(r.get_id(), a);
}

#[test]
fn rebinding_an_alias_fails_loudly() {
    let mut r = Registry::new();
    let a = r.get_id();
    let b = r.get_id();
    assert!(r.create_alias(String::from("boss"), a).is_ok());
    let second = r.create_alias(String::from("boss"), b);
    assert_eq!(second, Err(RegistryError::AliasInUse));
    // The failed rebind changed nothing.
    assert_eq!(r.get_aliased_id(&String::from("boss")), Some(a));
    assert_eq!(r.get_aliased_string(a), Some(String::from("boss")));
}

#[test]
fn alias_removal_frees_the_name() {
    let mut r = Registry::new();
    let a = r.get_id();
    r.create_alias(String::from("door"), a).unwrap();
    r.remove_alias(&String::from("door"));
    assert_eq!(r.get_aliased_id(&String::from("door")), None);
    assert!(r.create_alias(String::from("door"), a).is_ok());
}

#[test]
fn tags_group_many_ids() {
    let mut r = Registry::new();
    let a = r.get_id();
    let b = r.get_id();
    r.tag_id(a, String::from("wave"));
    r.tag_id(b, String::from("wave"));
    r.tag_id(a, String::from("wave"));
    let ids = r.get_tagged(&String::from("wave")).unwrap();
    assert_eq!(ids, vec![a, b], "tagging twice does not duplicate");
    r.untag_id(a, &String::from("wave"));
    assert_eq!(r.get_tagged(&String::from("wave")).unwrap(), vec![b]);
    let removed = r.remove_tagged(&String::from("wave")).unwrap();
    assert_eq!(removed, vec![b]);
    assert!(r.get_tagged(&String::from("wave")).is_none());
    assert!(r.get_tagged(&String::from("unknown")).is_none());
}

#[test]
fn alias_rebinding_follows_the_latest_binding() {
    let mut r = Registry::new();
    let id = r.get_id();
    assert!(r.create_alias(String::from("first"), id).is_ok());
    assert_eq!(r.get_aliased_string(id), Some(String::from("first")));
    assert!(r.create_alias(String::from("second"), id).is_ok());
    assert_eq!(
        r.get_aliased_string(id),
        Some(String::from("second")),
        "reverse lookup follows the latest binding"
    );
    assert_eq!(r.get_aliased_id(&String::from("first")), Some(id));
    r.remove_alias(&String::from("second"));
    assert_eq!(r.get_aliased_id(&String::from("second")), None);
    assert_eq!(r.get_aliased_string(id), None, "the reverse binding went with the name");
}

#[test]
fn removing_an_alias_drops_one_reverse_binding() {
    let mut r = Registry::new();
    let a = r.get_id();
    let b = r.get_id();
    assert!(r.create_alias(String::from("left"), a).is_ok());
    assert!(r.create_alias(String::from("right"), b).is_ok());
    r.remove_alias(&String::from("left"));
    assert_eq!(r.get_aliased_string(a), None);
    assert_eq!(r.get_aliased_string(b), Some(String::from("right")), "other bindings stay");
    r.remove_alias(&String::from("missing"));
    assert_eq!(r.get_aliased_string(b), Some(String::from("right")));
}
