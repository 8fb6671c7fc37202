//! Bodies, one transition at a time.

use std::sync::Arc;

use toyrcu::{Cleanup, RcuBody};

fn values(pointers: Vec<Arc<i32>>) -> Vec<i32> {
    pointers.into_iter().map(|p| *p).collect()
}

fn with_updates(first: i32, updates: &[i32]) -> RcuBody<i32> {
    let mut body = RcuBody::new(first);
    let mut latest = first;
    for v in updates {
        let (begun, base) = body.begin_update();
        assert_eq!(base.map(|p| *p), Some(latest));
        body = begun.end_update(Some(*v));
        latest = *v;
    }
    body
}

#[test]
fn new_body_has_one_version() {
    let body = RcuBody::new(3);
    assert_eq!(*body.read(), 3);
    assert_eq!(*body.current(), 3);
    assert!(body.chain().is_empty());
    let (_, outcome, retired) = body.try_clean();
    assert_eq!(outcome, Cleanup::Nothing);
    assert!(retired.is_empty());
}

#[test]
fn versions_accumulate_newest_first() {
    let body = with_updates(0, &[1, 2, 3, 4]);
    assert_eq!(*body.read(), 4);
    assert_eq!(*body.current(), 0);
    assert_eq!(values(body.chain()), vec![4, 3, 2, 1]);
    assert_eq!(values(body.into_versions()), vec![4, 3, 2, 1, 0]);
}

#[test]
fn second_update_is_refused_until_the_first_ends() {
    let (body, base) = RcuBody::new(1).begin_update();
    assert!(base.is_some());
    let (body, base) = body.begin_update();
    assert!(base.is_none());
    assert_eq!(*body.read(), 1);
    let body = body.end_update(None);
    assert!(body.chain().is_empty());
    assert!(body.begin_update().1.is_some());
}

#[test]
fn cleanup_keeps_the_newest_version() {
    let (body, outcome, retired) = with_updates(0, &[1, 2, 3, 4, 5, 6]).try_clean();
    assert_eq!(outcome, Cleanup::Done);
    assert_eq!(values(retired), vec![5, 4, 3, 2, 1, 0]);
    assert_eq!(*body.read(), 6);
    assert_eq!(*body.current(), 6);
    assert!(body.chain().is_empty());
    assert_eq!(body.begin_update().1.map(|p| *p), Some(6));
}

#[test]
fn second_cleanup_changes_nothing() {
    let (body, _, _) = with_updates(0, &[1, 2]).try_clean();
    let (body, outcome, retired) = body.try_clean();
    assert_eq!(outcome, Cleanup::Nothing);
    assert!(retired.is_empty());
    assert_eq!(values(body.into_versions()), vec![2]);

    let (shared, _, _) = with_updates(0, &[1, 2]).join().try_clean();
    let (shared, outcome, _) = shared.try_clean();
    assert_eq!(outcome, Cleanup::Shared);
    assert_eq!(values(shared.into_versions()), vec![2, 1, 0]);
}

#[test]
fn cleanup_is_refused_to_shared_bodies() {
    let (body, outcome, retired) = with_updates(0, &[1]).join().try_clean();
    assert_eq!(outcome, Cleanup::Shared);
    assert!(retired.is_empty());
    assert_eq!(values(body.chain()), vec![1]);
    let (body, retired) = body.leave();
    assert!(retired.is_empty());
    assert_eq!(values(body.chain()), vec![1]);
    assert_eq!(body.try_clean().1, Cleanup::Done);
}

#[test]
fn cleanup_is_refused_during_an_update() {
    let (body, base) = with_updates(0, &[1]).begin_update();
    assert!(base.is_some());
    let (body, outcome, retired) = body.try_clean();
    assert_eq!(outcome, Cleanup::Busy);
    assert!(retired.is_empty());
    assert_eq!(*body.read(), 1);
    assert_eq!(body.end_update(None).try_clean().1, Cleanup::Done);
}

#[test]
fn last_handle_reclaims_before_it_goes() {
    let (body, retired) = with_updates(0, &[1, 2]).leave();
    assert_eq!(values(retired), vec![1, 0]);
    assert_eq!(*body.read(), 2);
    assert!(body.chain().is_empty());
}

#[test]
fn count_of_handles_wraps_around() {
    let (body, retired) = with_updates(0, &[1]).join().leave();
    assert!(retired.is_empty());
    let (body, retired) = body.leave();
    assert_eq!(values(retired), vec![0]);
    let (body, retired) = body.leave();
    assert!(retired.is_empty());
    let (body, base) = body.join().join().begin_update();
    assert!(base.is_some());
    let (_, outcome, retired) = body.end_update(Some(9)).try_clean();
    assert_eq!(outcome, Cleanup::Done);
    assert_eq!(values(retired), vec![1]);
}
