//! Cells through their handles and guards.

use std::cell::Cell;
use std::sync::Arc;

use toyrcu::{Rcu, RcuError};

#[test]
fn test_basic_functionality() {
    let rcu = Rcu::new(42);
    assert_eq!(*rcu.current(), 42);

    {
        let mut guard = rcu.assign_pointer().unwrap();
        *guard = 100;
        guard.drop();
    }

    let next = rcu.chain();
    assert!(!next.is_empty());
    assert_eq!(*next[0], 100);
}

#[test]
fn test_error_on_double_update() {
    let rcu = Rcu::new(0);

    let guard = rcu.assign_pointer().unwrap();

    let result = rcu.assign_pointer();
    assert!(result.is_err());
    if let Err(e) = result {
        assert!(matches!(e, RcuError::AlreadyUpdating));
    }

    guard.drop();
    assert!(rcu.assign_pointer().is_ok());
}

#[test]
fn test_cleanup() {
    let mut rcu = Rcu::new(1);
    {
        let mut guard = rcu.assign_pointer().unwrap();
        *guard = 2;
        guard.drop();
    }
    {
        let mut guard = rcu.assign_pointer().unwrap();
        *guard = 3;
        guard.drop();
    }

    let next = rcu.chain();
    assert!(!next.is_empty());
    assert_eq!(*next[0], 3);

    rcu.clean();
    assert_eq!(*rcu.current(), 3, "Current value should be 3 after cleanup");
}

#[test]
fn test_multiple_readers() {
    let rcu = Arc::new(Rcu::new(0));
    let writer_rcu = Arc::clone(&rcu);
    let mut guard = writer_rcu.assign_pointer().unwrap();
    for _ in 0..5 {
        let reader_rcu = Arc::clone(&rcu);
        let val = *reader_rcu.read();
        assert!(val == 0 || val == 42);
    }
    *guard = 42;
    guard.drop();
    for _ in 0..5 {
        let reader_rcu = Arc::clone(&rcu);
        let val = *reader_rcu.read();
        assert!(val == 0 || val == 42);
    }
    assert_eq!(*rcu.read(), 42);
}

#[test]
fn test_chain_cleanup() {
    let mut rcu = Rcu::new(0);
    for i in 1..5 {
        let mut guard = rcu.assign_pointer().unwrap();
        *guard = i;
        guard.drop();
        assert_eq!(*rcu.read(), i);
    }

    let chain = rcu.chain();
    assert!(!chain.is_empty(), "Next pointer should not be null after updates");
    assert_eq!(*chain[0], 4);
    assert!(chain.len() > 0, "Should have a chain of updates");
    assert_eq!(chain.len(), 4);

    rcu.clean();
    assert!(rcu.chain().is_empty(), "Next pointer should be null after cleanup");
    assert_eq!(*rcu.current(), 4);
}

#[test]
fn test_concurrent_reads_writes() {
    let rcu = Rcu::new(0);
    let thread_count = 3;
    let mut thread_rcus = Vec::new();
    for _ in 0..thread_count {
        thread_rcus.push(rcu.clone());
    }

    let mut update_succeeded = false;
    for (id, thread_rcu) in thread_rcus.into_iter().enumerate() {
        let value = id as i32 * 10;
        let mut success = false;
        for _ in 0..10 {
            match thread_rcu.assign_pointer() {
                Ok(mut guard) => {
                    *guard = value;
                    guard.drop();
                    success = true;
                    break;
                }
                Err(_) => {}
            }
        }
        update_succeeded |= success;
        thread_rcu.drop();
    }
    assert!(update_succeeded, "At least one thread should have succeeded in updating");

    {
        let mut guard = rcu.assign_pointer().unwrap();
        *guard = 999;
        guard.drop();
    }
    assert_eq!(*rcu.read(), 999);
}

#[test]
fn test_read_during_update() {
    let rcu = Arc::new(Rcu::new(0));
    let reader_count = 5;

    let mut guard = rcu.assign_pointer().unwrap();
    *guard = 100;
    for _ in 0..reader_count {
        for _ in 0..10 {
            let value = rcu.read();
            assert!(*value == 0 || *value == 100);
            assert_eq!(*value, 0);
        }
    }
    guard.drop();
    for _ in 0..reader_count {
        for _ in 0..10 {
            let value = rcu.read();
            assert!(*value == 0 || *value == 100);
        }
    }
    assert_eq!(*rcu.read(), 100);
}

#[test]
fn test_memory_cleanup_with_clones() {
    let original = Rcu::new(0);
    let mut clone1 = original.clone();
    let clone2 = original.clone();

    for i in 1..5 {
        let original_copy = original.clone();
        {
            let mut guard = original_copy.assign_pointer().unwrap();
            *guard = i;
            guard.drop();
        }
        assert_eq!(*original.read(), i);
        assert_eq!(*clone1.read(), i);
        assert_eq!(*clone2.read(), i);
        original_copy.drop();
    }

    let cleaned = clone1.try_clean_fast();
    assert!(!cleaned, "Cleanup should fail when multiple refs exist");
    assert!(!original.chain().is_empty(), "Chain should still exist when cleanup fails");

    clone2.drop();
    original.drop();

    assert!(clone1.try_clean_fast());
    assert!(
        clone1.chain().is_empty(),
        "Next pointer should be null after successful cleanup"
    );
}

#[test]
fn test_no_update_on_identical_values() {
    let rcu = Rcu::new(42);
    assert!(rcu.chain().is_empty());

    {
        let mut guard = rcu.assign_pointer().unwrap();
        *guard = 42;
        guard.drop();
    }
    assert!(rcu.chain().is_empty(), "No update should be created for identical values");

    {
        let mut guard = rcu.assign_pointer().unwrap();
        *guard = 100;
        guard.drop();
    }
    assert!(!rcu.chain().is_empty(), "Update should be created for different values");
}

#[test]
fn test_stress_with_concurrent_updates_and_cleanups() {
    let rcu = Arc::new(Rcu::new(0));
    let thread_count = 8;
    let iterations = 100;
    for _ in 0..thread_count {
        let thread_rcu = Arc::clone(&rcu);
        for _ in 0..iterations {
            let _value: Arc<i32> = thread_rcu.read();
        }
    }

    let mut rcu_for_updates = Rcu::new(0);
    {
        let mut guard = rcu_for_updates.assign_pointer().unwrap();
        *guard = 999999;
        guard.drop();
    }
    let final_value = rcu_for_updates.read();
    assert_eq!(*final_value, 999999);

    let cleaned = rcu_for_updates.try_clean_fast();
    assert!(cleaned, "Final cleanup should succeed");
}

#[test]
fn test_drop_behavior() {
    let mut outer = Rcu::new(0);
    for i in 1..5 {
        let mut guard = outer.assign_pointer().unwrap();
        *guard = i;
        guard.drop();
    }
    assert!(!outer.chain().is_empty());

    {
        let _clone = outer.clone();
        {
            let mut guard = outer.assign_pointer().unwrap();
            *guard = 100;
            guard.drop();
        }
        _clone.drop();
    }

    assert_eq!(*outer.read(), 100);
    assert!(outer.try_clean_fast());

    let parent = Rcu::new(0);
    let child1 = parent.clone();
    let child2 = parent.clone();
    {
        let mut guard = parent.assign_pointer().unwrap();
        *guard = 42;
        guard.drop();
    }
    assert_eq!(*parent.read(), 42);
    assert_eq!(*child1.read(), 42);
    assert_eq!(*child2.read(), 42);

    parent.drop();
    child1.drop();
    child2.drop();
}

#[test]
fn test_api_error_handling() {
    let rcu = Rcu::new("test");

    let err = RcuError::AlreadyUpdating;
    assert_eq!(err.message(), "RCU is already being updated");

    let guard = rcu.assign_pointer().unwrap();

    let err = rcu.assign_pointer().err().unwrap();
    assert!(matches!(err, RcuError::AlreadyUpdating));

    let result: Result<(), RcuError> = Err(RcuError::AlreadyUpdating);
    assert!(result.is_err());

    guard.drop();
    assert!(rcu.assign_pointer().is_ok());
}

#[test]
fn test_production_scenario() {
    const NUM_THREADS: usize = 10;
    const UPDATES_PER_THREAD: usize = 20;
    const READ_ITERATIONS: usize = 100;

    let store = Arc::new(Rcu::new(vec![0; 10]));

    for writer_id in 0..NUM_THREADS {
        let local_store_arc = Arc::clone(&store);
        let mut local_store_raw = Rcu::new(vec![0; 10]);
        for i in 0..UPDATES_PER_THREAD {
            let shared_data: Arc<Vec<i32>> = local_store_arc.read();
            let shared_values = (*shared_data).clone();
            {
                let mut guard = local_store_raw.assign_pointer().unwrap();
                let guard_len = guard.len();
                guard[writer_id % guard_len] = (writer_id * 1000 + i) as i32;
                if i % 7 == 0 && !shared_values.is_empty() {
                    let idx = i % shared_values.len();
                    guard[idx] = shared_values[idx];
                }
                guard.drop();
            }
            if i % 5 == 0 {
                local_store_raw.try_clean_fast();
            }
        }
    }

    for _ in 0..NUM_THREADS {
        for _ in 0..READ_ITERATIONS {
            let current = store.read();
            assert_eq!(current.len(), 10, "Vector length should remain constant");
        }
    }

    let final_data = store.read();
    assert_eq!(final_data.len(), 10, "Vector should maintain its structure");

    let mut final_store = Rcu::new((*final_data).clone());
    {
        let mut guard = final_store.assign_pointer().unwrap();
        guard[0] = 999999;
        guard.drop();
    }

    let updated_data = final_store.read();
    assert_eq!(updated_data[0], 999999, "Final update should be visible");

    assert!(final_store.try_clean_fast(), "Final cleanup should succeed");

    let final_data = final_store.read();
    assert_eq!(final_data.len(), 10, "Vector structure should be preserved after cleanup");
    assert_eq!(final_data[0], 999999, "Data should be preserved after cleanup");
}

#[test]
fn update_starts_from_the_newest_version() {
    let rcu = Rcu::new(10);
    let mut guard = rcu.assign_pointer().unwrap();
    *guard = 11;
    assert!(guard.is_modified());
    assert!(guard.drop());
    let guard = rcu.assign_pointer().unwrap();
    assert_eq!(*guard, 11);
    assert!(!guard.is_modified());
    assert!(!guard.drop());
    assert_eq!(*rcu.read(), 11);
    assert_eq!(rcu.chain().len(), 1);
}

#[test]
fn updates_of_a_shared_cell_build_on_each_other() {
    let rcu = Rcu::new(10);
    let mut w = rcu.read_lock();
    let mut seen = Vec::new();
    for i in 1..6 {
        let mut guard = w.assign_pointer().unwrap();
        *guard += i;
        guard.drop();
        assert!(!w.try_clean_fast());
        seen.push(*rcu.read());
    }
    assert_eq!(seen, vec![11, 13, 16, 20, 25]);
    assert_eq!(*rcu.read(), 25);
    assert_eq!(*w.read(), 25);
}

#[test]
fn cleanups_do_not_influence_updates() {
    let mut often = Rcu::new(10);
    let never = Rcu::new(10);
    for i in 1..4 {
        let mut guard = often.assign_pointer().unwrap();
        *guard += i;
        guard.drop();
        often.clean();
        let mut guard = never.assign_pointer().unwrap();
        *guard += i;
        guard.drop();
    }
    assert_eq!(*often.read(), 16);
    assert_eq!(*never.read(), 16);
    assert!(often.chain().is_empty());
    assert_eq!(never.chain().len(), 3);
}

#[test]
fn change_back_becomes_visible() {
    let rcu = Rcu::new(1);
    let mut guard = rcu.assign_pointer().unwrap();
    *guard = 2;
    assert!(guard.drop());
    let mut guard = rcu.assign_pointer().unwrap();
    *guard = 1;
    assert!(guard.drop());
    assert_eq!(*rcu.read(), 1);
    assert_eq!(rcu.chain().len(), 2);
}

#[test]
fn unchanged_copy_leaves_the_cell_as_it_was() {
    let rcu = Rcu::new(42);
    let mut guard = rcu.assign_pointer().unwrap();
    *guard = 100;
    assert!(guard.drop());
    let mut guard = rcu.assign_pointer().unwrap();
    *guard = 7;
    *guard = 100;
    assert!(!guard.drop());
    assert_eq!(*rcu.read(), 100);
    assert_eq!(rcu.chain().len(), 1);
    assert_eq!(*rcu.current(), 42);
}

#[test]
fn handles_of_one_cell_agree() {
    let a = Rcu::new(0);
    let b = a.clone();
    for i in 1..4 {
        let mut guard = if i % 2 == 0 { &a } else { &b }.assign_pointer().unwrap();
        *guard = i;
        assert_eq!(*a.read(), *b.read());
        guard.drop();
        assert_eq!(*a.read(), i);
        assert_eq!(*b.read(), i);
    }
    b.drop();
    assert_eq!(*a.read(), 3);
}

#[test]
fn cleanup_without_updates_does_nothing() {
    let mut rcu = Rcu::new(7);
    assert!(!rcu.try_clean_fast());
    let guard = rcu.assign_pointer().unwrap();
    guard.drop();
    assert!(!rcu.try_clean_fast());
    assert_eq!(*rcu.read(), 7);
}

#[test]
fn second_cleanup_finds_nothing() {
    let mut rcu = Rcu::new(1);
    let mut guard = rcu.assign_pointer().unwrap();
    *guard = 2;
    guard.drop();
    assert!(rcu.try_clean_fast());
    assert!(!rcu.try_clean_fast());
    assert_eq!(*rcu.read(), 2);
}

#[test]
fn reader_keeps_a_reclaimed_version() {
    let mut rcu = Rcu::new(String::from("old"));
    let before = rcu.read();
    let mut guard = rcu.assign_pointer().unwrap();
    guard.push_str("er");
    guard.drop();
    assert!(rcu.try_clean_fast());
    assert_eq!(*before, "old");
    assert_eq!(*rcu.read(), "older");
}

#[test]
fn read_lock_registers_a_handle() {
    let mut rcu = Rcu::new(10);
    let reader = rcu.read_lock();
    let mut guard = rcu.assign_pointer().unwrap();
    *guard += 1;
    guard.drop();
    assert_eq!(*reader.read(), 11);
    assert!(!rcu.try_clean_fast());
    reader.drop();
    assert!(rcu.try_clean_fast());
    assert_eq!(*rcu.current(), 11);
}

#[test]
fn refused_update_yields_from_the_third_try_on() {
    let rcu = Rcu::new(0);
    let guard = rcu.assign_pointer().unwrap();
    let yields = Cell::new(0);
    assert!(rcu.assign_pointer_with(|| yields.set(yields.get() + 1)).is_err());
    assert_eq!(yields.get(), 5);
    guard.drop();
    assert!(rcu.assign_pointer_with(|| yields.set(yields.get() + 1)).is_ok());
    assert_eq!(yields.get(), 5);
}

#[test]
fn refused_cleanup_yields_from_the_third_try_on() {
    let mut rcu = Rcu::new(0);
    let mut guard = rcu.assign_pointer().unwrap();
    *guard = 1;
    guard.drop();
    {
        let _left_open = rcu.assign_pointer().unwrap();
    }
    let yields = Cell::new(0);
    assert!(!rcu.try_clean_fast_with(|| yields.set(yields.get() + 1)));
    assert_eq!(yields.get(), 3);
    assert_eq!(rcu.chain().len(), 1);
}

#[test]
fn update_ended_between_two_tries_lets_the_next_one_in() {
    let rcu = Rcu::new(0);
    let open = Cell::new(rcu.assign_pointer().ok());
    let late = rcu.assign_pointer_with(|| {
        if let Some(guard) = open.take() {
            guard.drop();
        }
    });
    assert!(late.is_ok());
}

#[test]
fn last_handle_drops_the_value() {
    let probe = Arc::new(5);
    let rcu = Rcu::new(Arc::clone(&probe));
    let other = rcu.clone();
    assert_eq!(Arc::strong_count(&probe), 2);
    rcu.drop();
    assert_eq!(Arc::strong_count(&probe), 2);
    other.drop();
    assert_eq!(Arc::strong_count(&probe), 1);
}

#[test]
fn cleanup_drops_old_versions() {
    let probe = Arc::new(5);
    let mut rcu = Rcu::new(Arc::clone(&probe));
    let mut guard = rcu.assign_pointer().unwrap();
    *guard = Arc::new(6);
    guard.drop();
    assert_eq!(Arc::strong_count(&probe), 2);
    assert!(rcu.try_clean_fast());
    assert_eq!(Arc::strong_count(&probe), 1);
}

#[test]
fn long_chain_goes_without_recursion() {
    let rcu = Rcu::new(0);
    for i in 1..200_001 {
        let mut guard = rcu.assign_pointer().unwrap();
        *guard = i;
        guard.drop();
    }
    {
        let _left_open = rcu.assign_pointer().unwrap();
    }
    assert_eq!(*rcu.read(), 200_000);
    rcu.drop();
}
