use popcorn::vault::Vault;

#[test]
fn vault_try_lock_and_read() {
    let mut vault: Vault<f64> = Vault::new(34.5);
    let acquired = vault.try_lock().unwrap();
    let value: f64 = *acquired.get();
    assert_eq!(value, 34.5);
}

#[test]
fn vault_exclusion_one_guard_at_a_time() {
    let mut vault: Vault<u64> = Vault::new(7);
    let guard = vault.try_lock().unwrap();
    // while the guard is out, no second acquisition succeeds
    assert!(vault.try_lock().is_err());
    let acquire = vault.lock(11);
    assert!(acquire.poll(&mut vault).is_none());
    // handing the guard back frees the vault and wakes the parked task
    let woken = vault.release(guard);
    assert_eq!(woken, Some(11));
    assert!(vault.try_lock().is_ok());
}

#[test]
fn vault_progress_fifo_wakeup() {
    let mut vault: Vault<u64> = Vault::new(0);
    let guard = vault.try_lock().unwrap();
    // two tasks park in order
    assert!(vault.lock(1).poll(&mut vault).is_none());
    assert!(vault.lock(2).poll(&mut vault).is_none());
    // the longest-waiting task is woken first, and its poll acquires
    assert_eq!(vault.release(guard), Some(1));
    let g1 = vault.lock(1).poll(&mut vault).unwrap();
    assert_eq!(vault.release(g1), Some(2));
    let g2 = vault.lock(2).poll(&mut vault).unwrap();
    assert_eq!(vault.release(g2), None);
}

#[test]
fn vault_guard_carries_mutation_back() {
    let mut vault: Vault<u64> = Vault::new(1);
    let mut guard = vault.try_lock().unwrap();
    *guard.get_mut() = 42;
    vault.release(guard);
    let guard = vault.try_lock().unwrap();
    assert_eq!(*guard.get(), 42);
}
