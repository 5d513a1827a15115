use cobalt::assets::{AssetError, AssetManager, RefCountMessage};

#[test]
fn new_asset_has_one_handle() {
    let mut assets: AssetManager<String> = AssetManager::new();
    let handle = assets.create_asset("texture".to_string()).unwrap();
    assert_eq!(assets.ref_count(&handle), Some(1));
    assert_eq!(assets.get(&handle).map(|s| s.as_str()), Some("texture"));
    assert!(assets.is_live(handle.id()));
}

#[test]
fn ids_are_issued_in_sequence() {
    let mut assets: AssetManager<u8> = AssetManager::new();
    for expected in 0..10u64 {
        let handle = assets.create_asset(0).unwrap();
        assert_eq!(handle.id(), expected);
    }
}

#[test]
fn clone_then_drop_leaves_the_count_as_it_was() {
    let mut assets: AssetManager<String> = AssetManager::new();
    let handle = assets.create_asset("texture".to_string()).unwrap();
    let second = assets.clone_asset(&handle);
    assets.update_ref_counts();
    assert_eq!(assets.ref_count(&handle), Some(2));

    let clone = assets.clone_asset(&handle);
    assets.drop_asset(clone);
    assets.update_ref_counts();
    assert_eq!(assets.ref_count(&handle), Some(2));
    assert_eq!(assets.get(&handle).map(|s| s.as_str()), Some("texture"));
    assert_eq!(assets.get(&second).map(|s| s.as_str()), Some("texture"));
}

#[test]
fn counts_change_only_when_the_store_reconciles() {
    let mut assets: AssetManager<u32> = AssetManager::new();
    let handle = assets.create_asset(5).unwrap();
    let second = assets.clone_asset(&handle);
    let third = assets.clone_asset(&second);
    assert_eq!(assets.ref_count(&handle), Some(1));
    assets.update_ref_counts();
    assert_eq!(assets.ref_count(&handle), Some(3));
    assets.drop_asset(third);
    assert_eq!(assets.ref_count(&handle), Some(3));
    assets.update_ref_counts();
    assert_eq!(assets.ref_count(&second), Some(2));
    assets.update_ref_counts();
    assert_eq!(assets.ref_count(&second), Some(2));
}

#[test]
fn last_drop_frees_the_asset_at_the_next_reconciliation() {
    let mut assets: AssetManager<u32> = AssetManager::new();
    let handle = assets.create_asset(5).unwrap();
    let id = handle.id();
    assets.drop_asset(handle);
    assert!(assets.is_live(id));
    assets.update_ref_counts();
    assert!(!assets.is_live(id));
}

#[test]
fn asset_lives_while_one_handle_is_left() {
    let mut assets: AssetManager<u32> = AssetManager::new();
    let first = assets.create_asset(5).unwrap();
    let second = assets.clone_asset(&first);
    assets.drop_asset(first);
    assets.update_ref_counts();
    assert_eq!(assets.ref_count(&second), Some(1));
    assert_eq!(assets.get(&second), Some(&5));
    let id = second.id();
    assets.drop_asset(second);
    assets.update_ref_counts();
    assert!(!assets.is_live(id));
}

#[test]
fn freed_id_is_never_issued_again() {
    let mut assets: AssetManager<u32> = AssetManager::new();
    let first = assets.create_asset(1).unwrap();
    let freed = first.id();
    assets.drop_asset(first);
    assets.update_ref_counts();
    let second = assets.create_asset(2).unwrap();
    assert_ne!(second.id(), freed);
    assert!(!assets.is_live(freed));
    assert_eq!(assets.get(&second), Some(&2));
}

#[test]
fn handle_of_a_dropped_store_reaches_nothing() {
    let mut assets: AssetManager<u32> = AssetManager::new();
    let stale = assets.create_asset(1).unwrap();
    assets.drop_all();
    assert_eq!(assets.get(&stale), None);
    assert_eq!(assets.ref_count(&stale), None);
    assert!(assets.get_mut(&stale).is_none());

    let fresh = assets.create_asset(2).unwrap();
    assert_ne!(fresh.id(), stale.id());
    let clone = assets.clone_asset(&stale);
    assets.drop_asset(clone);
    assets.drop_asset(stale);
    assets.update_ref_counts();
    assert_eq!(assets.ref_count(&fresh), Some(1));
    assert_eq!(assets.get(&fresh), Some(&2));
}

#[test]
fn asset_can_be_changed_through_a_handle() {
    let mut assets: AssetManager<Vec<u8>> = AssetManager::new();
    let first = assets.create_asset(vec![1, 2]).unwrap();
    let second = assets.clone_asset(&first);
    assets.get_mut(&second).unwrap().push(3);
    assert_eq!(assets.get(&first), Some(&vec![1, 2, 3]));
    assert_eq!(assets.ref_count(&first), Some(1));
}

#[test]
fn messages_are_applied_in_the_order_of_posting() {
    let mut assets: AssetManager<u32> = AssetManager::new();
    let first = assets.create_asset(1).unwrap();
    let id = first.id();
    // Drop before clone: the drop frees the asset, and the clone finds nothing.
    let second = assets.clone_asset(&first);
    assets.update_ref_counts();
    assets.drop_asset(first);
    assets.drop_asset(second);
    assets.update_ref_counts();
    assert!(!assets.is_live(id));
}

#[test]
fn store_fails_when_no_id_is_left() {
    let mut assets: AssetManager<u32> = AssetManager::starting_at(u64::MAX - 1);
    let last = assets.create_asset(1).unwrap();
    assert_eq!(last.id(), u64::MAX - 1);
    assert_eq!(assets.create_asset(2).err(), Some(AssetError::IdsExhausted));
    assert_eq!(assets.create_asset(3).err(), Some(AssetError::IdsExhausted));
    assert_eq!(assets.get(&last), Some(&1));
    assert!(!assets.is_live(u64::MAX));
}

#[test]
fn posted_messages_count_like_those_of_handles() {
    let mut assets: AssetManager<u32> = AssetManager::new();
    let handle = assets.create_asset(1).unwrap();
    let id = handle.id();
    assets.post(RefCountMessage::Clone(id));
    assets.post(RefCountMessage::Clone(id));
    assets.post(RefCountMessage::Drop(id));
    assets.post(RefCountMessage::Clone(id + 1));
    assets.post(RefCountMessage::Drop(id + 1));
    assets.update_ref_counts();
    assert_eq!(assets.ref_count(&handle), Some(2));
    assert!(!assets.is_live(id + 1));
    assets.post(RefCountMessage::Drop(id));
    assets.post(RefCountMessage::Drop(id));
    assets.post(RefCountMessage::Clone(id));
    assets.update_ref_counts();
    assert!(!assets.is_live(id));
    assert_eq!(assets.get(&handle), None);
}
