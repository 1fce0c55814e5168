use std::future::Future;
use std::hash::Hash;
use std::sync::{Arc, Mutex};
use std::time::Duration;

use allrisbot::lru_cache::{error_or_found, found_or_error, CacheInner, EvictionStrategy, Lru};
use tokio::sync::{Barrier, OnceCell};

fn block_on<F: Future>(f: F) -> F::Output {
    tokio::runtime::Builder::new_current_thread().enable_all().build().unwrap().block_on(f)
}

fn value<K: Eq + Hash + Copy>(cache: &mut CacheInner<K, i32, Lru<K>>, key: K, init: i32) -> i32 {
    let cell = cache.get(key);
    block_on(async { *cell.get_or_try_init(|| async { Ok::<_, ()>(init) }).await.unwrap() })
}

#[test]
fn test_cache_insert_and_get() {
    let mut cache = CacheInner::new(Lru::new(2));

    let value1 = value(&mut cache, 1, 10);
    assert_eq!(value1, 10);

    let value2 = value(&mut cache, 2, 20);
    assert_eq!(value2, 20);

    let value1_again = value(&mut cache, 1, 100);
    assert_eq!(value1_again, 10); // Should not replace existing value
}

#[test]
fn test_cache_eviction() {
    let mut cache = CacheInner::new(Lru::new(2));

    value(&mut cache, 1, 10);
    value(&mut cache, 2, 20);
    value(&mut cache, 3, 30); // Evicts key 1

    let value1 = value(&mut cache, 1, 100);
    assert_eq!(value1, 100); // Key 1 was evicted, so it should be re-initialized

    let value2 = value(&mut cache, 3, 300);
    assert_eq!(value2, 30); // Key 3 should still be present
}

#[test]
fn absent_keys_get_the_fresh_cell() {
    let mut cache: CacheInner<u8, u8, Lru<u8>> = CacheInner::new(Lru::new(1));
    let cells: Vec<Arc<OnceCell<u8>>> = (0..4).map(|_| Arc::new(OnceCell::new())).collect();
    assert!(Arc::ptr_eq(&cache.get_or_insert(1, cells[0].clone()), &cells[0]));
    // as long as the key stays, so does its cell
    assert!(Arc::ptr_eq(&cache.get_or_insert(1, cells[1].clone()), &cells[0]));
    assert!(Arc::ptr_eq(&cache.get(1), &cells[0]));
    cells[0].set(7).unwrap();
    // another key does not get the cell of the key that leaves
    assert!(Arc::ptr_eq(&cache.get_or_insert(2, cells[2].clone()), &cells[2]));
    assert!(cache.get(1).get().is_none());
}

#[test]
fn test_lru_eviction_order() {
    let mut lru = Lru::new(2);

    assert_eq!(lru.insert(1, false), None);
    assert_eq!(lru.insert(2, false), None);
    assert_eq!(lru.insert(3, false), Some(1)); // Evicts 1

    lru.insert(2, true); // Move 2 to the front
    assert_eq!(lru.insert(4, false), Some(3)); // Evicts 3, as 2 was accessed recently
}

#[test]
fn test_concurrent_cache_access() {
    block_on(async {
        let cache: Arc<Mutex<CacheInner<(), u64, Lru<()>>>> =
            Arc::new(Mutex::new(CacheInner::new(Lru::new(3))));
        let barrier = Arc::new(Barrier::new(5));

        let mut handles = vec![];
        for i in 0..5u64 {
            let cache = Arc::clone(&cache);
            let barrier = Arc::clone(&barrier);
            handles.push(tokio::spawn(async move {
                barrier.wait().await;
                let cell = cache.lock().unwrap().get(());
                *cell
                    .get_or_try_init(|| async {
                        tokio::time::sleep(Duration::from_millis(200 + 5 * i)).await;
                        Ok::<_, ()>(i * 10)
                    })
                    .await
                    .unwrap()
            }));
        }

        for handle in handles {
            let result = handle.await.unwrap();
            let cell = cache.lock().unwrap().get(());
            assert!(cell.get() == Some(&result));
        }
    });
}

#[test]
fn new_cells_are_empty_and_shared() {
    let mut cache: CacheInner<u64, u32, Lru<u64>> = CacheInner::new(Lru::new(1));
    let cell: Arc<OnceCell<u32>> = cache.get(7);
    assert!(cell.get().is_none());
    cell.set(3).unwrap();
    assert_eq!(cache.get(7).get(), Some(&3));
    // there is room for one cell only
    assert!(cache.get(8).get().is_none());
    assert!(cache.get(7).get().is_none());
}

#[test]
fn a_used_key_survives_while_there_is_room() {
    let mut cache = CacheInner::new(Lru::new(3));
    value(&mut cache, 1, 10);
    value(&mut cache, 2, 20);
    value(&mut cache, 3, 30);
    assert_eq!(value(&mut cache, 1, 11), 10);
    value(&mut cache, 4, 40);
    value(&mut cache, 5, 50);
    assert_eq!(value(&mut cache, 1, 12), 10);
    assert_eq!(value(&mut cache, 2, 21), 21);
}

#[test]
fn the_capacity_is_made_room_for() {
    assert_eq!(EvictionStrategy::<u8>::initial_capacity(&Lru::<u8>::new(5)), 5);
}

#[test]
fn outcomes_of_initialisations() {
    assert_eq!(found_or_error::<u8, u16>(Ok(Some(1))), Ok(1));
    assert_eq!(found_or_error::<u8, u16>(Ok(None)), Err(None));
    assert_eq!(found_or_error::<u8, u16>(Err(2)), Err(Some(2)));
    assert_eq!(error_or_found::<u8, u16>(Ok(1)), Ok(Some(1)));
    assert_eq!(error_or_found::<u8, u16>(Err(None)), Ok(None));
    assert_eq!(error_or_found::<u8, u16>(Err(Some(2))), Err(2));
}
