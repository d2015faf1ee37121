use forest_vm::bad_block_cache::{BadBlockCache, DEFAULT_CAPACITY};
use forest_vm::identifiers::Cid;

fn cid(number: u32) -> Cid {
    Cid { bytes: number.to_be_bytes().to_vec() }
}

fn reason(number: u32) -> String {
    format!("reason {}", number)
}

#[test]
fn what_was_put_is_read_back() {
    let mut cache = BadBlockCache::new(2);
    assert_eq!(cache.peek(&cid(1)), None);
    assert_eq!(cache.get(&cid(1)), None);
    assert_eq!(cache.put(cid(1), reason(1)), None);
    assert_eq!(cache.peek(&cid(1)), Some(reason(1)));
    assert_eq!(cache.get(&cid(1)), Some(reason(1)));
    assert_eq!(cache.peek(&cid(2)), None);
}

#[test]
fn put_returns_the_reason_that_it_replaces() {
    let mut cache = BadBlockCache::new(2);
    assert_eq!(cache.put(cid(1), reason(1)), None);
    assert_eq!(cache.put(cid(1), reason(7)), Some(reason(1)));
    assert_eq!(cache.peek(&cid(1)), Some(reason(7)));
}

#[test]
fn full_cache_evicts_the_least_recently_used() {
    let mut cache = BadBlockCache::new(2);
    cache.put(cid(1), reason(1));
    cache.put(cid(2), reason(2));
    cache.put(cid(3), reason(3));
    assert_eq!(cache.peek(&cid(1)), None);
    assert_eq!(cache.peek(&cid(2)), Some(reason(2)));
    assert_eq!(cache.peek(&cid(3)), Some(reason(3)));
}

#[test]
fn replacing_evicts_nothing() {
    let mut cache = BadBlockCache::new(2);
    cache.put(cid(1), reason(1));
    cache.put(cid(2), reason(2));
    cache.put(cid(1), reason(9));
    assert_eq!(cache.peek(&cid(2)), Some(reason(2)));
    cache.put(cid(3), reason(3));
    assert_eq!(cache.peek(&cid(2)), None);
    assert_eq!(cache.peek(&cid(1)), Some(reason(9)));
}

#[test]
fn get_moves_the_entry_to_the_head() {
    let mut cache = BadBlockCache::new(2);
    cache.put(cid(1), reason(1));
    cache.put(cid(2), reason(2));
    assert_eq!(cache.get(&cid(1)), Some(reason(1)));
    cache.put(cid(3), reason(3));
    assert_eq!(cache.peek(&cid(1)), Some(reason(1)));
    assert_eq!(cache.peek(&cid(2)), None);
}

#[test]
fn peek_moves_nothing() {
    let mut cache = BadBlockCache::new(2);
    cache.put(cid(1), reason(1));
    cache.put(cid(2), reason(2));
    assert_eq!(cache.peek(&cid(1)), Some(reason(1)));
    cache.put(cid(3), reason(3));
    assert_eq!(cache.peek(&cid(1)), None);
    assert_eq!(cache.peek(&cid(2)), Some(reason(2)));
}

#[test]
fn failed_get_moves_nothing() {
    let mut cache = BadBlockCache::new(2);
    cache.put(cid(1), reason(1));
    cache.put(cid(2), reason(2));
    assert_eq!(cache.get(&cid(5)), None);
    cache.put(cid(3), reason(3));
    assert_eq!(cache.peek(&cid(1)), None);
    assert_eq!(cache.peek(&cid(2)), Some(reason(2)));
}

#[test]
fn cache_for_one_block_holds_the_last() {
    let mut cache = BadBlockCache::new(1);
    for number in 0..5 {
        assert_eq!(cache.put(cid(number), reason(number)), None);
        assert_eq!(cache.peek(&cid(number)), Some(reason(number)));
    }
    assert_eq!(cache.peek(&cid(3)), None);
}

#[test]
fn recent_block_stays_while_there_is_room() {
    let mut cache = BadBlockCache::new(4);
    for number in 10..14 {
        cache.put(cid(number), reason(number));
    }
    assert_eq!(cache.get(&cid(10)), Some(reason(10)));
    for number in 20..23 {
        cache.put(cid(number), reason(number));
    }
    assert_eq!(cache.peek(&cid(10)), Some(reason(10)));
    cache.put(cid(23), reason(23));
    assert_eq!(cache.peek(&cid(10)), None);
}

#[test]
fn default_cache_holds_two_to_the_fifteen_blocks() {
    assert_eq!(DEFAULT_CAPACITY, 1 << 15);
    let mut cache = BadBlockCache::default();
    for number in 0..(1 << 15) {
        cache.put(cid(number), reason(number));
    }
    assert_eq!(cache.peek(&cid(0)), Some(reason(0)));
    cache.put(cid(1 << 15), reason(1 << 15));
    assert_eq!(cache.peek(&cid(0)), None);
    assert_eq!(cache.peek(&cid(1)), Some(reason(1)));
    assert_eq!(cache.peek(&cid(1 << 15)), Some(reason(1 << 15)));
}
