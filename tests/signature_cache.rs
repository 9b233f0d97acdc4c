use payment_gateway::signature_cache::SignatureCache;

#[test]
fn test_replay_detection() {
    let mut cache = SignatureCache::new();
    let sig = "0x1234567890abcdef";

    assert!(!cache.is_replay(sig));
    cache.add(sig);
    assert!(cache.is_replay(sig));
}

#[test]
fn test_cleanup() {
    let mut cache = SignatureCache::with_ttl(100);
    let sig1 = "0xaaaa";
    let sig2 = "0xbbbb";
    let start = cache.now_millis();

    cache.add_at(sig1, start);
    assert_eq!(cache.size(), 1);

    // 150 ms later the first signature has outlived its 100 ms
    let now = start + 150;
    cache.add_at(sig2, now);
    cache.cleanup(now);
    assert_eq!(cache.size(), 1);

    assert!(!cache.is_replay_at(sig1, now));
    assert!(cache.is_replay_at(sig2, now));
}

#[test]
fn remembered_signature_expires_after_ttl() {
    let mut cache = SignatureCache::new();
    cache.add_at("0xfeed", 1_000);
    assert!(cache.is_replay_at("0xfeed", 1_000 + 119_999));
    assert!(cache.is_replay_at("0xfeed", 1_000 + 120_000));
    assert_eq!(cache.size(), 1);
    assert!(!cache.is_replay_at("0xfeed", 1_000 + 120_001));
    assert_eq!(cache.size(), 0);
}

#[test]
fn unknown_signature_is_not_a_replay() {
    let mut cache = SignatureCache::default();
    cache.add_at("0x01", 5);
    assert!(!cache.is_replay_at("0x02", 6));
    assert_eq!(cache.size(), 1);
}

#[test]
fn re_adding_keeps_one_entry_with_new_time() {
    let mut cache = SignatureCache::with_ttl(10);
    cache.add_at("0xab", 0);
    cache.add_at("0xab", 8);
    assert_eq!(cache.size(), 1);
    assert!(cache.is_replay_at("0xab", 15));
    assert!(cache.is_replay_at("0xab", 18));
    assert!(!cache.is_replay_at("0xab", 19));
}

#[test]
fn cleanup_keeps_entry_whose_age_equals_ttl() {
    let mut cache = SignatureCache::with_ttl(100);
    cache.add_at("0xaaaa", 0);
    cache.add_at("0xbbbb", 1);
    cache.cleanup(100);
    assert_eq!(cache.size(), 2);
    cache.cleanup(101);
    assert_eq!(cache.size(), 1);
    assert!(cache.is_replay_at("0xbbbb", 101));
}

#[test]
fn clock_going_back_keeps_entries() {
    let mut cache = SignatureCache::with_ttl(10);
    cache.add_at("0xab", 100);
    assert!(cache.is_replay_at("0xab", 50));
}
