use sixty_challenge_days::lru_cache::LRUCache;

#[test]
fn should_evict_lru() {
    let mut lru = LRUCache::new(0);

    lru.put("Bard".to_string(), 2);
    lru.put("Teste".to_string(), 2);
    lru.put("Gemini".to_string(), 2);

    lru.get("Teste".to_string());
    lru.put("Lucas".to_string(), 5);
    lru.get("Teste".to_string());
    lru.get("Lucas".to_string());

    assert_eq!(lru.back(), Some(&"Teste".to_string()));
}

#[test]
fn get_returns_the_cached_value() {
    let mut lru = LRUCache::new(8);
    assert_eq!(lru.get(1u32), None);
    lru.put(1u32, "one");
    lru.put(2u32, "two");
    assert_eq!(lru.get(1u32), Some(&"one"));
    lru.put(1u32, "uno");
    assert_eq!(lru.get(1u32), Some(&"uno"));
    assert_eq!(lru.back(), Some(&1u32));
}
