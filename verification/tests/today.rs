use gqy_web::today::{normalize_city, TodayAnswer, TodayStep, WeatherCache, WeatherFetch, CACHE_TTL_MS, MAX_CITY_CHARS};

#[test]
fn city_is_trimmed_and_bounded() {
    assert_eq!(normalize_city("  北京 \n"), "北京");
    assert_eq!(normalize_city("\u{7}上海\t"), "上海");
    assert_eq!(
        normalize_city(&"长".repeat(100)).chars().count(),
        MAX_CITY_CHARS
    );
    assert_eq!(normalize_city("   "), "");
}

#[test]
fn cached_weather_expires_after_the_ttl() {
    let mut cache = WeatherCache::new();
    cache.remember("杭州", "{\"code\":1}", 1_000);
    assert_eq!(cache.cached("杭州", 1_000 + CACHE_TTL_MS - 1).as_deref(), Some("{\"code\":1}"));
    assert_eq!(cache.cached("杭州", 1_000 + CACHE_TTL_MS), None);
    assert_eq!(cache.cached("北京", 1_000), None);
    cache.remember("杭州", "{\"code\":2}", 2_000);
    assert_eq!(cache.cached("杭州", 2_000).as_deref(), Some("{\"code\":2}"));
}

#[test]
fn a_full_cache_is_emptied_before_the_next_city() {
    let mut cache = WeatherCache::new();
    for i in 0..65 {
        cache.remember(&format!("c{i}"), "v", 0);
    }
    assert_eq!(cache.cached("c0", 0).as_deref(), Some("v"));
    cache.remember("new", "w", 0);
    assert_eq!(cache.cached("c0", 0), None);
    assert_eq!(cache.cached("new", 0).as_deref(), Some("w"));
}

#[test]
fn remembering_a_city_keeps_the_others() {
    let mut cache = WeatherCache::new();
    cache.remember("杭州", "a", 10);
    cache.remember("北京", "b", 20);
    assert_eq!(cache.cached("杭州", 30).as_deref(), Some("a"));
    assert_eq!(cache.cached("北京", 30).as_deref(), Some("b"));
}

#[test]
fn the_today_card_asks_the_service_only_when_it_must() {
    let mut cache = WeatherCache::new();
    assert!(matches!(
        cache.today_start("", 0),
        TodayStep::Answer(TodayAnswer { ref city, weather: None, error: None }) if city.is_empty()
    ));
    assert!(matches!(cache.today_start("Hangzhou", 0), TodayStep::Fetch));
    let answer = cache.today_fetched("Hangzhou", WeatherFetch::Found("{\"code\":3}".to_string()), 1_000);
    assert_eq!(answer.weather.as_deref(), Some("{\"code\":3}"));
    assert_eq!(answer.error, None);
    match cache.today_start("Hangzhou", 1_000 + 899_999) {
        TodayStep::Answer(a) => assert_eq!(a.weather.as_deref(), Some("{\"code\":3}")),
        TodayStep::Fetch => panic!("a fresh answer is reused"),
    }
    assert!(matches!(cache.today_start("Hangzhou", 1_000 + 900_000), TodayStep::Fetch));
    let missing = cache.today_fetched("Atlantis", WeatherFetch::NotFound, 5);
    assert_eq!((missing.weather, missing.error), (None, Some("not_found")));
    let down = cache.today_fetched("Paris", WeatherFetch::Failed, 5);
    assert_eq!(down.error, Some("unavailable"));
    assert!(matches!(cache.today_start("Paris", 6), TodayStep::Fetch));
}
