//! The "today" card of the home page: the city an account keeps, and the
//! short-lived cache of weather answers the daemon fetched for it.
//!
//! The clock is an argument (milliseconds on a monotonic clock), so every
//! function here is a plain function of its inputs.
use crate::text::{chars_of, strip_controls, strip_controls_seq, str_eq, string_of, take_chars,
    take_seq, trim_chars, trim_seq};
use crate::accounts::{profile_file_of, require_account_dir, WebIdentity};
use crate::api::{api_error_is, ApiError, NOT_FOUND};
use crate::path::parent_seq;
use vstd::prelude::*;

verus! {

/// At most this many characters of a city name are kept.
pub const MAX_CITY_CHARS: usize = 40;

/// A cached answer is reused for this long (15 minutes), in milliseconds.
pub const CACHE_TTL_MS: u64 = 900_000;

/// When the cache holds more cities than this, it is emptied before the next
/// city is added.
pub const MAX_CACHED_CITIES: usize = 64;

/// What a city name becomes: control characters dropped, then trimmed, then
/// cut to [`MAX_CITY_CHARS`] characters.
pub open spec fn normalized_city(raw: Seq<char>) -> Seq<char> {
    take_seq(trim_seq(strip_controls_seq(raw)), MAX_CITY_CHARS as int)
}

/// Normalizes a city name as the user typed it; the empty string means "no
/// city".
pub fn normalize_city(raw: &str) -> (out: String)
    ensures
        out@ == normalized_city(raw@),
{
    let chars = chars_of(raw);
    let kept = strip_controls(&chars);
    let trimmed = trim_chars(&kept);
    let cut = take_chars(&trimmed, MAX_CITY_CHARS);
    string_of(&cut)
}

/// Time elapsed from `at` to `now`, as `Instant::elapsed` gives it: never
/// negative.
pub open spec fn elapsed(at: u64, now: u64) -> int {
    if now >= at {
        now - at
    } else {
        0
    }
}

/// One cached answer: the city, when it was fetched, and the answer (JSON
/// text).
pub struct CacheEntry {
    pub city: String,
    pub at: u64,
    pub value: String,
}

pub open spec fn entry_view(e: CacheEntry) -> (Seq<char>, u64, Seq<char>) {
    (e.city@, e.at, e.value@)
}

/// The weather cache: at most one entry per city.
pub struct WeatherCache {
    entries: Vec<CacheEntry>,
}

/// The position of `city` in the entry list, or -1.
pub open spec fn city_index(s: Seq<(Seq<char>, u64, Seq<char>)>, city: Seq<char>) -> int
    decreases s.len(),
{
    if s.len() == 0 {
        -1
    } else if s.last().0 == city {
        s.len() - 1
    } else {
        city_index(s.drop_last(), city)
    }
}

/// No city occurs twice.
pub open spec fn distinct_cities(s: Seq<(Seq<char>, u64, Seq<char>)>) -> bool {
    forall|i: int, j: int| 0 <= i < j < s.len() ==> s[i].0 != s[j].0
}

/// What the cache holds for a city, if anything: when it was fetched and the
/// answer.
pub open spec fn lookup(s: Seq<(Seq<char>, u64, Seq<char>)>, city: Seq<char>) -> Option<(u64, Seq<char>)> {
    let i = city_index(s, city);
    if i < 0 {
        None
    } else {
        Some((s[i].1, s[i].2))
    }
}

/// The answer `cached` gives: the stored one while it is younger than the TTL.
pub open spec fn cached_answer(s: Seq<(Seq<char>, u64, Seq<char>)>, city: Seq<char>, now: u64) -> Option<Seq<char>> {
    match lookup(s, city) {
        Some((at, v)) => if elapsed(at, now) < CACHE_TTL_MS {
            Some(v)
        } else {
            None
        },
        None => None,
    }
}

/// The entries after `remember(city, value, now)`.
pub open spec fn remembered(
    s: Seq<(Seq<char>, u64, Seq<char>)>,
    city: Seq<char>,
    value: Seq<char>,
    now: u64,
) -> Seq<(Seq<char>, u64, Seq<char>)> {
    let base = if s.len() > MAX_CACHED_CITIES {
        Seq::empty()
    } else {
        s
    };
    let i = city_index(base, city);
    if i < 0 {
        base.push((city, now, value))
    } else {
        base.update(i, (city, now, value))
    }
}

proof fn lemma_city_index(s: Seq<(Seq<char>, u64, Seq<char>)>, city: Seq<char>)
    ensures
        -1 <= city_index(s, city) < s.len(),
        city_index(s, city) >= 0 ==> s[city_index(s, city)].0 == city,
        city_index(s, city) < 0 ==> forall|k: int| 0 <= k < s.len() ==> s[k].0 != city,
    decreases s.len(),
{
    if s.len() > 0 && s.last().0 != city {
        let t = s.drop_last();
        lemma_city_index(t, city);
        assert forall|k: int| 0 <= k < t.len() implies t[k] == s[k] by {}
    }
}

proof fn lemma_city_index_distinct(s: Seq<(Seq<char>, u64, Seq<char>)>, city: Seq<char>, k: int)
    requires
        distinct_cities(s),
        0 <= k < s.len(),
        s[k].0 == city,
    ensures
        city_index(s, city) == k,
{
    lemma_city_index(s, city);
}

impl WeatherCache {
    pub closed spec fn view(&self) -> Seq<(Seq<char>, u64, Seq<char>)> {
        self.entries@.map_values(|e: CacheEntry| entry_view(e))
    }

    pub closed spec fn wf(&self) -> bool {
        distinct_cities(self.view())
    }

    /// An empty cache.
    pub fn new() -> (c: Self)
        ensures
            c.wf(),
            c.view() == Seq::<(Seq<char>, u64, Seq<char>)>::empty(),
    {
        let c = WeatherCache { entries: Vec::new() };
        assert(c.view() =~= Seq::<(Seq<char>, u64, Seq<char>)>::empty());
        c
    }

    /// The position of `city` in the entries.
    fn position(&self, city: &str) -> (r: Option<usize>)
        ensures
            match r {
                Some(i) => city_index(self.view(), city@) == i && i < self.entries.len(),
                None => city_index(self.view(), city@) < 0,
            },
    {
        let ghost s = self.view();
        proof {
            lemma_city_index(s, city@);
        }
        let mut j: usize = self.entries.len();
        assert(s.take(j as int) =~= s);
        while j > 0
            invariant
                j <= self.entries.len(),
                s == self.view(),
                s.len() == self.entries.len(),
                city_index(s, city@) == city_index(s.take(j as int), city@),
            decreases j,
        {
            assert(s.take(j as int).drop_last() =~= s.take(j - 1));
            assert(s[j - 1].0 == self.entries[j - 1].city@);
            if str_eq(self.entries[j - 1].city.as_str(), city) {
                return Some(j - 1);
            }
            j -= 1;
        }
        None
    }

    /// The cached answer for `city`, if it was fetched less than
    /// [`CACHE_TTL_MS`] before `now`.
    pub fn cached(&self, city: &str, now: u64) -> (r: Option<String>)
        ensures
            match r {
                Some(v) => cached_answer(self.view(), city@, now) == Some(v@),
                None => cached_answer(self.view(), city@, now) is None,
            },
    {
        match self.position(city) {
            None => None,
            Some(i) => {
                let e = &self.entries[i];
                assert(self.view()[i as int] == entry_view(*e));
                let age: u64 = if now >= e.at {
                    now - e.at
                } else {
                    0
                };
                if age < CACHE_TTL_MS {
                    Some(e.value.clone())
                } else {
                    None
                }
            },
        }
    }

    /// Stores an answer for `city` fetched at `now`, replacing an earlier one;
    /// a cache already holding more than [`MAX_CACHED_CITIES`] cities is
    /// emptied first.
    pub fn remember(&mut self, city: &str, value: &str, now: u64)
        requires
            old(self).wf(),
        ensures
            final(self).wf(),
            final(self).view() == remembered(old(self).view(), city@, value@, now),
    {
        if self.entries.len() > MAX_CACHED_CITIES {
            self.entries = Vec::new();
            assert(self.view() =~= Seq::<(Seq<char>, u64, Seq<char>)>::empty());
        }
        let ghost base = self.view();
        let entry = CacheEntry { city: city.to_owned(), at: now, value: value.to_owned() };
        match self.position(city) {
            None => {
                proof {
                    lemma_city_index(base, city@);
                }
                self.entries.push(entry);
                assert(self.view() =~= base.push((city@, now, value@)));
            },
            Some(i) => {
                self.entries.set(i, entry);
                assert(self.view() =~= base.update(i as int, (city@, now, value@)));
                proof {
                    lemma_city_index(base, city@);
                }
            },
        }
    }
}

/// A cached answer is found again, unchanged, by any lookup of the same city
/// made less than [`CACHE_TTL_MS`] after it was stored.
pub proof fn law_remember_then_cached(
    s: Seq<(Seq<char>, u64, Seq<char>)>,
    city: Seq<char>,
    value: Seq<char>,
    at: u64,
    now: u64,
)
    requires
        distinct_cities(s),
        elapsed(at, now) < CACHE_TTL_MS,
    ensures
        cached_answer(remembered(s, city, value, at), city, now) == Some(value),
{
    let base = if s.len() > MAX_CACHED_CITIES {
        Seq::empty()
    } else {
        s
    };
    lemma_city_index(base, city);
    let t = remembered(s, city, value, at);
    let i = city_index(base, city);
    if i < 0 {
        assert(distinct_cities(t));
        lemma_city_index_distinct(t, city, t.len() - 1);
    } else {
        assert(distinct_cities(t));
        lemma_city_index_distinct(t, city, i);
    }
}

/// Storing an answer for one city leaves the answer cached for every other
/// city as it was, unless the cache was emptied for being full.
pub proof fn law_remember_keeps_other_cities(
    s: Seq<(Seq<char>, u64, Seq<char>)>,
    city: Seq<char>,
    other: Seq<char>,
    value: Seq<char>,
    at: u64,
    now: u64,
)
    requires
        distinct_cities(s),
        s.len() <= MAX_CACHED_CITIES,
        other != city,
    ensures
        cached_answer(remembered(s, city, value, at), other, now) == cached_answer(s, other, now),
{
    lemma_city_index(s, city);
    lemma_city_index(s, other);
    let t = remembered(s, city, value, at);
    lemma_city_index(t, other);
    let k = city_index(s, other);
    if k >= 0 {
        lemma_city_index_distinct(t, other, k);
    } else {
        assert forall|m: int| 0 <= m < t.len() implies t[m].0 != other by {
            if m < s.len() {
            }
        }
    }
}


/// What the "today" card shows: the city, the weather (JSON text) when
/// known, and `not_found` or `unavailable` when it could not be had.
pub struct TodayAnswer {
    pub city: String,
    pub weather: Option<String>,
    pub error: Option<&'static str>,
}

/// The view of an answer.
pub open spec fn answer_view(a: TodayAnswer) -> (Seq<char>, Option<Seq<char>>, Option<Seq<char>>) {
    (
        a.city@,
        match a.weather {
            Some(w) => Some(w@),
            None => None,
        },
        match a.error {
            Some(e) => Some(e@),
            None => None,
        },
    )
}

/// The first step of the card.
pub enum TodayStep {
    /// Answered without asking the weather service.
    Answer(TodayAnswer),
    /// The weather service must be asked.
    Fetch,
}

/// What asking the weather service gave.
pub enum WeatherFetch {
    Found(String),
    /// The city is not known to the geocoder.
    NotFound,
    /// The service could not be reached or answered badly.
    Failed,
}

/// The card's first step: no city means no weather; a cached answer
/// younger than the TTL is reused; otherwise the service is asked.
pub open spec fn today_start_of(
    s: Seq<(Seq<char>, u64, Seq<char>)>,
    city: Seq<char>,
    now: u64,
) -> Option<(Seq<char>, Option<Seq<char>>, Option<Seq<char>>)> {
    if city.len() == 0 {
        Some((city, None, None))
    } else {
        match cached_answer(s, city, now) {
            Some(w) => Some((city, Some(w), None)),
            None => None,
        }
    }
}

/// The card after asking the service: a found answer is shown (and
/// remembered); otherwise no weather and the reason.
pub open spec fn today_fetched_of(
    city: Seq<char>,
    fetched: WeatherFetch,
) -> (Seq<char>, Option<Seq<char>>, Option<Seq<char>>) {
    match fetched {
        WeatherFetch::Found(w) => (city, Some(w@), None),
        WeatherFetch::NotFound => (city, None, Some("not_found"@)),
        WeatherFetch::Failed => (city, None, Some("unavailable"@)),
    }
}

impl WeatherCache {
    /// The first step of the card for `city` at `now`.
    pub fn today_start(&self, city: &str, now: u64) -> (r: TodayStep)
        ensures
            match (r, today_start_of(self.view(), city@, now)) {
                (TodayStep::Answer(a), Some(v)) => answer_view(a) == v,
                (TodayStep::Fetch, None) => true,
                _ => false,
            },
    {
        if chars_of(city).len() == 0 {
            return TodayStep::Answer(TodayAnswer { city: city.to_owned(), weather: None, error: None });
        }
        match self.cached(city, now) {
            Some(w) => TodayStep::Answer(TodayAnswer { city: city.to_owned(), weather: Some(w), error: None }),
            None => TodayStep::Fetch,
        }
    }

    /// The card after the service answered for `city` at `now`: a found
    /// answer is remembered for the next requests.
    pub fn today_fetched(&mut self, city: &str, fetched: WeatherFetch, now: u64) -> (r: TodayAnswer)
        requires
            old(self).wf(),
        ensures
            final(self).wf(),
            answer_view(r) == today_fetched_of(city@, fetched),
            fetched matches WeatherFetch::Found(w) ==> final(self).view() == remembered(old(self).view(), city@, w@, now),
            !(fetched is Found) ==> final(self).view() == old(self).view(),
    {
        match fetched {
            WeatherFetch::Found(w) => {
                self.remember(city, w.as_str(), now);
                TodayAnswer { city: city.to_owned(), weather: Some(w), error: None }
            },
            WeatherFetch::NotFound => TodayAnswer { city: city.to_owned(), weather: None, error: Some("not_found") },
            WeatherFetch::Failed => TodayAnswer { city: city.to_owned(), weather: None, error: Some("unavailable") },
        }
    }
}

/// Once the service answered for a city, the card shows that same answer
/// without asking again for the next 15 minutes.
pub proof fn law_found_weather_is_reused(
    s: Seq<(Seq<char>, u64, Seq<char>)>,
    city: Seq<char>,
    weather: Seq<char>,
    at: u64,
    now: u64,
)
    requires
        distinct_cities(s),
        city.len() > 0,
        elapsed(at, now) < CACHE_TTL_MS,
    ensures
        today_start_of(remembered(s, city, weather, at), city, now) == Some((city, Some(weather), None::<Seq<char>>)),
{
    law_remember_then_cached(s, city, weather, at, now);
}

/// The directory of the signed-in user's home files (the directory of their
/// profile), or `404 account directory not found`.
pub fn require_home_dir(owner_profile: &str, member_profile: &str, identity: &WebIdentity) -> (r: Result<String, ApiError>)
    ensures
        match r {
            Ok(d) => parent_seq(profile_file_of(owner_profile@, member_profile@, *identity)) == Some(d@),
            Err(e) => parent_seq(profile_file_of(owner_profile@, member_profile@, *identity)) is None
                && api_error_is(e, NOT_FOUND, "account directory not found"@),
        },
{
    require_account_dir(owner_profile, member_profile, identity)
}

} // verus!
