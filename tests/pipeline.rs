use std::collections::BTreeMap;

use area_weather::area::{Area, Data, FetchError, Metadata};
use area_weather::cache::{clear_commands, refresh_commands, CacheCommand, CacheError};
use area_weather::json::{Json, JsonNumber};
use area_weather::pipeline::{
    enrich_area, resolve_area, AreaFailure, AreaWeather, BatchSummary, PipelineError, ResponseAndArea,
};
use area_weather::weather::DecodeError;

const AREAS: &str =
    r#"{"areas": [{"area_name": "Half Dome", "metadata": {"lat": 37.7459, "lng": -119.5332}}]}"#;

const TWO_AREAS: &str = r#"{"areas": [
    {"area_name": "Half Dome", "metadata": {"lat": 37.7459, "lng": -119.5332}},
    {"area_name": "El Capitan", "metadata": {"lat": 37.7339, "lng": -119.6377}}
]}"#;

fn aq() -> &'static str {
    r#"{"co": 247.0, "no2": 2.5, "o3": 101.6, "so2": 1.8, "pm2_5": 5.6, "pm10": 5.8, "us-epa-index": 1, "gb-defra-index": 1}"#
}

fn weather_payload() -> Vec<u8> {
    format!(
        r#"{{"location": {{"name": "Yosemite Valley", "region": "California", "country": "USA",
              "lat": 37.75, "lon": -119.53, "tz_id": "America/Los_Angeles", "localtime": "2023-03-19 21:23"}},
            "current": {{"temp_c": 3.0, "temp_f": 37.4, "condition": {{"text": "Clear"}}, "wind_kph": 4.0,
              "precip_mm": 0.0, "humidity": 60, "cloud": 0, "uv": 1.0, "air_quality": {a}}},
            "forecast": {{"forecastday": [{{"date": "2023-03-19",
              "day": {{"maxtemp_c": 9.0, "mintemp_c": -3.0, "avgtemp_c": 2.5, "totalprecip_mm": 0.0,
                "daily_chance_of_rain": 0, "condition": {{"text": "Sunny"}}, "air_quality": {a}}},
              "astro": {{"is_moon_up": 0, "is_sun_up": 1}},
              "hour": [{{"condition": {{}}, "air_quality": {a}}}]}}]}}}}"#,
        a = aq()
    )
    .into_bytes()
}

fn to_value(j: &Json) -> serde_json::Value {
    match j {
        Json::Null => serde_json::Value::Null,
        Json::Bool(b) => serde_json::Value::Bool(*b),
        Json::Number(JsonNumber::Unsigned(u)) => serde_json::Value::from(*u),
        Json::Number(JsonNumber::Signed(i)) => serde_json::Value::from(*i),
        Json::Number(JsonNumber::Decimal(t)) => serde_json::Value::Number(t.parse().unwrap()),
        Json::Str(s) => serde_json::Value::String(s.clone()),
        Json::Array(items) => serde_json::Value::Array(items.iter().map(to_value).collect()),
        Json::Object(fields) => serde_json::Value::Object(
            fields.iter().map(|(k, v)| (k.clone(), to_value(v))).collect(),
        ),
    }
}

#[derive(Default, Clone, PartialEq, Debug)]
struct FakeCache {
    entries: BTreeMap<String, Vec<u8>>,
}

impl FakeCache {
    fn apply(&mut self, commands: Vec<CacheCommand>) -> usize {
        let n = commands.len();
        for c in commands {
            match c {
                CacheCommand::Put(a) => {
                    let value = serde_json::to_vec(&to_value(&a.metadata.to_json())).unwrap();
                    self.entries.insert(a.area_name, value);
                }
                CacheCommand::Delete(k) => {
                    self.entries.remove(&k);
                }
            }
        }
        n
    }

    fn keys(&self) -> Vec<String> {
        self.entries.keys().cloned().collect()
    }
}

fn refresh(cache: &mut FakeCache, fetched: Result<Data, FetchError>) -> Result<usize, FetchError> {
    let commands = refresh_commands(&fetched)?;
    Ok(cache.apply(commands))
}

fn run(
    cache: &FakeCache,
    weather: impl Fn(&Area) -> Result<Vec<u8>, FetchError>,
    docs: &mut Vec<ResponseAndArea>,
) -> Result<BatchSummary, PipelineError> {
    let mut summary = BatchSummary::new();
    for key in cache.keys() {
        let cached: Result<Option<Vec<u8>>, CacheError> = Ok(cache.entries.get(&key).cloned());
        let outcome = match resolve_area(&key, &cached) {
            Err(f) => Err(f),
            Ok(area) => {
                let payload = weather(&area);
                match enrich_area(area, &payload) {
                    Err(f) => Err(f),
                    Ok(doc) => {
                        docs.push(doc);
                        Ok(())
                    }
                }
            }
        };
        summary.record(key, outcome);
    }
    summary.finish()
}

#[test]
fn refresh_then_enrich_half_dome() {
    let mut cache = FakeCache::default();
    let data = Data::from_response(AREAS.as_bytes());
    assert_eq!(refresh(&mut cache, data), Ok(1));
    assert_eq!(cache.keys(), vec!["Half Dome".to_string()]);
    let mut docs = Vec::new();
    let summary = run(&cache, |_| Ok(weather_payload()), &mut docs).ok().unwrap();
    assert_eq!(summary.succeeded_count(), 1);
    assert_eq!(summary.failed_count(), 0);
    assert!(!summary.is_degraded());
    assert_eq!(docs.len(), 1);
    assert_eq!(docs[0].area.area_name, "Half Dome");
    assert_eq!(docs[0].area.metadata.lat, JsonNumber::Decimal("37.7459".to_string()));
    assert_eq!(docs[0].response.location.name, "Yosemite Valley");
    let named = AreaWeather::from(docs[0].clone());
    assert_eq!(named.area_name, "Half Dome");
}

#[test]
fn failed_refresh_leaves_cache_unchanged() {
    let mut cache = FakeCache::default();
    refresh(&mut cache, Data::from_response(TWO_AREAS.as_bytes())).unwrap();
    let before = cache.clone();
    assert_eq!(refresh(&mut cache, Err(FetchError::TimedOut)), Err(FetchError::TimedOut));
    assert_eq!(cache, before);
    let malformed = Data::from_response(br#"{"areas": [{"area_name": "X"}]}"#);
    assert_eq!(refresh(&mut cache, malformed), Err(FetchError::Malformed));
    assert_eq!(cache, before);
    assert_eq!(refresh(&mut cache, Data::from_response(b"<html>")), Err(FetchError::Malformed));
    assert_eq!(cache, before);
}

#[test]
fn one_failed_weather_call_does_not_abort_the_batch() {
    let mut cache = FakeCache::default();
    refresh(&mut cache, Data::from_response(TWO_AREAS.as_bytes())).unwrap();
    let mut docs = Vec::new();
    let weather = |a: &Area| {
        if a.area_name == "El Capitan" {
            Err(FetchError::TimedOut)
        } else {
            Ok(weather_payload())
        }
    };
    let summary = run(&cache, weather, &mut docs).ok().unwrap();
    assert_eq!(summary.succeeded_count(), 1);
    assert_eq!(summary.failed_count(), 1);
    assert!(summary.is_degraded());
    assert_eq!(
        summary.failed,
        vec![("El Capitan".to_string(), AreaFailure::Weather(FetchError::TimedOut))]
    );
    assert_eq!(docs.len(), 1);
    assert_eq!(docs[0].area.area_name, "Half Dome");
}

#[test]
fn every_area_failing_is_a_run_failure() {
    let mut cache = FakeCache::default();
    refresh(&mut cache, Data::from_response(TWO_AREAS.as_bytes())).unwrap();
    let mut docs = Vec::new();
    let r = run(&cache, |_| Ok(b"{}".to_vec()), &mut docs);
    match r {
        Err(PipelineError::AllFailed(s)) => {
            assert_eq!(s.succeeded_count(), 0);
            assert_eq!(s.failed_count(), 2);
            assert_eq!(s.failed[0].1, AreaFailure::Decode(DecodeError::MissingField));
        }
        other => panic!("expected a run failure, got {:?}", other),
    }
    assert!(docs.is_empty());
}

#[test]
fn empty_run_is_healthy() {
    let cache = FakeCache::default();
    let mut docs = Vec::new();
    let summary = run(&cache, |_| Ok(weather_payload()), &mut docs).ok().unwrap();
    assert_eq!(summary.succeeded_count(), 0);
    assert_eq!(summary.failed_count(), 0);
}

#[test]
fn clear_on_empty_cache_deletes_nothing() {
    let mut cache = FakeCache::default();
    let commands = clear_commands(&cache.keys());
    assert!(commands.is_empty());
    assert_eq!(cache.apply(commands), 0);
    assert!(cache.entries.is_empty());
}

#[test]
fn clear_removes_every_enumerated_key() {
    let mut cache = FakeCache::default();
    refresh(&mut cache, Data::from_response(TWO_AREAS.as_bytes())).unwrap();
    let commands = clear_commands(&cache.keys());
    assert_eq!(commands.len(), 2);
    assert_eq!(cache.apply(commands), 2);
    assert!(cache.entries.is_empty());
}

#[test]
fn key_written_after_enumeration_survives_clear() {
    let mut cache = FakeCache::default();
    refresh(&mut cache, Data::from_response(AREAS.as_bytes())).unwrap();
    let keys = cache.keys();
    cache.entries.insert("Late Arrival".to_string(), b"{}".to_vec());
    cache.apply(clear_commands(&keys));
    assert_eq!(cache.keys(), vec!["Late Arrival".to_string()]);
}

#[test]
fn delete_of_absent_key_is_noop() {
    let mut cache = FakeCache::default();
    refresh(&mut cache, Data::from_response(AREAS.as_bytes())).unwrap();
    let before = cache.clone();
    let commands = clear_commands(&vec!["Nowhere".to_string()]);
    assert_eq!(commands, vec![CacheCommand::Delete("Nowhere".to_string())]);
    cache.apply(commands);
    assert_eq!(cache, before);
}

#[test]
fn duplicate_names_overwrite() {
    let body = r#"{"areas": [
        {"area_name": "Half Dome", "metadata": {"lat": 1.5, "lng": 2.5}},
        {"area_name": "Half Dome", "metadata": {"lat": 37.7459, "lng": -119.5332}}
    ]}"#;
    let mut cache = FakeCache::default();
    refresh(&mut cache, Data::from_response(body.as_bytes())).unwrap();
    assert_eq!(cache.keys(), vec!["Half Dome".to_string()]);
    let m = Metadata::from_cached(&cache.entries["Half Dome"]).unwrap();
    assert_eq!(m.lat, JsonNumber::Decimal("37.7459".to_string()));
    assert_eq!(m.lng, JsonNumber::Decimal("-119.5332".to_string()));
}

#[test]
fn refresh_keeps_stale_areas() {
    let mut cache = FakeCache::default();
    cache.entries.insert("Stale".to_string(), b"{\"lat\": 1, \"lng\": 2}".to_vec());
    refresh(&mut cache, Data::from_response(AREAS.as_bytes())).unwrap();
    assert_eq!(cache.keys(), vec!["Half Dome".to_string(), "Stale".to_string()]);
}

#[test]
fn cached_metadata_round_trips() {
    let m = Metadata { lat: JsonNumber::Decimal("37.7459".to_string()), lng: JsonNumber::Signed(-119) };
    let bytes = serde_json::to_vec(&to_value(&m.to_json())).unwrap();
    assert_eq!(Metadata::from_cached(&bytes), Some(m));
}

#[test]
fn unusable_cache_entries_are_area_failures() {
    let key = "Half Dome".to_string();
    assert_eq!(resolve_area(&key, &Ok(None)), Err(AreaFailure::NotCached));
    assert_eq!(resolve_area(&key, &Ok(Some(b"[1, 2]".to_vec()))), Err(AreaFailure::BadCachedValue));
    assert_eq!(
        resolve_area(&key, &Err(CacheError::Unavailable)),
        Err(AreaFailure::Cache(CacheError::Unavailable))
    );
    let area = resolve_area(&key, &Ok(Some(b"{\"lat\": 37.7459, \"lng\": -119.5332}".to_vec()))).unwrap();
    assert_eq!(area.area_name, "Half Dome");
    assert_eq!(
        enrich_area(area.clone(), &Ok(b"nope".to_vec())),
        Err(AreaFailure::Decode(DecodeError::NotJson))
    );
    assert_eq!(
        enrich_area(area, &Err(FetchError::Unreachable)),
        Err(AreaFailure::Weather(FetchError::Unreachable))
    );
}
