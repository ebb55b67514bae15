use area_weather::calendar::{Date, DateTime};
use area_weather::json::{Json, JsonNumber};
use area_weather::weather::{normalize, DecodeError, WeatherResponse};

fn air(us: &str, gb: &str) -> String {
    format!(
        r#"{{"co": 247.0, "no2": 2.5, "o3": 101.5999984741211, "so2": 1.7999999523162842,
            "pm2_5": 5.599999904632568, "pm10": 5.800000190734863, {}, {}}}"#,
        us, gb
    )
}

fn std_air() -> String {
    air(r#""us-epa-index": 1"#, r#""gb-defra-index": 1"#)
}

fn payload_with(localtime: &str, date: &str, moon: &str, sun: &str, hours: &str, aq: &str) -> String {
    format!(
        r#"{{
        "location": {{
            "name": "Edina", "region": "Missouri", "country": "United States of America",
            "lat": 40.13, "lon": -92.14, "tz_id": "America/Chicago",
            "localtime_epoch": 1679286189, "localtime": "{localtime}"
        }},
        "current": {{
            "temp_c": -2.2, "temp_f": 28.0,
            "condition": {{"text": "Clear", "icon": "//cdn.weatherapi.com/weather/64x64/night/113.png", "code": 1000}},
            "wind_mph": 9.4, "wind_kph": 15.1, "wind_degree": 190, "precip_mm": 0.0, "precip_in": 0.0,
            "humidity": 55, "cloud": 0, "feelslike_c": -8.0, "feelslike_f": 17.5, "uv": 1.0,
            "air_quality": {aq}
        }},
        "forecast": {{
            "forecastday": [
                {{
                    "date": "{date}",
                    "day": {{
                        "maxtemp_c": 6.0, "maxtemp_f": 42.8, "mintemp_c": -7.7, "mintemp_f": 18.1,
                        "avgtemp_c": -1.8, "avgtemp_f": 28.7, "maxwind_mph": 13.0, "maxwind_kph": 20.9,
                        "totalprecip_mm": 0.0, "totalprecip_in": 0.0, "totalsnow_cm": 0.0,
                        "avghumidity": 47.0, "daily_chance_of_rain": 0,
                        "condition": {{"text": "Sunny", "icon": "//cdn.weatherapi.com/weather/64x64/day/113.png", "code": 1000}},
                        "air_quality": {std}
                    }},
                    "astro": {{"is_moon_up": {moon}, "is_sun_up": {sun}}},
                    "hour": [{hours}]
                }}
            ]
        }}
    }}"#,
        std = std_air()
    )
}

fn hours_plain() -> String {
    format!(
        r#"{{"condition": {{}}, "air_quality": {a}}}, {{"air_quality": {a}}}, {{"condition": {{"text": "Clear"}}, "air_quality": {a}}}"#,
        a = std_air()
    )
}

fn sample() -> String {
    payload_with("2023-03-19 23:23", "2023-03-19", "0", "1", &hours_plain(), &std_air())
}

fn decode(text: &str) -> Result<WeatherResponse, DecodeError> {
    normalize(text.as_bytes())
}

#[test]
fn sample_payload_normalizes() {
    let w = decode(&sample()).unwrap();
    assert_eq!(w.location.name, "Edina");
    assert_eq!(w.location.tz_id, "America/Chicago");
    assert_eq!(
        w.location.localtime,
        DateTime { date: Date { year: 2023, month: 3, day: 19 }, hour: 23, minute: 23 }
    );
    assert_eq!(w.location.lat, JsonNumber::Decimal("40.13".to_string()));
    assert_eq!(w.current.temp_c, JsonNumber::Decimal("-2.2".to_string()));
    assert_eq!(w.current.humidity, JsonNumber::Unsigned(55));
    assert_eq!(w.current.condition.text, "Clear");
    assert_eq!(w.current.air_quality.us_epa_index, 1);
    assert_eq!(w.current.air_quality.gb_defra_index, 1);
    assert_eq!(w.forecast.forecastday.len(), 1);
    let day = &w.forecast.forecastday[0];
    assert_eq!(day.date, Date { year: 2023, month: 3, day: 19 });
    assert_eq!(day.condition.text, "Sunny");
    assert_eq!(day.daily_chance_of_rain, JsonNumber::Unsigned(0));
    assert_eq!(day.mintemp_c, JsonNumber::Decimal("-7.7".to_string()));
    assert_eq!(day.hour.len(), 3);
}

#[test]
fn flags_zero_means_up_and_one_means_down() {
    let w = decode(&sample()).unwrap();
    let day = &w.forecast.forecastday[0];
    assert!(day.is_moon_up);
    assert!(!day.is_sun_up);
    let w = decode(&payload_with("2023-03-19 23:23", "2023-03-19", "1", "0", "", &std_air())).unwrap();
    assert!(!w.forecast.forecastday[0].is_moon_up);
    assert!(w.forecast.forecastday[0].is_sun_up);
}

#[test]
fn normalize_is_deterministic() {
    let text = sample();
    let a = decode(&text);
    let b = decode(&text);
    assert_eq!(a, b);
    assert!(a.is_ok());
}

#[test]
fn flag_outside_zero_and_one_fails() {
    for moon in ["2", "-1", "7", "255"] {
        let r = decode(&payload_with("2023-03-19 23:23", "2023-03-19", moon, "1", "", &std_air()));
        assert_eq!(r, Err(DecodeError::BadFlag));
    }
    let r = decode(&payload_with("2023-03-19 23:23", "2023-03-19", "0", "3", "", &std_air()));
    assert_eq!(r, Err(DecodeError::BadFlag));
    let r = decode(&payload_with("2023-03-19 23:23", "2023-03-19", "\"0\"", "1", "", &std_air()));
    assert_eq!(r, Err(DecodeError::WrongType));
}

#[test]
fn hourly_condition_may_be_missing() {
    let w = decode(&sample()).unwrap();
    let hours = &w.forecast.forecastday[0].hour;
    assert_eq!(hours[0].condition, None);
    assert_eq!(hours[1].condition, None);
    assert_eq!(hours[2].condition.as_ref().map(|c| c.text.as_str()), Some("Clear"));
    assert_eq!(hours[1].air_quality.co, JsonNumber::Decimal("247.0".to_string()));
}

#[test]
fn missing_gb_defra_index_fails() {
    let aq = air(r#""us-epa-index": 2"#, r#""pm1": 1.0"#);
    let r = decode(&payload_with("2023-03-19 23:23", "2023-03-19", "0", "1", "", &aq));
    assert_eq!(r, Err(DecodeError::MissingField));
}

#[test]
fn canonical_index_names_are_accepted() {
    let aq = air(r#""us_epa_index": 2"#, r#""gb_defra_index": 3"#);
    let w = decode(&payload_with("2023-03-19 23:23", "2023-03-19", "0", "1", "", &aq)).unwrap();
    assert_eq!(w.current.air_quality.us_epa_index, 2);
    assert_eq!(w.current.air_quality.gb_defra_index, 3);
}

#[test]
fn index_under_both_names_fails() {
    let aq = air(r#""us_epa_index": 2, "us-epa-index": 2"#, r#""gb-defra-index": 3"#);
    let r = decode(&payload_with("2023-03-19 23:23", "2023-03-19", "0", "1", "", &aq));
    assert_eq!(r, Err(DecodeError::DuplicateField));
}

#[test]
fn decimal_index_is_wrong_type() {
    let aq = air(r#""us-epa-index": 2.5"#, r#""gb-defra-index": 3"#);
    let r = decode(&payload_with("2023-03-19 23:23", "2023-03-19", "0", "1", "", &aq));
    assert_eq!(r, Err(DecodeError::WrongType));
}

#[test]
fn dates_must_match_their_exact_format() {
    for date in ["2023-3-19", "2023-03-19 00:00", "19-03-2023", "2023-02-29", "2023-13-01", "2023-04-31"] {
        let r = decode(&payload_with("2023-03-19 23:23", date, "0", "1", "", &std_air()));
        assert_eq!(r, Err(DecodeError::BadDate), "{}", date);
    }
    let w = decode(&payload_with("2024-02-29 00:00", "2024-02-29", "0", "1", "", &std_air())).unwrap();
    assert_eq!(w.forecast.forecastday[0].date, Date { year: 2024, month: 2, day: 29 });
}

#[test]
fn local_time_must_match_its_exact_format() {
    for t in ["2023-03-19", "2023-03-19T23:23", "2023-03-19 24:00", "2023-03-19 23:60", "2023-03-19 23:23:00"] {
        let r = decode(&payload_with(t, "2023-03-19", "0", "1", "", &std_air()));
        assert_eq!(r, Err(DecodeError::BadDateTime), "{}", t);
    }
}

#[test]
fn bytes_that_are_no_json_fail() {
    assert_eq!(normalize(b"{\"location\": "), Err(DecodeError::NotJson));
    assert_eq!(normalize(b""), Err(DecodeError::NotJson));
}

#[test]
fn missing_section_fails() {
    assert_eq!(decode(r#"{"current": {}, "forecast": {}}"#), Err(DecodeError::MissingField));
    assert_eq!(decode(r#"{"location": 3}"#), Err(DecodeError::WrongType));
}

#[test]
fn integers_and_decimals_are_both_numbers() {
    let text = sample().replace("\"temp_f\": 28.0", "\"temp_f\": 28");
    let w = decode(&text).unwrap();
    assert_eq!(w.current.temp_f, JsonNumber::Unsigned(28));
    let text = sample().replace("\"temp_f\": 28.0", "\"temp_f\": \"28\"");
    assert_eq!(decode(&text), Err(DecodeError::WrongType));
}

#[test]
fn forecast_days_keep_their_order() {
    let text = sample();
    let v: serde_json::Value = serde_json::from_str(&text).unwrap();
    let mut v2 = v.clone();
    let day = v["forecast"]["forecastday"][0].clone();
    let mut later = day.clone();
    later["date"] = serde_json::Value::String("2023-03-20".to_string());
    let mut earlier = day.clone();
    earlier["date"] = serde_json::Value::String("2023-03-18".to_string());
    v2["forecast"]["forecastday"] = serde_json::Value::Array(vec![later, day, earlier]);
    let w = normalize(&serde_json::to_vec(&v2).unwrap()).unwrap();
    let dates: Vec<u8> = w.forecast.forecastday.iter().map(|d| d.date.day).collect();
    assert_eq!(dates, vec![20, 19, 18]);
}

#[test]
fn encoding_then_normalizing_gives_the_record_back() {
    let w = decode(&sample()).unwrap();
    let again = area_weather::weather::normalize_json(&w.to_json()).unwrap();
    assert_eq!(again, w);
    let with_canonical = air(r#""us_epa_index": 4"#, r#""gb_defra_index": 6"#);
    let w = decode(&payload_with("2000-02-29 07:05", "0999-12-31", "1", "0", &hours_plain(), &with_canonical)).unwrap();
    let again = area_weather::weather::normalize_json(&w.to_json()).unwrap();
    assert_eq!(again, w);
}

#[test]
fn encoder_writes_the_provider_shape() {
    let w = decode(&sample()).unwrap();
    let j = w.to_json();
    let aq = j.member("current").and_then(|c| c.member("air_quality")).unwrap();
    assert!(matches!(aq.member("us-epa-index"), Some(Json::Number(JsonNumber::Unsigned(1)))));
    assert!(aq.member("us_epa_index").is_none());
    let day = match j.member("forecast").and_then(|f| f.member("forecastday")) {
        Some(Json::Array(days)) => &days[0],
        _ => panic!("no forecast days"),
    };
    assert!(matches!(day.member("date"), Some(Json::Str(s)) if s == "2023-03-19"));
    let astro = day.member("astro").unwrap();
    assert!(matches!(astro.member("is_moon_up"), Some(Json::Number(JsonNumber::Unsigned(0)))));
    assert!(matches!(astro.member("is_sun_up"), Some(Json::Number(JsonNumber::Unsigned(1)))));
    let local = j.member("location").and_then(|l| l.member("localtime")).unwrap();
    assert!(matches!(local, Json::Str(s) if s == "2023-03-19 23:23"));
}
