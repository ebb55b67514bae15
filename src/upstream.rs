//! Writing a normalized record back in the provider's payload shape, and the law that
//! normalizing what was written gives the record back.
use vstd::prelude::*;

use crate::calendar::{date_text, date_time_text, format_date, format_date_time};
use crate::json::{find_from, items_view, member, lemma_fields_view, lemma_items_view, fields_view, Json, JsonNumber, JsonV, NumberV};
use crate::weather::{
    array_field, decode_air_quality, decode_current, decode_day, decode_days, decode_hour,
    decode_hours, decode_location, decode_weather, flag_value, normalized, object_field, AirQuality, AirQualityV,
    Current, CurrentV, DecodeError, ForecastDay, ForecastDayV, Hour, HourV, Location, LocationV,
    WeatherResponse, WeatherV,
};

verus! {

pub open spec fn num(n: NumberV) -> JsonV {
    JsonV::Number(n)
}

pub open spec fn encode_air_quality(a: AirQualityV) -> JsonV {
    JsonV::Object(
        seq![
            ("co"@, num(a.co)),
            ("no2"@, num(a.no2)),
            ("o3"@, num(a.o3)),
            ("so2"@, num(a.so2)),
            ("pm2_5"@, num(a.pm2_5)),
            ("pm10"@, num(a.pm10)),
            ("us-epa-index"@, num(NumberV::Unsigned(a.us_epa_index))),
            ("gb-defra-index"@, num(NumberV::Unsigned(a.gb_defra_index))),
        ],
    )
}

/// Normalizing the air quality written by [`encode_air_quality`] gives it back.
pub proof fn lemma_air_quality_round_trip(a: AirQualityV)
    ensures
        decode_air_quality(encode_air_quality(a)) == Ok::<_, DecodeError>(a),
{
    reveal_with_fuel(find_from, 10);
    reveal_strlit("co");
    reveal_strlit("no2");
    reveal_strlit("o3");
    reveal_strlit("so2");
    reveal_strlit("pm2_5");
    reveal_strlit("pm10");
    reveal_strlit("us-epa-index");
    reveal_strlit("gb-defra-index");
    reveal_strlit("us_epa_index");
    reveal_strlit("gb_defra_index");
    let j = encode_air_quality(a);
    assert("co"@.len() == 2 && "o3"@.len() == 2 && "no2"@.len() == 3 && "so2"@.len() == 3);
    assert("pm2_5"@.len() == 5 && "pm10"@.len() == 4);
    assert("us-epa-index"@.len() == 12 && "us_epa_index"@.len() == 12);
    assert("gb-defra-index"@.len() == 14 && "gb_defra_index"@.len() == 14);
    assert("co"@[0] != "o3"@[0] && "no2"@[0] != "so2"@[0]);
    assert("us-epa-index"@[2] != "us_epa_index"@[2]);
    assert("gb-defra-index"@[2] != "gb_defra_index"@[2]);
    assert(member(j, "us_epa_index"@) is None);
    assert(member(j, "gb_defra_index"@) is None);
}

pub open spec fn encode_condition(text: Seq<char>) -> JsonV {
    JsonV::Object(seq![("text"@, JsonV::Str(text))])
}

pub open spec fn encode_location(l: LocationV) -> JsonV {
    JsonV::Object(
        seq![
            ("name"@, JsonV::Str(l.name)),
            ("region"@, JsonV::Str(l.region)),
            ("country"@, JsonV::Str(l.country)),
            ("lat"@, num(l.lat)),
            ("lon"@, num(l.lon)),
            ("tz_id"@, JsonV::Str(l.tz_id)),
            ("localtime"@, JsonV::Str(date_time_text(l.localtime))),
        ],
    )
}

pub open spec fn encode_current(c: CurrentV) -> JsonV {
    JsonV::Object(
        seq![
            ("temp_c"@, num(c.temp_c)),
            ("temp_f"@, num(c.temp_f)),
            ("condition"@, encode_condition(c.condition)),
            ("wind_kph"@, num(c.wind_kph)),
            ("precip_mm"@, num(c.precip_mm)),
            ("humidity"@, num(c.humidity)),
            ("cloud"@, num(c.cloud)),
            ("uv"@, num(c.uv)),
            ("air_quality"@, encode_air_quality(c.air_quality)),
        ],
    )
}

/// An hour without a condition is written without a `condition` field.
pub open spec fn encode_hour(h: HourV) -> JsonV {
    match h.condition {
        Some(t) => JsonV::Object(
            seq![
                ("condition"@, encode_condition(t)),
                ("air_quality"@, encode_air_quality(h.air_quality)),
            ],
        ),
        None => JsonV::Object(seq![("air_quality"@, encode_air_quality(h.air_quality))]),
    }
}

/// The upstream encoding of the astronomy flags: `0` for up, `1` for down.
pub open spec fn encode_flag(up: bool) -> JsonV {
    num(NumberV::Unsigned(if up { 0 } else { 1 }))
}

pub open spec fn encode_day(d: ForecastDayV) -> JsonV {
    JsonV::Object(
        seq![
            ("date"@, JsonV::Str(date_text(d.date))),
            (
                "day"@,
                JsonV::Object(
                    seq![
                        ("maxtemp_c"@, num(d.maxtemp_c)),
                        ("mintemp_c"@, num(d.mintemp_c)),
                        ("avgtemp_c"@, num(d.avgtemp_c)),
                        ("totalprecip_mm"@, num(d.totalprecip_mm)),
                        ("daily_chance_of_rain"@, num(d.daily_chance_of_rain)),
                        ("condition"@, encode_condition(d.condition)),
                        ("air_quality"@, encode_air_quality(d.air_quality)),
                    ],
                ),
            ),
            (
                "astro"@,
                JsonV::Object(
                    seq![("is_moon_up"@, encode_flag(d.is_moon_up)), ("is_sun_up"@, encode_flag(d.is_sun_up))],
                ),
            ),
            ("hour"@, JsonV::Array(d.hour.map_values(|h: HourV| encode_hour(h)))),
        ],
    )
}

/// A record written in the provider's payload shape.
pub open spec fn encode_weather(w: WeatherV) -> JsonV {
    JsonV::Object(
        seq![
            ("location"@, encode_location(w.location)),
            ("current"@, encode_current(w.current)),
            (
                "forecast"@,
                JsonV::Object(
                    seq![("forecastday"@, JsonV::Array(w.forecast.map_values(|d: ForecastDayV| encode_day(d))))],
                ),
            ),
        ],
    )
}

/// Every date and time of the record can be written in its text format.
pub open spec fn weather_wf(w: WeatherV) -> bool {
    &&& w.location.localtime.wf()
    &&& forall|k: int| 0 <= k < w.forecast.len() ==> (#[trigger] w.forecast[k]).date.wf()
}

proof fn lemma_location_round_trip(l: LocationV)
    requires
        l.localtime.wf(),
    ensures
        decode_location(encode_location(l)) == Ok::<_, DecodeError>(l),
{
    reveal_with_fuel(find_from, 8);
    reveal_strlit("name");
    reveal_strlit("region");
    reveal_strlit("country");
    reveal_strlit("lat");
    reveal_strlit("lon");
    reveal_strlit("tz_id");
    reveal_strlit("localtime");
    assert("name"@.len() == 4 && "region"@.len() == 6 && "country"@.len() == 7);
    assert("lat"@.len() == 3 && "lon"@.len() == 3 && "tz_id"@.len() == 5 && "localtime"@.len() == 9);
    assert("lat"@[1] != "lon"@[1]);
    crate::calendar::lemma_date_time_text_round_trip(l.localtime);
}

proof fn lemma_current_round_trip(c: CurrentV)
    ensures
        decode_current(encode_current(c)) == Ok::<_, DecodeError>(c),
{
    reveal_with_fuel(find_from, 10);
    reveal_strlit("temp_c");
    reveal_strlit("temp_f");
    reveal_strlit("condition");
    reveal_strlit("wind_kph");
    reveal_strlit("precip_mm");
    reveal_strlit("humidity");
    reveal_strlit("cloud");
    reveal_strlit("uv");
    reveal_strlit("air_quality");
    reveal_strlit("text");
    assert("temp_c"@.len() == 6 && "temp_f"@.len() == 6 && "condition"@.len() == 9);
    assert("wind_kph"@.len() == 8 && "precip_mm"@.len() == 9 && "humidity"@.len() == 8);
    assert("cloud"@.len() == 5 && "uv"@.len() == 2 && "air_quality"@.len() == 11);
    assert("temp_c"@[5] != "temp_f"@[5]);
    assert("condition"@[0] != "precip_mm"@[0]);
    assert("wind_kph"@[0] != "humidity"@[0]);
    lemma_air_quality_round_trip(c.air_quality);
}

proof fn lemma_hour_round_trip(h: HourV)
    ensures
        decode_hour(encode_hour(h)) == Ok::<_, DecodeError>(h),
{
    reveal_with_fuel(find_from, 3);
    reveal_strlit("condition");
    reveal_strlit("air_quality");
    reveal_strlit("text");
    assert("condition"@.len() == 9 && "air_quality"@.len() == 11);
    lemma_air_quality_round_trip(h.air_quality);
}

proof fn lemma_hours_round_trip(hs: Seq<HourV>, i: int)
    requires
        0 <= i <= hs.len(),
    ensures
        decode_hours(hs.map_values(|h: HourV| encode_hour(h)), i) == Ok::<_, DecodeError>(
            hs.subrange(i, hs.len() as int),
        ),
    decreases hs.len() - i,
{
    let items = hs.map_values(|h: HourV| encode_hour(h));
    if i < hs.len() {
        lemma_hours_round_trip(hs, i + 1);
        lemma_hour_round_trip(hs[i]);
        assert(seq![hs[i]] + hs.subrange(i + 1, hs.len() as int) =~= hs.subrange(i, hs.len() as int));
    } else {
        assert(hs.subrange(i, hs.len() as int) =~= Seq::<HourV>::empty());
    }
}

proof fn lemma_flag_round_trip(up: bool)
    ensures
        flag_value(encode_flag(up)) == Ok::<_, DecodeError>(up),
{
}

proof fn lemma_day_round_trip(d: ForecastDayV)
    requires
        d.date.wf(),
    ensures
        decode_day(encode_day(d)) == Ok::<_, DecodeError>(d),
{
    reveal_with_fuel(find_from, 8);
    reveal_strlit("date");
    reveal_strlit("day");
    reveal_strlit("astro");
    reveal_strlit("hour");
    reveal_strlit("maxtemp_c");
    reveal_strlit("mintemp_c");
    reveal_strlit("avgtemp_c");
    reveal_strlit("totalprecip_mm");
    reveal_strlit("daily_chance_of_rain");
    reveal_strlit("condition");
    reveal_strlit("air_quality");
    reveal_strlit("is_moon_up");
    reveal_strlit("is_sun_up");
    reveal_strlit("text");
    assert("date"@.len() == 4 && "day"@.len() == 3 && "astro"@.len() == 5 && "hour"@.len() == 4);
    assert("date"@[0] != "hour"@[0]);
    assert("maxtemp_c"@.len() == 9 && "mintemp_c"@.len() == 9 && "avgtemp_c"@.len() == 9);
    assert("condition"@.len() == 9 && "totalprecip_mm"@.len() == 14);
    assert("daily_chance_of_rain"@.len() == 20 && "air_quality"@.len() == 11);
    assert("maxtemp_c"@[1] != "mintemp_c"@[1]);
    assert("maxtemp_c"@[0] != "avgtemp_c"@[0] && "mintemp_c"@[0] != "avgtemp_c"@[0]);
    assert("maxtemp_c"@[0] != "condition"@[0] && "mintemp_c"@[0] != "condition"@[0]);
    assert("avgtemp_c"@[0] != "condition"@[0]);
    assert("is_moon_up"@.len() == 10 && "is_sun_up"@.len() == 9);
    crate::calendar::lemma_date_text_round_trip(d.date);
    lemma_air_quality_round_trip(d.air_quality);
    lemma_hours_round_trip(d.hour, 0);
    assert(d.hour.subrange(0, d.hour.len() as int) =~= d.hour);
    lemma_flag_round_trip(d.is_moon_up);
    lemma_flag_round_trip(d.is_sun_up);
}

proof fn lemma_days_round_trip(ds: Seq<ForecastDayV>, i: int)
    requires
        0 <= i <= ds.len(),
        forall|k: int| 0 <= k < ds.len() ==> (#[trigger] ds[k]).date.wf(),
    ensures
        decode_days(ds.map_values(|d: ForecastDayV| encode_day(d)), i) == Ok::<_, DecodeError>(
            ds.subrange(i, ds.len() as int),
        ),
    decreases ds.len() - i,
{
    if i < ds.len() {
        lemma_days_round_trip(ds, i + 1);
        lemma_day_round_trip(ds[i]);
        assert(seq![ds[i]] + ds.subrange(i + 1, ds.len() as int) =~= ds.subrange(i, ds.len() as int));
    } else {
        assert(ds.subrange(i, ds.len() as int) =~= Seq::<ForecastDayV>::empty());
    }
}

/// Writing a record in the provider's payload shape and normalizing the result gives the
/// same record back, whenever its dates and times can be written in their text formats.
pub proof fn lemma_weather_round_trip(w: WeatherV)
    requires
        weather_wf(w),
    ensures
        decode_weather(encode_weather(w)) == Ok::<_, DecodeError>(w),
{
    reveal_with_fuel(find_from, 4);
    reveal_strlit("location");
    reveal_strlit("current");
    reveal_strlit("forecast");
    reveal_strlit("forecastday");
    assert("location"@.len() == 8 && "current"@.len() == 7 && "forecast"@.len() == 8);
    assert("location"@[0] != "forecast"@[0]);
    lemma_location_round_trip(w.location);
    lemma_current_round_trip(w.current);
    lemma_days_round_trip(w.forecast, 0);
    assert(w.forecast.subrange(0, w.forecast.len() as int) =~= w.forecast);
}

proof fn lemma_decoded_days_wf(items: Seq<JsonV>, i: int)
    requires
        0 <= i <= items.len(),
        decode_days(items, i) is Ok,
    ensures
        decode_days(items, i)->Ok_0.len() == items.len() - i,
        forall|k: int|
            0 <= k < items.len() - i ==> (#[trigger] decode_days(items, i)->Ok_0[k]).date.wf(),
    decreases items.len() - i,
{
    if i < items.len() {
        lemma_decoded_days_wf(items, i + 1);
        let d = decode_day(items[i])->Ok_0;
        let rest = decode_days(items, i + 1)->Ok_0;
        assert(decode_days(items, i)->Ok_0 == seq![d] + rest);
        assert(d.date.wf());
        assert forall|k: int| 0 <= k < items.len() - i implies (#[trigger] decode_days(
            items,
            i,
        )->Ok_0[k]).date.wf() by {
            if k > 0 {
                assert(decode_days(items, i)->Ok_0[k] == rest[k - 1]);
            }
        }
    }
}

/// Every record that a payload normalizes to can be written back in the provider's shape,
/// and normalizing what was written gives the same record.
pub proof fn lemma_normalized_round_trip(payload: Seq<u8>)
    requires
        normalized(payload) is Ok,
    ensures
        weather_wf(normalized(payload)->Ok_0),
        decode_weather(encode_weather(normalized(payload)->Ok_0)) == normalized(payload),
{
    let j = crate::json::json_of(payload)->Some_0;
    let w = normalized(payload)->Ok_0;
    let f = object_field(j, "forecast"@)->Ok_0;
    let days = array_field(f, "forecastday"@)->Ok_0;
    lemma_decoded_days_wf(days, 0);
    assert(weather_wf(w));
    lemma_weather_round_trip(w);
}

// Writing records as JSON documents.

fn entry(key: &str, value: Json) -> (r: (String, Json))
    ensures
        r.0@ == key@,
        r.1@ == value@,
{
    (key.to_owned(), value)
}

fn object_of(fields: Vec<(String, Json)>) -> (r: Json)
    ensures
        r@ is Object,
        r@->Object_0.len() == fields.len(),
        forall|k: int| 0 <= k < fields.len() ==> #[trigger] r@->Object_0[k] == (fields[k].0@, fields[k].1@),
{
    proof {
        lemma_fields_view(fields@, 0);
        assert forall|k: int| 0 <= k < fields.len() implies #[trigger] fields_view(fields@, 0)[k] == (
            fields[k].0@,
            fields[k].1@,
        ) by {
            assert(fields_view(fields@, 0)[k - 0] == (fields@[k].0@, fields@[k].1@));
        }
    }
    Json::Object(fields)
}

fn array_of(items: Vec<Json>) -> (r: Json)
    ensures
        r@ is Array,
        r@->Array_0.len() == items.len(),
        forall|k: int| 0 <= k < items.len() ==> #[trigger] r@->Array_0[k] == items[k]@,
{
    proof {
        lemma_items_view(items@, 0);
        assert forall|k: int| 0 <= k < items.len() implies #[trigger] items_view(items@, 0)[k]
            == items[k]@ by {
            assert(items_view(items@, 0)[k - 0] == items@[k]@);
        }
    }
    Json::Array(items)
}

fn number_json(n: &JsonNumber) -> (r: Json)
    ensures
        r@ == num(n@),
{
    Json::Number(n.copied())
}

fn text_json(s: &String) -> (r: Json)
    ensures
        r@ == JsonV::Str(s@),
{
    Json::Str(s.clone())
}

fn condition_json(text: &String) -> (r: Json)
    ensures
        r@ == encode_condition(text@),
{
    let mut f: Vec<(String, Json)> = Vec::new();
    f.push(entry("text", text_json(text)));
    let r = object_of(f);
    assert(r@->Object_0 =~= encode_condition(text@)->Object_0);
    r
}

fn flag_json(up: bool) -> (r: Json)
    ensures
        r@ == encode_flag(up),
{
    Json::Number(JsonNumber::Unsigned(if up { 0 } else { 1 }))
}

impl AirQuality {
    /// This air quality in the provider's shape, with the hyphenated index names.
    pub fn to_json(&self) -> (r: Json)
        ensures
            r@ == encode_air_quality(self@),
    {
        let mut f: Vec<(String, Json)> = Vec::new();
        f.push(entry("co", number_json(&self.co)));
        f.push(entry("no2", number_json(&self.no2)));
        f.push(entry("o3", number_json(&self.o3)));
        f.push(entry("so2", number_json(&self.so2)));
        f.push(entry("pm2_5", number_json(&self.pm2_5)));
        f.push(entry("pm10", number_json(&self.pm10)));
        f.push(entry("us-epa-index", Json::Number(JsonNumber::Unsigned(self.us_epa_index))));
        f.push(entry("gb-defra-index", Json::Number(JsonNumber::Unsigned(self.gb_defra_index))));
        let r = object_of(f);
        assert(r@->Object_0 =~= encode_air_quality(self@)->Object_0);
        r
    }
}

impl Location {
    /// This location in the provider's shape.
    pub fn to_json(&self) -> (r: Json)
        requires
            self.localtime.wf(),
        ensures
            r@ == encode_location(self@),
    {
        let mut f: Vec<(String, Json)> = Vec::new();
        f.push(entry("name", text_json(&self.name)));
        f.push(entry("region", text_json(&self.region)));
        f.push(entry("country", text_json(&self.country)));
        f.push(entry("lat", number_json(&self.lat)));
        f.push(entry("lon", number_json(&self.lon)));
        f.push(entry("tz_id", text_json(&self.tz_id)));
        f.push(entry("localtime", Json::Str(format_date_time(self.localtime))));
        let r = object_of(f);
        assert(r@->Object_0 =~= encode_location(self@)->Object_0);
        r
    }
}

impl Current {
    /// The current weather in the provider's shape.
    pub fn to_json(&self) -> (r: Json)
        ensures
            r@ == encode_current(self@),
    {
        let mut f: Vec<(String, Json)> = Vec::new();
        f.push(entry("temp_c", number_json(&self.temp_c)));
        f.push(entry("temp_f", number_json(&self.temp_f)));
        f.push(entry("condition", condition_json(&self.condition.text)));
        f.push(entry("wind_kph", number_json(&self.wind_kph)));
        f.push(entry("precip_mm", number_json(&self.precip_mm)));
        f.push(entry("humidity", number_json(&self.humidity)));
        f.push(entry("cloud", number_json(&self.cloud)));
        f.push(entry("uv", number_json(&self.uv)));
        f.push(entry("air_quality", self.air_quality.to_json()));
        let r = object_of(f);
        assert(r@->Object_0 =~= encode_current(self@)->Object_0);
        r
    }
}

impl Hour {
    /// This hour in the provider's shape; an unset condition is left out.
    pub fn to_json(&self) -> (r: Json)
        ensures
            r@ == encode_hour(self@),
    {
        let mut f: Vec<(String, Json)> = Vec::new();
        match &self.condition {
            Some(c) => {
                f.push(entry("condition", condition_json(&c.text)));
            },
            None => {},
        }
        f.push(entry("air_quality", self.air_quality.to_json()));
        let r = object_of(f);
        assert(r@->Object_0 =~= encode_hour(self@)->Object_0);
        r
    }
}

impl ForecastDay {
    /// This forecast day in the provider's shape.
    pub fn to_json(&self) -> (r: Json)
        requires
            self.date.wf(),
        ensures
            r@ == encode_day(self@),
    {
        let mut day: Vec<(String, Json)> = Vec::new();
        day.push(entry("maxtemp_c", number_json(&self.maxtemp_c)));
        day.push(entry("mintemp_c", number_json(&self.mintemp_c)));
        day.push(entry("avgtemp_c", number_json(&self.avgtemp_c)));
        day.push(entry("totalprecip_mm", number_json(&self.totalprecip_mm)));
        day.push(entry("daily_chance_of_rain", number_json(&self.daily_chance_of_rain)));
        day.push(entry("condition", condition_json(&self.condition.text)));
        day.push(entry("air_quality", self.air_quality.to_json()));
        let day = object_of(day);
        let mut astro: Vec<(String, Json)> = Vec::new();
        astro.push(entry("is_moon_up", flag_json(self.is_moon_up)));
        astro.push(entry("is_sun_up", flag_json(self.is_sun_up)));
        let astro = object_of(astro);
        let mut hours: Vec<Json> = Vec::new();
        let mut i: usize = 0;
        while i < self.hour.len()
            invariant
                0 <= i <= self.hour.len(),
                hours.len() == i,
                forall|k: int| 0 <= k < i ==> #[trigger] hours[k]@ == encode_hour(self.hour[k]@),
            decreases self.hour.len() - i,
        {
            hours.push(self.hour[i].to_json());
            i = i + 1;
        }
        let hours = array_of(hours);
        assert(hours@->Array_0 =~= self@.hour.map_values(|h: HourV| encode_hour(h)));
        let mut f: Vec<(String, Json)> = Vec::new();
        f.push(entry("date", Json::Str(format_date(self.date))));
        f.push(entry("day", day));
        f.push(entry("astro", astro));
        f.push(entry("hour", hours));
        let r = object_of(f);
        proof {
            let e = encode_day(self@);
            assert(day@->Object_0 =~= e->Object_0[1].1->Object_0);
            assert(astro@->Object_0 =~= e->Object_0[2].1->Object_0);
            assert(r@->Object_0 =~= e->Object_0);
        }
        r
    }
}

impl WeatherResponse {
    /// This record written back in the provider's payload shape.
    pub fn to_json(&self) -> (r: Json)
        requires
            weather_wf(self@),
        ensures
            r@ == encode_weather(self@),
    {
        let mut days: Vec<Json> = Vec::new();
        let mut i: usize = 0;
        while i < self.forecast.forecastday.len()
            invariant
                0 <= i <= self.forecast.forecastday.len(),
                weather_wf(self@),
                days.len() == i,
                forall|k: int| 0 <= k < i ==> #[trigger] days[k]@ == encode_day(self.forecast.forecastday[k]@),
            decreases self.forecast.forecastday.len() - i,
        {
            assert(self@.forecast[i as int] == self.forecast.forecastday[i as int]@);
            days.push(self.forecast.forecastday[i].to_json());
            i = i + 1;
        }
        let days = array_of(days);
        assert(days@->Array_0 =~= self@.forecast.map_values(|d: ForecastDayV| encode_day(d)));
        let mut forecast: Vec<(String, Json)> = Vec::new();
        forecast.push(entry("forecastday", days));
        let forecast = object_of(forecast);
        let mut f: Vec<(String, Json)> = Vec::new();
        f.push(entry("location", self.location.to_json()));
        f.push(entry("current", self.current.to_json()));
        f.push(entry("forecast", forecast));
        let r = object_of(f);
        proof {
            let e = encode_weather(self@);
            assert(forecast@->Object_0 =~= e->Object_0[2].1->Object_0);
            assert(r@->Object_0 =~= e->Object_0);
        }
        r
    }
}

} // verus!
