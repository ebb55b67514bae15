//! The normalized weather record, and its decoding from the provider's JSON payloads.
//!
//! Payloads vary: numbers come as integers or decimals, air-quality indices under their
//! canonical name or a hyphenated alias, the two astronomy flags as the integers `0` (up) and
//! `1` (down), and hourly entries with or without a condition. Decoding accepts all of these
//! and fails, with a [`DecodeError`], on anything else. Numbers are kept as the JSON parser
//! classified them ([`JsonNumber`]); turning them into floating point is left to whoever
//! stores the record.
use vstd::prelude::*;

use crate::calendar::{date_of_text, date_time_of_text, parse_date, parse_date_time, Date, DateTime};
use crate::json::{items_view, json_of, lemma_items_view, member, parse_json, Json, JsonNumber, JsonV, NumberV};

verus! {

/// Why a payload could not be decoded.
#[derive(Clone, Copy, Debug, PartialEq, Eq, Structural)]
pub enum DecodeError {
    /// The bytes are no JSON text.
    NotJson,
    /// A required field is absent.
    MissingField,
    /// A field holds a value of the wrong kind.
    WrongType,
    /// A date is not written as `YYYY-MM-DD`, or names a day the calendar lacks.
    BadDate,
    /// A local time is not written as `YYYY-MM-DD HH:MM`, or does not exist.
    BadDateTime,
    /// An astronomy flag is a number other than `0` or `1`.
    BadFlag,
    /// A field is present under both its canonical name and its alias.
    DuplicateField,
}

/// Pollutant concentrations and the two air-quality indices.
#[derive(Clone, Debug, PartialEq)]
pub struct AirQuality {
    pub co: JsonNumber,
    pub no2: JsonNumber,
    pub o3: JsonNumber,
    pub so2: JsonNumber,
    pub pm2_5: JsonNumber,
    pub pm10: JsonNumber,
    pub us_epa_index: u64,
    pub gb_defra_index: u64,
}

pub struct AirQualityV {
    pub co: NumberV,
    pub no2: NumberV,
    pub o3: NumberV,
    pub so2: NumberV,
    pub pm2_5: NumberV,
    pub pm10: NumberV,
    pub us_epa_index: nat,
    pub gb_defra_index: nat,
}

impl View for AirQuality {
    type V = AirQualityV;

    open spec fn view(&self) -> AirQualityV {
        AirQualityV {
            co: self.co@,
            no2: self.no2@,
            o3: self.o3@,
            so2: self.so2@,
            pm2_5: self.pm2_5@,
            pm10: self.pm10@,
            us_epa_index: self.us_epa_index as nat,
            gb_defra_index: self.gb_defra_index as nat,
        }
    }
}

/// A weather condition, described in words.
#[derive(Clone, Debug, PartialEq)]
pub struct Condition {
    pub text: String,
}

impl View for Condition {
    type V = Seq<char>;

    open spec fn view(&self) -> Seq<char> {
        self.text@
    }
}

/// Where the weather was reported, and the local time there.
#[derive(Clone, Debug, PartialEq)]
pub struct Location {
    pub name: String,
    pub region: String,
    pub country: String,
    pub lat: JsonNumber,
    pub lon: JsonNumber,
    pub tz_id: String,
    pub localtime: DateTime,
}

pub struct LocationV {
    pub name: Seq<char>,
    pub region: Seq<char>,
    pub country: Seq<char>,
    pub lat: NumberV,
    pub lon: NumberV,
    pub tz_id: Seq<char>,
    pub localtime: DateTime,
}

impl View for Location {
    type V = LocationV;

    open spec fn view(&self) -> LocationV {
        LocationV {
            name: self.name@,
            region: self.region@,
            country: self.country@,
            lat: self.lat@,
            lon: self.lon@,
            tz_id: self.tz_id@,
            localtime: self.localtime,
        }
    }
}

/// The weather now.
#[derive(Clone, Debug, PartialEq)]
pub struct Current {
    pub temp_c: JsonNumber,
    pub temp_f: JsonNumber,
    pub condition: Condition,
    pub wind_kph: JsonNumber,
    pub precip_mm: JsonNumber,
    pub humidity: JsonNumber,
    pub cloud: JsonNumber,
    pub uv: JsonNumber,
    pub air_quality: AirQuality,
}

pub struct CurrentV {
    pub temp_c: NumberV,
    pub temp_f: NumberV,
    pub condition: Seq<char>,
    pub wind_kph: NumberV,
    pub precip_mm: NumberV,
    pub humidity: NumberV,
    pub cloud: NumberV,
    pub uv: NumberV,
    pub air_quality: AirQualityV,
}

impl View for Current {
    type V = CurrentV;

    open spec fn view(&self) -> CurrentV {
        CurrentV {
            temp_c: self.temp_c@,
            temp_f: self.temp_f@,
            condition: self.condition@,
            wind_kph: self.wind_kph@,
            precip_mm: self.precip_mm@,
            humidity: self.humidity@,
            cloud: self.cloud@,
            uv: self.uv@,
            air_quality: self.air_quality@,
        }
    }
}

/// One hour of a forecast day: its air quality, and its condition when the payload gave one.
#[derive(Clone, Debug, PartialEq)]
pub struct Hour {
    pub condition: Option<Condition>,
    pub air_quality: AirQuality,
}

pub struct HourV {
    pub condition: Option<Seq<char>>,
    pub air_quality: AirQualityV,
}

impl View for Hour {
    type V = HourV;

    open spec fn view(&self) -> HourV {
        HourV {
            condition: match self.condition {
                Some(c) => Some(c@),
                None => None,
            },
            air_quality: self.air_quality@,
        }
    }
}

/// The forecast for one day.
#[derive(Clone, Debug, PartialEq)]
pub struct ForecastDay {
    pub date: Date,
    pub maxtemp_c: JsonNumber,
    pub mintemp_c: JsonNumber,
    pub avgtemp_c: JsonNumber,
    pub totalprecip_mm: JsonNumber,
    pub daily_chance_of_rain: JsonNumber,
    pub condition: Condition,
    pub air_quality: AirQuality,
    pub is_moon_up: bool,
    pub is_sun_up: bool,
    pub hour: Vec<Hour>,
}

pub struct ForecastDayV {
    pub date: Date,
    pub maxtemp_c: NumberV,
    pub mintemp_c: NumberV,
    pub avgtemp_c: NumberV,
    pub totalprecip_mm: NumberV,
    pub daily_chance_of_rain: NumberV,
    pub condition: Seq<char>,
    pub air_quality: AirQualityV,
    pub is_moon_up: bool,
    pub is_sun_up: bool,
    pub hour: Seq<HourV>,
}

impl View for ForecastDay {
    type V = ForecastDayV;

    open spec fn view(&self) -> ForecastDayV {
        ForecastDayV {
            date: self.date,
            maxtemp_c: self.maxtemp_c@,
            mintemp_c: self.mintemp_c@,
            avgtemp_c: self.avgtemp_c@,
            totalprecip_mm: self.totalprecip_mm@,
            daily_chance_of_rain: self.daily_chance_of_rain@,
            condition: self.condition@,
            air_quality: self.air_quality@,
            is_moon_up: self.is_moon_up,
            is_sun_up: self.is_sun_up,
            hour: self.hour@.map_values(|h: Hour| h@),
        }
    }
}

/// The forecast days, in the order the payload gave them.
#[derive(Clone, Debug, PartialEq)]
pub struct Forecast {
    pub forecastday: Vec<ForecastDay>,
}

impl View for Forecast {
    type V = Seq<ForecastDayV>;

    open spec fn view(&self) -> Seq<ForecastDayV> {
        self.forecastday@.map_values(|d: ForecastDay| d@)
    }
}

/// A normalized weather record: location, current weather and forecast.
#[derive(Clone, Debug, PartialEq)]
pub struct WeatherResponse {
    pub location: Location,
    pub current: Current,
    pub forecast: Forecast,
}

pub struct WeatherV {
    pub location: LocationV,
    pub current: CurrentV,
    pub forecast: Seq<ForecastDayV>,
}

impl View for WeatherResponse {
    type V = WeatherV;

    open spec fn view(&self) -> WeatherV {
        WeatherV { location: self.location@, current: self.current@, forecast: self.forecast@ }
    }
}

/// `r` is a failure with the error `e`.
pub open spec fn failed_with<T>(r: Result<T, DecodeError>, e: DecodeError) -> bool {
    r is Err && r->Err_0 == e
}

// Reading single fields.

pub open spec fn number_field(j: JsonV, key: Seq<char>) -> Result<NumberV, DecodeError> {
    match member(j, key) {
        Some(JsonV::Number(n)) => Ok(n),
        Some(_) => Err(DecodeError::WrongType),
        None => Err(DecodeError::MissingField),
    }
}

pub open spec fn text_field(j: JsonV, key: Seq<char>) -> Result<Seq<char>, DecodeError> {
    match member(j, key) {
        Some(JsonV::Str(s)) => Ok(s),
        Some(_) => Err(DecodeError::WrongType),
        None => Err(DecodeError::MissingField),
    }
}

pub open spec fn object_field(j: JsonV, key: Seq<char>) -> Result<JsonV, DecodeError> {
    match member(j, key) {
        Some(v) => if v is Object {
            Ok(v)
        } else {
            Err(DecodeError::WrongType)
        },
        None => Err(DecodeError::MissingField),
    }
}

pub open spec fn array_field(j: JsonV, key: Seq<char>) -> Result<Seq<JsonV>, DecodeError> {
    match member(j, key) {
        Some(JsonV::Array(items)) => Ok(items),
        Some(_) => Err(DecodeError::WrongType),
        None => Err(DecodeError::MissingField),
    }
}

pub open spec fn date_field(j: JsonV, key: Seq<char>) -> Result<Date, DecodeError> {
    match member(j, key) {
        Some(JsonV::Str(s)) => match date_of_text(s) {
            Some(d) => Ok(d),
            None => Err(DecodeError::BadDate),
        },
        Some(_) => Err(DecodeError::WrongType),
        None => Err(DecodeError::MissingField),
    }
}

pub open spec fn date_time_field(j: JsonV, key: Seq<char>) -> Result<DateTime, DecodeError> {
    match member(j, key) {
        Some(JsonV::Str(s)) => match date_time_of_text(s) {
            Some(t) => Ok(t),
            None => Err(DecodeError::BadDateTime),
        },
        Some(_) => Err(DecodeError::WrongType),
        None => Err(DecodeError::MissingField),
    }
}

/// An astronomy flag: the integer `0` means up (`true`), the integer `1` means down (`false`).
pub open spec fn flag_value(v: JsonV) -> Result<bool, DecodeError> {
    if v == JsonV::Number(NumberV::Unsigned(0)) {
        Ok(true)
    } else if v == JsonV::Number(NumberV::Unsigned(1)) {
        Ok(false)
    } else if v is Number {
        Err(DecodeError::BadFlag)
    } else {
        Err(DecodeError::WrongType)
    }
}

pub open spec fn flag_field(j: JsonV, key: Seq<char>) -> Result<bool, DecodeError> {
    match member(j, key) {
        Some(v) => flag_value(v),
        None => Err(DecodeError::MissingField),
    }
}

pub open spec fn index_value(v: JsonV) -> Result<nat, DecodeError> {
    match v {
        JsonV::Number(NumberV::Unsigned(n)) => Ok(n),
        _ => Err(DecodeError::WrongType),
    }
}

/// A non-negative integer stored under exactly one of `name` and `alias`.
pub open spec fn index_field(j: JsonV, name: Seq<char>, alias: Seq<char>) -> Result<nat, DecodeError> {
    match (member(j, name), member(j, alias)) {
        (Some(_), Some(_)) => Err(DecodeError::DuplicateField),
        (Some(v), None) => index_value(v),
        (None, Some(v)) => index_value(v),
        (None, None) => Err(DecodeError::MissingField),
    }
}

/// The text of the required condition object under `condition`.
pub open spec fn condition_field(j: JsonV) -> Result<Seq<char>, DecodeError> {
    match object_field(j, "condition"@) {
        Ok(c) => text_field(c, "text"@),
        Err(e) => Err(e),
    }
}

/// The optional condition of an hourly entry: absent, `null`, or an object without `text`
/// leave it unset.
pub open spec fn hour_condition_field(j: JsonV) -> Result<Option<Seq<char>>, DecodeError> {
    match member(j, "condition"@) {
        None => Ok(None),
        Some(c) => if c is Null {
            Ok(None)
        } else if c is Object {
            match member(c, "text"@) {
                None => Ok(None),
                Some(JsonV::Str(t)) => Ok(Some(t)),
                Some(_) => Err(DecodeError::WrongType),
            }
        } else {
            Err(DecodeError::WrongType)
        },
    }
}

// Reading the record.

pub open spec fn decode_air_quality(a: JsonV) -> Result<AirQualityV, DecodeError> {
    let co = number_field(a, "co"@);
    let no2 = number_field(a, "no2"@);
    let o3 = number_field(a, "o3"@);
    let so2 = number_field(a, "so2"@);
    let pm2_5 = number_field(a, "pm2_5"@);
    let pm10 = number_field(a, "pm10"@);
    let us = index_field(a, "us_epa_index"@, "us-epa-index"@);
    let gb = index_field(a, "gb_defra_index"@, "gb-defra-index"@);
    if co is Err {
        Err(co->Err_0)
    } else if no2 is Err {
        Err(no2->Err_0)
    } else if o3 is Err {
        Err(o3->Err_0)
    } else if so2 is Err {
        Err(so2->Err_0)
    } else if pm2_5 is Err {
        Err(pm2_5->Err_0)
    } else if pm10 is Err {
        Err(pm10->Err_0)
    } else if us is Err {
        Err(us->Err_0)
    } else if gb is Err {
        Err(gb->Err_0)
    } else {
        Ok(
            AirQualityV {
                co: co->Ok_0,
                no2: no2->Ok_0,
                o3: o3->Ok_0,
                so2: so2->Ok_0,
                pm2_5: pm2_5->Ok_0,
                pm10: pm10->Ok_0,
                us_epa_index: us->Ok_0,
                gb_defra_index: gb->Ok_0,
            },
        )
    }
}

/// The air quality stored under `air_quality`.
pub open spec fn air_quality_field(j: JsonV) -> Result<AirQualityV, DecodeError> {
    match object_field(j, "air_quality"@) {
        Ok(a) => decode_air_quality(a),
        Err(e) => Err(e),
    }
}

pub open spec fn decode_location(l: JsonV) -> Result<LocationV, DecodeError> {
    let name = text_field(l, "name"@);
    let region = text_field(l, "region"@);
    let country = text_field(l, "country"@);
    let lat = number_field(l, "lat"@);
    let lon = number_field(l, "lon"@);
    let tz_id = text_field(l, "tz_id"@);
    let localtime = date_time_field(l, "localtime"@);
    if name is Err {
        Err(name->Err_0)
    } else if region is Err {
        Err(region->Err_0)
    } else if country is Err {
        Err(country->Err_0)
    } else if lat is Err {
        Err(lat->Err_0)
    } else if lon is Err {
        Err(lon->Err_0)
    } else if tz_id is Err {
        Err(tz_id->Err_0)
    } else if localtime is Err {
        Err(localtime->Err_0)
    } else {
        Ok(
            LocationV {
                name: name->Ok_0,
                region: region->Ok_0,
                country: country->Ok_0,
                lat: lat->Ok_0,
                lon: lon->Ok_0,
                tz_id: tz_id->Ok_0,
                localtime: localtime->Ok_0,
            },
        )
    }
}

pub open spec fn decode_current(c: JsonV) -> Result<CurrentV, DecodeError> {
    let temp_c = number_field(c, "temp_c"@);
    let temp_f = number_field(c, "temp_f"@);
    let condition = condition_field(c);
    let wind_kph = number_field(c, "wind_kph"@);
    let precip_mm = number_field(c, "precip_mm"@);
    let humidity = number_field(c, "humidity"@);
    let cloud = number_field(c, "cloud"@);
    let uv = number_field(c, "uv"@);
    let air_quality = air_quality_field(c);
    if temp_c is Err {
        Err(temp_c->Err_0)
    } else if temp_f is Err {
        Err(temp_f->Err_0)
    } else if condition is Err {
        Err(condition->Err_0)
    } else if wind_kph is Err {
        Err(wind_kph->Err_0)
    } else if precip_mm is Err {
        Err(precip_mm->Err_0)
    } else if humidity is Err {
        Err(humidity->Err_0)
    } else if cloud is Err {
        Err(cloud->Err_0)
    } else if uv is Err {
        Err(uv->Err_0)
    } else if air_quality is Err {
        Err(air_quality->Err_0)
    } else {
        Ok(
            CurrentV {
                temp_c: temp_c->Ok_0,
                temp_f: temp_f->Ok_0,
                condition: condition->Ok_0,
                wind_kph: wind_kph->Ok_0,
                precip_mm: precip_mm->Ok_0,
                humidity: humidity->Ok_0,
                cloud: cloud->Ok_0,
                uv: uv->Ok_0,
                air_quality: air_quality->Ok_0,
            },
        )
    }
}

pub open spec fn decode_hour(h: JsonV) -> Result<HourV, DecodeError> {
    let condition = hour_condition_field(h);
    let air_quality = air_quality_field(h);
    if condition is Err {
        Err(condition->Err_0)
    } else if air_quality is Err {
        Err(air_quality->Err_0)
    } else {
        Ok(HourV { condition: condition->Ok_0, air_quality: air_quality->Ok_0 })
    }
}

/// The hours from position `i` on, in order; the first one that fails decides the error.
pub open spec fn decode_hours(items: Seq<JsonV>, i: int) -> Result<Seq<HourV>, DecodeError>
    decreases items.len() - i,
{
    if i < 0 || i >= items.len() {
        Ok(Seq::empty())
    } else {
        match decode_hour(items[i]) {
            Err(e) => Err(e),
            Ok(h) => match decode_hours(items, i + 1) {
                Err(e) => Err(e),
                Ok(rest) => Ok(seq![h] + rest),
            },
        }
    }
}

/// One forecast day, written upstream as `{date, day: {..}, astro: {..}, hour: [..]}`.
pub open spec fn decode_day(d: JsonV) -> Result<ForecastDayV, DecodeError> {
    let date = date_field(d, "date"@);
    let day = object_field(d, "day"@);
    let astro = object_field(d, "astro"@);
    let hours = array_field(d, "hour"@);
    let dj = day->Ok_0;
    let aj = astro->Ok_0;
    let maxtemp_c = number_field(dj, "maxtemp_c"@);
    let mintemp_c = number_field(dj, "mintemp_c"@);
    let avgtemp_c = number_field(dj, "avgtemp_c"@);
    let totalprecip_mm = number_field(dj, "totalprecip_mm"@);
    let rain = number_field(dj, "daily_chance_of_rain"@);
    let condition = condition_field(dj);
    let air_quality = air_quality_field(dj);
    let moon = flag_field(aj, "is_moon_up"@);
    let sun = flag_field(aj, "is_sun_up"@);
    let hour = decode_hours(hours->Ok_0, 0);
    if date is Err {
        Err(date->Err_0)
    } else if day is Err {
        Err(day->Err_0)
    } else if maxtemp_c is Err {
        Err(maxtemp_c->Err_0)
    } else if mintemp_c is Err {
        Err(mintemp_c->Err_0)
    } else if avgtemp_c is Err {
        Err(avgtemp_c->Err_0)
    } else if totalprecip_mm is Err {
        Err(totalprecip_mm->Err_0)
    } else if rain is Err {
        Err(rain->Err_0)
    } else if condition is Err {
        Err(condition->Err_0)
    } else if air_quality is Err {
        Err(air_quality->Err_0)
    } else if astro is Err {
        Err(astro->Err_0)
    } else if moon is Err {
        Err(moon->Err_0)
    } else if sun is Err {
        Err(sun->Err_0)
    } else if hours is Err {
        Err(hours->Err_0)
    } else if hour is Err {
        Err(hour->Err_0)
    } else {
        Ok(
            ForecastDayV {
                date: date->Ok_0,
                maxtemp_c: maxtemp_c->Ok_0,
                mintemp_c: mintemp_c->Ok_0,
                avgtemp_c: avgtemp_c->Ok_0,
                totalprecip_mm: totalprecip_mm->Ok_0,
                daily_chance_of_rain: rain->Ok_0,
                condition: condition->Ok_0,
                air_quality: air_quality->Ok_0,
                is_moon_up: moon->Ok_0,
                is_sun_up: sun->Ok_0,
                hour: hour->Ok_0,
            },
        )
    }
}

/// The forecast days from position `i` on, in order; the first one that fails decides the error.
pub open spec fn decode_days(items: Seq<JsonV>, i: int) -> Result<Seq<ForecastDayV>, DecodeError>
    decreases items.len() - i,
{
    if i < 0 || i >= items.len() {
        Ok(Seq::empty())
    } else {
        match decode_day(items[i]) {
            Err(e) => Err(e),
            Ok(d) => match decode_days(items, i + 1) {
                Err(e) => Err(e),
                Ok(rest) => Ok(seq![d] + rest),
            },
        }
    }
}

/// A whole payload document: `{location: {..}, current: {..}, forecast: {forecastday: [..]}}`.
pub open spec fn decode_weather(w: JsonV) -> Result<WeatherV, DecodeError> {
    let location = object_field(w, "location"@);
    let current = object_field(w, "current"@);
    let forecast = object_field(w, "forecast"@);
    let loc = decode_location(location->Ok_0);
    let cur = decode_current(current->Ok_0);
    let days = array_field(forecast->Ok_0, "forecastday"@);
    let fc = decode_days(days->Ok_0, 0);
    if location is Err {
        Err(location->Err_0)
    } else if loc is Err {
        Err(loc->Err_0)
    } else if current is Err {
        Err(current->Err_0)
    } else if cur is Err {
        Err(cur->Err_0)
    } else if forecast is Err {
        Err(forecast->Err_0)
    } else if days is Err {
        Err(days->Err_0)
    } else if fc is Err {
        Err(fc->Err_0)
    } else {
        Ok(WeatherV { location: loc->Ok_0, current: cur->Ok_0, forecast: fc->Ok_0 })
    }
}

/// What normalizing the payload bytes gives.
pub open spec fn normalized(payload: Seq<u8>) -> Result<WeatherV, DecodeError> {
    match json_of(payload) {
        Some(j) => decode_weather(j),
        None => Err(DecodeError::NotJson),
    }
}

// Decoding, field by field.

fn number_member(j: &Json, key: &str) -> (r: Result<JsonNumber, DecodeError>)
    ensures
        match r {
            Ok(n) => number_field(j@, key@) == Ok::<_, DecodeError>(n@),
            Err(e) => failed_with(number_field(j@, key@), e),
        },
{
    match j.member(key) {
        Some(Json::Number(n)) => Ok(n.copied()),
        Some(_) => Err(DecodeError::WrongType),
        None => Err(DecodeError::MissingField),
    }
}

fn text_member(j: &Json, key: &str) -> (r: Result<String, DecodeError>)
    ensures
        match r {
            Ok(s) => text_field(j@, key@) == Ok::<_, DecodeError>(s@),
            Err(e) => failed_with(text_field(j@, key@), e),
        },
{
    match j.member(key) {
        Some(Json::Str(s)) => Ok(s.clone()),
        Some(_) => Err(DecodeError::WrongType),
        None => Err(DecodeError::MissingField),
    }
}

fn object_member<'a>(j: &'a Json, key: &str) -> (r: Result<&'a Json, DecodeError>)
    ensures
        match r {
            Ok(o) => object_field(j@, key@) == Ok::<_, DecodeError>(o@),
            Err(e) => failed_with(object_field(j@, key@), e),
        },
{
    match j.member(key) {
        Some(v) => match v {
            Json::Object(_) => Ok(v),
            _ => Err(DecodeError::WrongType),
        },
        None => Err(DecodeError::MissingField),
    }
}

fn array_member<'a>(j: &'a Json, key: &str) -> (r: Result<&'a Vec<Json>, DecodeError>)
    ensures
        match r {
            Ok(items) => array_field(j@, key@) == Ok::<_, DecodeError>(items_view(items@, 0)),
            Err(e) => failed_with(array_field(j@, key@), e),
        },
{
    match j.member(key) {
        Some(Json::Array(items)) => Ok(items),
        Some(_) => Err(DecodeError::WrongType),
        None => Err(DecodeError::MissingField),
    }
}

fn date_member(j: &Json, key: &str) -> (r: Result<Date, DecodeError>)
    ensures
        match r {
            Ok(d) => date_field(j@, key@) == Ok::<_, DecodeError>(d),
            Err(e) => failed_with(date_field(j@, key@), e),
        },
{
    match j.member(key) {
        Some(Json::Str(s)) => match parse_date(s.as_str()) {
            Some(d) => Ok(d),
            None => Err(DecodeError::BadDate),
        },
        Some(_) => Err(DecodeError::WrongType),
        None => Err(DecodeError::MissingField),
    }
}

fn date_time_member(j: &Json, key: &str) -> (r: Result<DateTime, DecodeError>)
    ensures
        match r {
            Ok(t) => date_time_field(j@, key@) == Ok::<_, DecodeError>(t),
            Err(e) => failed_with(date_time_field(j@, key@), e),
        },
{
    match j.member(key) {
        Some(Json::Str(s)) => match parse_date_time(s.as_str()) {
            Some(t) => Ok(t),
            None => Err(DecodeError::BadDateTime),
        },
        Some(_) => Err(DecodeError::WrongType),
        None => Err(DecodeError::MissingField),
    }
}

/// Reads an astronomy flag, where `0` means up and `1` means down.
pub fn decode_flag(v: &Json) -> (r: Result<bool, DecodeError>)
    ensures
        r == flag_value(v@),
{
    match v {
        Json::Number(JsonNumber::Unsigned(n)) => {
            if *n == 0 {
                Ok(true)
            } else if *n == 1 {
                Ok(false)
            } else {
                Err(DecodeError::BadFlag)
            }
        },
        Json::Number(_) => Err(DecodeError::BadFlag),
        _ => Err(DecodeError::WrongType),
    }
}

fn flag_member(j: &Json, key: &str) -> (r: Result<bool, DecodeError>)
    ensures
        r == flag_field(j@, key@),
{
    match j.member(key) {
        Some(v) => decode_flag(v),
        None => Err(DecodeError::MissingField),
    }
}

fn index_of(v: &Json) -> (r: Result<u64, DecodeError>)
    ensures
        match r {
            Ok(n) => index_value(v@) == Ok::<_, DecodeError>(n as nat),
            Err(e) => failed_with(index_value(v@), e),
        },
{
    match v {
        Json::Number(JsonNumber::Unsigned(n)) => Ok(*n),
        _ => Err(DecodeError::WrongType),
    }
}

fn index_member(j: &Json, name: &str, alias: &str) -> (r: Result<u64, DecodeError>)
    ensures
        match r {
            Ok(n) => index_field(j@, name@, alias@) == Ok::<_, DecodeError>(n as nat),
            Err(e) => failed_with(index_field(j@, name@, alias@), e),
        },
{
    match (j.member(name), j.member(alias)) {
        (Some(_), Some(_)) => Err(DecodeError::DuplicateField),
        (Some(v), None) => index_of(v),
        (None, Some(v)) => index_of(v),
        (None, None) => Err(DecodeError::MissingField),
    }
}

fn condition_member(j: &Json) -> (r: Result<Condition, DecodeError>)
    ensures
        match r {
            Ok(c) => condition_field(j@) == Ok::<_, DecodeError>(c@),
            Err(e) => failed_with(condition_field(j@), e),
        },
{
    let c = object_member(j, "condition")?;
    let text = text_member(c, "text")?;
    Ok(Condition { text })
}

fn hour_condition_member(j: &Json) -> (r: Result<Option<Condition>, DecodeError>)
    ensures
        match r {
            Ok(c) => hour_condition_field(j@) == Ok::<_, DecodeError>(
                match c {
                    Some(c) => Some(c@),
                    None => None,
                },
            ),
            Err(e) => failed_with(hour_condition_field(j@), e),
        },
{
    match j.member("condition") {
        None => Ok(None),
        Some(Json::Null) => Ok(None),
        Some(c) => match c {
            Json::Object(_) => match c.member("text") {
                None => Ok(None),
                Some(Json::Str(t)) => Ok(Some(Condition { text: t.clone() })),
                Some(_) => Err(DecodeError::WrongType),
            },
            _ => Err(DecodeError::WrongType),
        },
    }
}

/// Decodes an air-quality object; each index may come under its canonical name or its
/// hyphenated alias, but not both.
pub fn decode_air_quality_json(a: &Json) -> (r: Result<AirQuality, DecodeError>)
    ensures
        match r {
            Ok(q) => decode_air_quality(a@) == Ok::<_, DecodeError>(q@),
            Err(e) => failed_with(decode_air_quality(a@), e),
        },
{
    let co = number_member(a, "co")?;
    let no2 = number_member(a, "no2")?;
    let o3 = number_member(a, "o3")?;
    let so2 = number_member(a, "so2")?;
    let pm2_5 = number_member(a, "pm2_5")?;
    let pm10 = number_member(a, "pm10")?;
    let us_epa_index = index_member(a, "us_epa_index", "us-epa-index")?;
    let gb_defra_index = index_member(a, "gb_defra_index", "gb-defra-index")?;
    Ok(AirQuality { co, no2, o3, so2, pm2_5, pm10, us_epa_index, gb_defra_index })
}

fn air_quality_member(j: &Json) -> (r: Result<AirQuality, DecodeError>)
    ensures
        match r {
            Ok(q) => air_quality_field(j@) == Ok::<_, DecodeError>(q@),
            Err(e) => failed_with(air_quality_field(j@), e),
        },
{
    let a = object_member(j, "air_quality")?;
    decode_air_quality_json(a)
}

fn decode_location_json(l: &Json) -> (r: Result<Location, DecodeError>)
    ensures
        match r {
            Ok(loc) => decode_location(l@) == Ok::<_, DecodeError>(loc@),
            Err(e) => failed_with(decode_location(l@), e),
        },
{
    let name = text_member(l, "name")?;
    let region = text_member(l, "region")?;
    let country = text_member(l, "country")?;
    let lat = number_member(l, "lat")?;
    let lon = number_member(l, "lon")?;
    let tz_id = text_member(l, "tz_id")?;
    let localtime = date_time_member(l, "localtime")?;
    Ok(Location { name, region, country, lat, lon, tz_id, localtime })
}

fn decode_current_json(c: &Json) -> (r: Result<Current, DecodeError>)
    ensures
        match r {
            Ok(cur) => decode_current(c@) == Ok::<_, DecodeError>(cur@),
            Err(e) => failed_with(decode_current(c@), e),
        },
{
    let temp_c = number_member(c, "temp_c")?;
    let temp_f = number_member(c, "temp_f")?;
    let condition = condition_member(c)?;
    let wind_kph = number_member(c, "wind_kph")?;
    let precip_mm = number_member(c, "precip_mm")?;
    let humidity = number_member(c, "humidity")?;
    let cloud = number_member(c, "cloud")?;
    let uv = number_member(c, "uv")?;
    let air_quality = air_quality_member(c)?;
    Ok(Current { temp_c, temp_f, condition, wind_kph, precip_mm, humidity, cloud, uv, air_quality })
}

/// Decodes one hourly entry; a missing or empty condition leaves the condition unset.
pub fn decode_hour_json(h: &Json) -> (r: Result<Hour, DecodeError>)
    ensures
        match r {
            Ok(hour) => decode_hour(h@) == Ok::<_, DecodeError>(hour@),
            Err(e) => failed_with(decode_hour(h@), e),
        },
{
    let condition = hour_condition_member(h)?;
    let air_quality = air_quality_member(h)?;
    Ok(Hour { condition, air_quality })
}

proof fn lemma_decode_hours_ok(items: Seq<JsonV>, i: int)
    requires
        0 <= i <= items.len(),
        forall|k: int| i <= k < items.len() ==> (#[trigger] decode_hour(items[k])) is Ok,
    ensures
        decode_hours(items, i) == Ok::<_, DecodeError>(
            Seq::new((items.len() - i) as nat, |k: int| decode_hour(items[i + k])->Ok_0),
        ),
    decreases items.len() - i,
{
    if i < items.len() {
        lemma_decode_hours_ok(items, i + 1);
        assert(decode_hour(items[i]) is Ok);
        let rest = Seq::new((items.len() - i - 1) as nat, |k: int| decode_hour(items[i + 1 + k])->Ok_0);
        assert(seq![decode_hour(items[i])->Ok_0] + rest =~= Seq::new(
            (items.len() - i) as nat,
            |k: int| decode_hour(items[i + k])->Ok_0,
        ));
    } else {
        assert(Seq::<HourV>::empty() =~= Seq::new(
            (items.len() - i) as nat,
            |k: int| decode_hour(items[i + k])->Ok_0,
        ));
    }
}

proof fn lemma_decode_hours_err(items: Seq<JsonV>, i: int, f: int)
    requires
        0 <= i <= f < items.len(),
        forall|k: int| i <= k < f ==> (#[trigger] decode_hour(items[k])) is Ok,
        decode_hour(items[f]) is Err,
    ensures
        decode_hours(items, i) == Err::<Seq<HourV>, DecodeError>(decode_hour(items[f])->Err_0),
    decreases f - i,
{
    if i < f {
        lemma_decode_hours_err(items, i + 1, f);
        assert(decode_hour(items[i]) is Ok);
    }
}

fn decode_hour_list(items: &Vec<Json>) -> (r: Result<Vec<Hour>, DecodeError>)
    ensures
        match r {
            Ok(hs) => decode_hours(items_view(items@, 0), 0) == Ok::<_, DecodeError>(
                hs@.map_values(|h: Hour| h@),
            ),
            Err(e) => failed_with(decode_hours(items_view(items@, 0), 0), e),
        },
{
    let ghost v = items_view(items@, 0);
    proof {
        lemma_items_view(items@, 0);
        assert forall|k: int| 0 <= k < items.len() implies #[trigger] v[k] == items[k]@ by {
            assert(v[k - 0] == items@[k]@);
        }
    }
    let mut out: Vec<Hour> = Vec::new();
    let mut i: usize = 0;
    while i < items.len()
        invariant
            0 <= i <= items.len(),
            v == items_view(items@, 0),
            v.len() == items.len(),
            forall|k: int| 0 <= k < items.len() ==> #[trigger] v[k] == items[k]@,
            out.len() == i,
            forall|k: int| 0 <= k < i ==> #[trigger] decode_hour(v[k]) == Ok::<_, DecodeError>(out[k]@),
        decreases items.len() - i,
    {
        match decode_hour_json(&items[i]) {
            Ok(h) => {
                out.push(h);
            },
            Err(e) => {
                proof {
                    lemma_decode_hours_err(v, 0, i as int);
                }
                return Err(e);
            },
        }
        i = i + 1;
    }
    proof {
        lemma_decode_hours_ok(v, 0);
        assert(out@.map_values(|h: Hour| h@) =~= Seq::new(
            (v.len() - 0) as nat,
            |k: int| decode_hour(v[0 + k])->Ok_0,
        ));
    }
    Ok(out)
}

/// Decodes one forecast day, written as `{date, day: {..}, astro: {..}, hour: [..]}`.
pub fn decode_day_json(d: &Json) -> (r: Result<ForecastDay, DecodeError>)
    ensures
        match r {
            Ok(day) => decode_day(d@) == Ok::<_, DecodeError>(day@),
            Err(e) => failed_with(decode_day(d@), e),
        },
{
    let date = date_member(d, "date")?;
    let day = object_member(d, "day")?;
    let maxtemp_c = number_member(day, "maxtemp_c")?;
    let mintemp_c = number_member(day, "mintemp_c")?;
    let avgtemp_c = number_member(day, "avgtemp_c")?;
    let totalprecip_mm = number_member(day, "totalprecip_mm")?;
    let daily_chance_of_rain = number_member(day, "daily_chance_of_rain")?;
    let condition = condition_member(day)?;
    let air_quality = air_quality_member(day)?;
    let astro = object_member(d, "astro")?;
    let is_moon_up = flag_member(astro, "is_moon_up")?;
    let is_sun_up = flag_member(astro, "is_sun_up")?;
    let hours = array_member(d, "hour")?;
    let hour = decode_hour_list(hours)?;
    Ok(
        ForecastDay {
            date,
            maxtemp_c,
            mintemp_c,
            avgtemp_c,
            totalprecip_mm,
            daily_chance_of_rain,
            condition,
            air_quality,
            is_moon_up,
            is_sun_up,
            hour,
        },
    )
}

proof fn lemma_decode_days_ok(items: Seq<JsonV>, i: int)
    requires
        0 <= i <= items.len(),
        forall|k: int| i <= k < items.len() ==> (#[trigger] decode_day(items[k])) is Ok,
    ensures
        decode_days(items, i) == Ok::<_, DecodeError>(
            Seq::new((items.len() - i) as nat, |k: int| decode_day(items[i + k])->Ok_0),
        ),
    decreases items.len() - i,
{
    if i < items.len() {
        lemma_decode_days_ok(items, i + 1);
        assert(decode_day(items[i]) is Ok);
        let rest = Seq::new((items.len() - i - 1) as nat, |k: int| decode_day(items[i + 1 + k])->Ok_0);
        assert(seq![decode_day(items[i])->Ok_0] + rest =~= Seq::new(
            (items.len() - i) as nat,
            |k: int| decode_day(items[i + k])->Ok_0,
        ));
    } else {
        assert(Seq::<ForecastDayV>::empty() =~= Seq::new(
            (items.len() - i) as nat,
            |k: int| decode_day(items[i + k])->Ok_0,
        ));
    }
}

proof fn lemma_decode_days_err(items: Seq<JsonV>, i: int, f: int)
    requires
        0 <= i <= f < items.len(),
        forall|k: int| i <= k < f ==> (#[trigger] decode_day(items[k])) is Ok,
        decode_day(items[f]) is Err,
    ensures
        decode_days(items, i) == Err::<Seq<ForecastDayV>, DecodeError>(decode_day(items[f])->Err_0),
    decreases f - i,
{
    if i < f {
        lemma_decode_days_err(items, i + 1, f);
        assert(decode_day(items[i]) is Ok);
    }
}

fn decode_day_list(items: &Vec<Json>) -> (r: Result<Vec<ForecastDay>, DecodeError>)
    ensures
        match r {
            Ok(ds) => decode_days(items_view(items@, 0), 0) == Ok::<_, DecodeError>(
                ds@.map_values(|d: ForecastDay| d@),
            ),
            Err(e) => failed_with(decode_days(items_view(items@, 0), 0), e),
        },
{
    let ghost v = items_view(items@, 0);
    proof {
        lemma_items_view(items@, 0);
        assert forall|k: int| 0 <= k < items.len() implies #[trigger] v[k] == items[k]@ by {
            assert(v[k - 0] == items@[k]@);
        }
    }
    let mut out: Vec<ForecastDay> = Vec::new();
    let mut i: usize = 0;
    while i < items.len()
        invariant
            0 <= i <= items.len(),
            v == items_view(items@, 0),
            v.len() == items.len(),
            forall|k: int| 0 <= k < items.len() ==> #[trigger] v[k] == items[k]@,
            out.len() == i,
            forall|k: int| 0 <= k < i ==> #[trigger] decode_day(v[k]) == Ok::<_, DecodeError>(out[k]@),
        decreases items.len() - i,
    {
        match decode_day_json(&items[i]) {
            Ok(d) => {
                out.push(d);
            },
            Err(e) => {
                proof {
                    lemma_decode_days_err(v, 0, i as int);
                }
                return Err(e);
            },
        }
        i = i + 1;
    }
    proof {
        lemma_decode_days_ok(v, 0);
        assert(out@.map_values(|d: ForecastDay| d@) =~= Seq::new(
            (v.len() - 0) as nat,
            |k: int| decode_day(v[0 + k])->Ok_0,
        ));
    }
    Ok(out)
}

/// Normalizes a payload document that has already been read as JSON.
pub fn normalize_json(w: &Json) -> (r: Result<WeatherResponse, DecodeError>)
    ensures
        match r {
            Ok(rec) => decode_weather(w@) == Ok::<_, DecodeError>(rec@),
            Err(e) => failed_with(decode_weather(w@), e),
        },
{
    let location = object_member(w, "location")?;
    let location = decode_location_json(location)?;
    let current = object_member(w, "current")?;
    let current = decode_current_json(current)?;
    let forecast = object_member(w, "forecast")?;
    let days = array_member(forecast, "forecastday")?;
    let forecastday = decode_day_list(days)?;
    Ok(WeatherResponse { location, current, forecast: Forecast { forecastday } })
}

/// Normalizes the raw bytes of a weather payload into a [`WeatherResponse`].
pub fn normalize(payload: &[u8]) -> (r: Result<WeatherResponse, DecodeError>)
    ensures
        match r {
            Ok(rec) => normalized(payload@) == Ok::<_, DecodeError>(rec@),
            Err(e) => failed_with(normalized(payload@), e),
        },
{
    match parse_json(payload) {
        Some(j) => normalize_json(&j),
        None => Err(DecodeError::NotJson),
    }
}

// Laws of decoding.

/// Normalizing is deterministic: the same payload bytes always give the same outcome, the
/// same record field for field or the same error.
pub proof fn lemma_normalize_deterministic(a: Seq<u8>, b: Seq<u8>)
    requires
        a == b,
    ensures
        normalized(a) == normalized(b),
{
}

/// An integer that is neither `0` nor `1`.
pub open spec fn out_of_range_flag(v: JsonV) -> bool {
    match v {
        JsonV::Number(NumberV::Unsigned(n)) => n >= 2,
        JsonV::Number(NumberV::Signed(_)) => true,
        _ => false,
    }
}

/// The value given for `flag` in the astronomy of forecast day `k` of the document `w`.
pub open spec fn day_flag(w: JsonV, k: int, flag: Seq<char>) -> Option<JsonV> {
    match member(w, "forecast"@) {
        Some(f) => match member(f, "forecastday"@) {
            Some(JsonV::Array(days)) => if 0 <= k < days.len() {
                match member(days[k], "astro"@) {
                    Some(a) => member(a, flag),
                    None => None,
                }
            } else {
                None
            },
            _ => None,
        },
        None => None,
    }
}

proof fn lemma_decode_days_ok_each(items: Seq<JsonV>, i: int, k: int)
    requires
        0 <= i <= k < items.len(),
        decode_days(items, i) is Ok,
    ensures
        decode_day(items[k]) is Ok,
    decreases k - i,
{
    if i < k {
        lemma_decode_days_ok_each(items, i + 1, k);
    }
}

/// A payload in which some forecast day gives its moon or sun flag as an integer other than
/// `0` and `1` never normalizes.
pub proof fn lemma_out_of_range_flag_fails(payload: Seq<u8>, k: int, flag: Seq<char>)
    requires
        flag == "is_moon_up"@ || flag == "is_sun_up"@,
        json_of(payload) is Some,
        day_flag(json_of(payload)->Some_0, k, flag) matches Some(v) && out_of_range_flag(v),
    ensures
        normalized(payload) is Err,
{
    let w = json_of(payload)->Some_0;
    let v = day_flag(w, k, flag)->Some_0;
    assert(flag_value(v) is Err);
    if decode_weather(w) is Ok {
        let f = object_field(w, "forecast"@)->Ok_0;
        let days = array_field(f, "forecastday"@)->Ok_0;
        lemma_decode_days_ok_each(days, 0, k);
        let d = days[k];
        assert(decode_day(d) is Ok);
        let a = object_field(d, "astro"@)->Ok_0;
        assert(member(a, flag) == Some(v));
        assert(flag_field(a, flag) is Err);
    }
}

proof fn lemma_decode_days_at(items: Seq<JsonV>, i: int, k: int)
    requires
        0 <= i <= k < items.len(),
        decode_days(items, i) is Ok,
    ensures
        decode_day(items[k]) is Ok,
        decode_days(items, i)->Ok_0.len() == items.len() - i,
        decode_days(items, i)->Ok_0[k - i] == decode_day(items[k])->Ok_0,
    decreases items.len() - i,
{
    if i + 1 < items.len() {
        lemma_decode_days_at(items, i + 1, if k > i { k } else { i + 1 });
    } else {
        assert(decode_days(items, i + 1) == Ok::<_, DecodeError>(Seq::<ForecastDayV>::empty()));
    }
}

proof fn lemma_decode_hours_at(items: Seq<JsonV>, i: int, k: int)
    requires
        0 <= i <= k < items.len(),
        decode_hours(items, i) is Ok,
    ensures
        decode_hour(items[k]) is Ok,
        decode_hours(items, i)->Ok_0.len() == items.len() - i,
        decode_hours(items, i)->Ok_0[k - i] == decode_hour(items[k])->Ok_0,
    decreases items.len() - i,
{
    if i + 1 < items.len() {
        lemma_decode_hours_at(items, i + 1, if k > i { k } else { i + 1 });
    } else {
        assert(decode_hours(items, i + 1) == Ok::<_, DecodeError>(Seq::<HourV>::empty()));
    }
}

/// The JSON of hourly entry `m` of forecast day `k` of the document `w`.
pub open spec fn hour_json(w: JsonV, k: int, m: int) -> Option<JsonV> {
    match member(w, "forecast"@) {
        Some(f) => match member(f, "forecastday"@) {
            Some(JsonV::Array(days)) => if 0 <= k < days.len() {
                match member(days[k], "hour"@) {
                    Some(JsonV::Array(hours)) => if 0 <= m < hours.len() {
                        Some(hours[m])
                    } else {
                        None
                    },
                    _ => None,
                }
            } else {
                None
            },
            _ => None,
        },
        None => None,
    }
}

/// In a normalized payload, an hourly entry that came without a condition, or with an empty
/// condition object, has its condition unset.
pub proof fn lemma_missing_hour_condition_unset(payload: Seq<u8>, k: int, m: int)
    requires
        normalized(payload) is Ok,
        hour_json(json_of(payload)->Some_0, k, m) matches Some(h) && (member(h, "condition"@) is None
            || member(h, "condition"@) == Some(JsonV::Object(Seq::empty()))),
    ensures
        0 <= k < normalized(payload)->Ok_0.forecast.len(),
        0 <= m < normalized(payload)->Ok_0.forecast[k].hour.len(),
        normalized(payload)->Ok_0.forecast[k].hour[m].condition is None,
{
    let w = json_of(payload)->Some_0;
    let f = object_field(w, "forecast"@)->Ok_0;
    let days = array_field(f, "forecastday"@)->Ok_0;
    lemma_decode_days_at(days, 0, k);
    let d = days[k];
    let hours = array_field(d, "hour"@)->Ok_0;
    lemma_decode_hours_at(hours, 0, m);
    lemma_hour_without_condition(hours[m]);
}

/// An hourly entry without a condition, or with an empty condition object, decodes exactly
/// as its air quality does, with the condition unset: the absence is never an error.
pub proof fn lemma_hour_without_condition(h: JsonV)
    requires
        member(h, "condition"@) is None || member(h, "condition"@) == Some(
            JsonV::Object(Seq::empty()),
        ),
    ensures
        decode_hour(h) == match air_quality_field(h) {
            Ok(a) => Ok::<_, DecodeError>(HourV { condition: None, air_quality: a }),
            Err(e) => Err(e),
        },
{
    assert(hour_condition_field(h) == Ok::<_, DecodeError>(None::<Seq<char>>));
}

} // verus!
