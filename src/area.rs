//! Climbing areas as the area source lists them, and their coordinates as the cache stores them.
use vstd::prelude::*;

use crate::json::{
    fields_view, items_view, json_of, lemma_fields_view, lemma_items_view, member, parse_json, Json,
    JsonNumber, JsonV, NumberV,
};

verus! {

/// Why the area source could not deliver the areas.
#[derive(Clone, Copy, Debug, PartialEq, Eq, Structural)]
pub enum FetchError {
    /// The source could not be reached, or answered with a failure status.
    Unreachable,
    /// The source did not answer in time.
    TimedOut,
    /// The answer was not the expected list of areas.
    Malformed,
}

/// The coordinates of an area.
#[derive(Clone, Debug, PartialEq)]
pub struct Metadata {
    pub lat: JsonNumber,
    pub lng: JsonNumber,
}

pub struct MetadataV {
    pub lat: NumberV,
    pub lng: NumberV,
}

impl View for Metadata {
    type V = MetadataV;

    open spec fn view(&self) -> MetadataV {
        MetadataV { lat: self.lat@, lng: self.lng@ }
    }
}

/// A named area; the name is its key in the cache and in the document store.
#[derive(Clone, Debug, PartialEq)]
pub struct Area {
    pub area_name: String,
    pub metadata: Metadata,
}

pub struct AreaV {
    pub area_name: Seq<char>,
    pub metadata: MetadataV,
}

impl View for Area {
    type V = AreaV;

    open spec fn view(&self) -> AreaV {
        AreaV { area_name: self.area_name@, metadata: self.metadata@ }
    }
}

/// The areas that one query of the area source returned, in its order.
#[derive(Clone, Debug, PartialEq)]
pub struct Data {
    pub areas: Vec<Area>,
}

impl View for Data {
    type V = Seq<AreaV>;

    open spec fn view(&self) -> Seq<AreaV> {
        self.areas@.map_values(|a: Area| a@)
    }
}

/// Coordinates written as `{"lat": .., "lng": ..}`.
pub open spec fn decode_metadata(j: JsonV) -> Option<MetadataV> {
    match (member(j, "lat"@), member(j, "lng"@)) {
        (Some(JsonV::Number(lat)), Some(JsonV::Number(lng))) => Some(MetadataV { lat, lng }),
        _ => None,
    }
}

/// An area written as `{"area_name": .., "metadata": {"lat": .., "lng": ..}}`.
pub open spec fn decode_area(j: JsonV) -> Option<AreaV> {
    match (member(j, "area_name"@), member(j, "metadata"@)) {
        (Some(JsonV::Str(name)), Some(m)) => match decode_metadata(m) {
            Some(metadata) => Some(AreaV { area_name: name, metadata }),
            None => None,
        },
        _ => None,
    }
}

/// All the areas from position `i` on, when each of them decodes.
pub open spec fn decode_area_list(items: Seq<JsonV>, i: int) -> Option<Seq<AreaV>>
    decreases items.len() - i,
{
    if i < 0 || i >= items.len() {
        Some(Seq::empty())
    } else {
        match (decode_area(items[i]), decode_area_list(items, i + 1)) {
            (Some(a), Some(rest)) => Some(seq![a] + rest),
            _ => None,
        }
    }
}

/// The area source's answer, written as `{"areas": [..]}`.
pub open spec fn decode_data(j: JsonV) -> Option<Seq<AreaV>> {
    match member(j, "areas"@) {
        Some(JsonV::Array(items)) => decode_area_list(items, 0),
        _ => None,
    }
}

/// What reading the area source's answer from its bytes gives.
pub open spec fn areas_of_response(body: Seq<u8>) -> Result<Seq<AreaV>, FetchError> {
    match json_of(body) {
        Some(j) => match decode_data(j) {
            Some(areas) => Ok(areas),
            None => Err(FetchError::Malformed),
        },
        None => Err(FetchError::Malformed),
    }
}

/// What reading cached coordinates from their bytes gives.
pub open spec fn metadata_of_bytes(value: Seq<u8>) -> Option<MetadataV> {
    match json_of(value) {
        Some(j) => decode_metadata(j),
        None => None,
    }
}

/// How coordinates are written as the cached value of an area.
pub open spec fn encode_metadata(m: MetadataV) -> JsonV {
    JsonV::Object(seq![("lat"@, JsonV::Number(m.lat)), ("lng"@, JsonV::Number(m.lng))])
}

impl Metadata {
    /// Reads coordinates from a JSON document.
    pub fn from_json(j: &Json) -> (r: Option<Metadata>)
        ensures
            match r {
                Some(m) => decode_metadata(j@) == Some(m@),
                None => decode_metadata(j@) is None,
            },
    {
        match (j.member("lat"), j.member("lng")) {
            (Some(Json::Number(lat)), Some(Json::Number(lng))) => Some(
                Metadata { lat: lat.copied(), lng: lng.copied() },
            ),
            _ => None,
        }
    }

    /// Reads the coordinates that the cache holds for an area, from the stored bytes.
    pub fn from_cached(value: &[u8]) -> (r: Option<Metadata>)
        ensures
            match r {
                Some(m) => metadata_of_bytes(value@) == Some(m@),
                None => metadata_of_bytes(value@) is None,
            },
    {
        match parse_json(value) {
            Some(j) => Metadata::from_json(&j),
            None => None,
        }
    }

    /// The JSON document stored as the cached value of an area.
    pub fn to_json(&self) -> (r: Json)
        ensures
            r@ == encode_metadata(self@),
    {
        let mut fields: Vec<(String, Json)> = Vec::new();
        fields.push(("lat".to_owned(), Json::Number(self.lat.copied())));
        fields.push(("lng".to_owned(), Json::Number(self.lng.copied())));
        let r = Json::Object(fields);
        proof {
            lemma_fields_view_two(fields@);
        }
        r
    }
}

proof fn lemma_fields_view_two(fields: Seq<(String, Json)>)
    requires
        fields.len() == 2,
    ensures
        fields_view(fields, 0) == seq![
            (fields[0].0@, fields[0].1@),
            (fields[1].0@, fields[1].1@),
        ],
{
    lemma_fields_view(fields, 0);
    assert(fields_view(fields, 0) =~= seq![
        (fields[0].0@, fields[0].1@),
        (fields[1].0@, fields[1].1@),
    ]) by {
        assert(fields_view(fields, 0)[0 - 0] == (fields[0].0@, fields[0].1@));
        assert(fields_view(fields, 0)[1 - 0] == (fields[1].0@, fields[1].1@));
    }
}

/// Reading back the cached value written for coordinates gives those coordinates.
pub proof fn lemma_metadata_round_trip(m: MetadataV)
    ensures
        decode_metadata(encode_metadata(m)) == Some(m),
{
    reveal_strlit("lat");
    reveal_strlit("lng");
    let fields = seq![("lat"@, JsonV::Number(m.lat)), ("lng"@, JsonV::Number(m.lng))];
    assert("lat"@ != "lng"@) by {
        assert("lat"@[1] != "lng"@[1]);
    }
    assert(crate::json::find_from(fields, "lng"@, 1) == Some(JsonV::Number(m.lng)));
}

impl Area {
    /// Reads one area from a JSON document.
    pub fn from_json(j: &Json) -> (r: Option<Area>)
        ensures
            match r {
                Some(a) => decode_area(j@) == Some(a@),
                None => decode_area(j@) is None,
            },
    {
        match (j.member("area_name"), j.member("metadata")) {
            (Some(Json::Str(name)), Some(m)) => match Metadata::from_json(m) {
                Some(metadata) => Some(Area { area_name: name.clone(), metadata }),
                None => None,
            },
            _ => None,
        }
    }
}

proof fn lemma_decode_area_list_ok(items: Seq<JsonV>, i: int)
    requires
        0 <= i <= items.len(),
        forall|k: int| i <= k < items.len() ==> (#[trigger] decode_area(items[k])) is Some,
    ensures
        decode_area_list(items, i) == Some(
            Seq::new((items.len() - i) as nat, |k: int| decode_area(items[i + k])->Some_0),
        ),
    decreases items.len() - i,
{
    if i < items.len() {
        lemma_decode_area_list_ok(items, i + 1);
        assert(decode_area(items[i]) is Some);
        let rest = Seq::new((items.len() - i - 1) as nat, |k: int| decode_area(items[i + 1 + k])->Some_0);
        assert(seq![decode_area(items[i])->Some_0] + rest =~= Seq::new(
            (items.len() - i) as nat,
            |k: int| decode_area(items[i + k])->Some_0,
        ));
    } else {
        assert(Seq::<AreaV>::empty() =~= Seq::new(
            (items.len() - i) as nat,
            |k: int| decode_area(items[i + k])->Some_0,
        ));
    }
}

proof fn lemma_decode_area_list_none(items: Seq<JsonV>, i: int, f: int)
    requires
        0 <= i <= f < items.len(),
        decode_area(items[f]) is None,
    ensures
        decode_area_list(items, i) is None,
    decreases f - i,
{
    if i < f {
        lemma_decode_area_list_none(items, i + 1, f);
    }
}

impl Data {
    /// Reads the area source's answer, `{"areas": [..]}`, from a JSON document.
    pub fn from_json(j: &Json) -> (r: Option<Data>)
        ensures
            match r {
                Some(d) => decode_data(j@) == Some(d@),
                None => decode_data(j@) is None,
            },
    {
        let items = match j.member("areas") {
            Some(Json::Array(items)) => items,
            _ => return None,
        };
        let ghost v = items_view(items@, 0);
        proof {
            lemma_items_view(items@, 0);
            assert forall|k: int| 0 <= k < items.len() implies #[trigger] v[k] == items[k]@ by {
                assert(v[k - 0] == items@[k]@);
            }
            assert(decode_data(j@) == decode_area_list(v, 0));
        }
        let mut areas: Vec<Area> = Vec::new();
        let mut i: usize = 0;
        while i < items.len()
            invariant
                0 <= i <= items.len(),
                v == items_view(items@, 0),
                v.len() == items.len(),
                forall|k: int| 0 <= k < items.len() ==> #[trigger] v[k] == items[k]@,
                areas.len() == i,
                decode_data(j@) == decode_area_list(v, 0),
                forall|k: int| 0 <= k < i ==> #[trigger] decode_area(v[k]) == Some(areas[k]@),
            decreases items.len() - i,
        {
            match Area::from_json(&items[i]) {
                Some(a) => {
                    areas.push(a);
                },
                None => {
                    proof {
                        lemma_decode_area_list_none(v, 0, i as int);
                    }
                    return None;
                },
            }
            i = i + 1;
        }
        proof {
            lemma_decode_area_list_ok(v, 0);
            assert(areas@.map_values(|a: Area| a@) =~= Seq::new(
                (v.len() - 0) as nat,
                |k: int| decode_area(v[0 + k])->Some_0,
            ));
        }
        Some(Data { areas })
    }

    /// Reads the area source's answer from the bytes of its body; anything but the expected
    /// list of areas is [`FetchError::Malformed`].
    pub fn from_response(body: &[u8]) -> (r: Result<Data, FetchError>)
        ensures
            match r {
                Ok(d) => areas_of_response(body@) == Ok::<_, FetchError>(d@),
                Err(e) => areas_of_response(body@) == Err::<Seq<AreaV>, FetchError>(e),
            },
    {
        match parse_json(body) {
            Some(j) => match Data::from_json(&j) {
                Some(d) => Ok(d),
                None => Err(FetchError::Malformed),
            },
            None => Err(FetchError::Malformed),
        }
    }
}

} // verus!
