//! One ingestion run over the cached areas: each area is resolved from the cache, enriched
//! with its weather, and persisted, independently of the others. The caller performs the
//! cache reads, weather calls and writes; this module decides what each outcome means and
//! keeps the run's summary.
use vstd::prelude::*;

use crate::area::{Area, AreaV, FetchError, Metadata, metadata_of_bytes};
use crate::cache::CacheError;
use crate::weather::{normalize, normalized, DecodeError, WeatherResponse, WeatherV};

verus! {

/// Why the document store refused a write.
#[derive(Clone, Copy, Debug, PartialEq, Eq, Structural)]
pub enum PersistError {
    /// The store could not be reached or rejected the document.
    Rejected,
    /// The store did not answer in time.
    TimedOut,
}

/// Why one area of a run was not persisted.
#[derive(Clone, Copy, Debug, PartialEq, Eq, Structural)]
pub enum AreaFailure {
    /// The cache no longer holds the key.
    NotCached,
    /// The cache holds something that is not the area's coordinates.
    BadCachedValue,
    /// Reading the key from the cache failed.
    Cache(CacheError),
    /// The weather provider failed.
    Weather(FetchError),
    /// The weather payload did not decode.
    Decode(DecodeError),
    /// Writing the document failed.
    Persist(PersistError),
}

/// An area together with its normalized weather: the document persisted for it.
#[derive(Clone, Debug, PartialEq)]
pub struct ResponseAndArea {
    pub response: WeatherResponse,
    pub area: Area,
}

pub struct ResponseAndAreaV {
    pub response: WeatherV,
    pub area: AreaV,
}

impl View for ResponseAndArea {
    type V = ResponseAndAreaV;

    open spec fn view(&self) -> ResponseAndAreaV {
        ResponseAndAreaV { response: self.response@, area: self.area@ }
    }
}

/// The name of the area a document is about.
#[derive(Clone, Debug, PartialEq)]
pub struct AreaWeather {
    pub area_name: String,
}

impl From<ResponseAndArea> for AreaWeather {
    fn from(ra: ResponseAndArea) -> (r: AreaWeather) {
        AreaWeather { area_name: ra.area.area_name }
    }
}

impl vstd::std_specs::convert::FromSpecImpl<ResponseAndArea> for AreaWeather {
    open spec fn obeys_from_spec() -> bool {
        true
    }

    open spec fn from_spec(ra: ResponseAndArea) -> AreaWeather {
        AreaWeather { area_name: ra.area.area_name }
    }
}

/// The bytes of a cache read's outcome.
pub open spec fn cached_view(c: Result<Option<Vec<u8>>, CacheError>) -> Result<Option<Seq<u8>>, CacheError> {
    match c {
        Ok(Some(v)) => Ok(Some(v@)),
        Ok(None) => Ok(None),
        Err(e) => Err(e),
    }
}

/// The bytes of a weather call's outcome.
pub open spec fn payload_view(w: Result<Vec<u8>, FetchError>) -> Result<Seq<u8>, FetchError> {
    match w {
        Ok(v) => Ok(v@),
        Err(e) => Err(e),
    }
}

/// What a cache read of `name` gives for the run.
pub open spec fn resolved(
    name: Seq<char>,
    cached: Result<Option<Seq<u8>>, CacheError>,
) -> Result<AreaV, AreaFailure> {
    match cached {
        Err(e) => Err(AreaFailure::Cache(e)),
        Ok(None) => Err(AreaFailure::NotCached),
        Ok(Some(value)) => match metadata_of_bytes(value) {
            Some(metadata) => Ok(AreaV { area_name: name, metadata }),
            None => Err(AreaFailure::BadCachedValue),
        },
    }
}

/// What the weather call for an area gives for the run.
pub open spec fn enriched(area: AreaV, weather: Result<Seq<u8>, FetchError>) -> Result<
    ResponseAndAreaV,
    AreaFailure,
> {
    match weather {
        Err(e) => Err(AreaFailure::Weather(e)),
        Ok(payload) => match normalized(payload) {
            Ok(response) => Ok(ResponseAndAreaV { response, area }),
            Err(e) => Err(AreaFailure::Decode(e)),
        },
    }
}

/// Resolves a cached key to its area, from the outcome of reading the key.
pub fn resolve_area(name: &String, cached: &Result<Option<Vec<u8>>, CacheError>) -> (r: Result<
    Area,
    AreaFailure,
>)
    ensures
        match r {
            Ok(a) => resolved(name@, cached_view(*cached))
                == Ok::<_, AreaFailure>(a@),
            Err(e) => resolved(name@, cached_view(*cached))
                == Err::<AreaV, AreaFailure>(e),
        },
{
    match cached {
        Err(e) => Err(AreaFailure::Cache(*e)),
        Ok(None) => Err(AreaFailure::NotCached),
        Ok(Some(value)) => match Metadata::from_cached(value.as_slice()) {
            Some(metadata) => Ok(Area { area_name: name.clone(), metadata }),
            None => Err(AreaFailure::BadCachedValue),
        },
    }
}

/// Builds the document for an area from the outcome of its weather call: the payload is
/// normalized before anything is persisted.
pub fn enrich_area(area: Area, weather: &Result<Vec<u8>, FetchError>) -> (r: Result<
    ResponseAndArea,
    AreaFailure,
>)
    ensures
        match r {
            Ok(doc) => enriched(area@, payload_view(*weather)) == Ok::<_, AreaFailure>(doc@),
            Err(e) => enriched(area@, payload_view(*weather)) == Err::<
                ResponseAndAreaV,
                AreaFailure,
            >(e),
        },
{
    match weather {
        Err(e) => Err(AreaFailure::Weather(*e)),
        Ok(payload) => match normalize(payload.as_slice()) {
            Ok(response) => Ok(ResponseAndArea { response, area }),
            Err(e) => Err(AreaFailure::Decode(e)),
        },
    }
}

/// The outcome of a whole run so far: the areas persisted and the areas that failed, each in
/// the order they were recorded.
#[derive(Clone, Debug, PartialEq)]
pub struct BatchSummary {
    pub succeeded: Vec<String>,
    pub failed: Vec<(String, AreaFailure)>,
}

pub struct SummaryV {
    pub succeeded: Seq<Seq<char>>,
    pub failed: Seq<(Seq<char>, AreaFailure)>,
}

impl View for BatchSummary {
    type V = SummaryV;

    open spec fn view(&self) -> SummaryV {
        SummaryV {
            succeeded: self.succeeded@.map_values(|n: String| n@),
            failed: self.failed@.map_values(|f: (String, AreaFailure)| (f.0@, f.1)),
        }
    }
}

/// Why a run as a whole failed.
#[derive(Clone, Debug, PartialEq)]
pub enum PipelineError {
    /// The cache could not be enumerated, so no area was attempted.
    CacheUnreadable(CacheError),
    /// Every attempted area failed; the summary says how.
    AllFailed(BatchSummary),
}

/// The summary after one more area's outcome.
pub open spec fn record_step(s: SummaryV, name: Seq<char>, outcome: Result<(), AreaFailure>) -> SummaryV {
    match outcome {
        Ok(()) => SummaryV { succeeded: s.succeeded.push(name), failed: s.failed },
        Err(f) => SummaryV { succeeded: s.succeeded, failed: s.failed.push((name, f)) },
    }
}

/// The summary of a run whose areas had these outcomes, in order.
pub open spec fn summary_of(outcomes: Seq<(Seq<char>, Result<(), AreaFailure>)>) -> SummaryV
    decreases outcomes.len(),
{
    if outcomes.len() == 0 {
        SummaryV { succeeded: Seq::empty(), failed: Seq::empty() }
    } else {
        record_step(summary_of(outcomes.drop_last()), outcomes.last().0, outcomes.last().1)
    }
}

/// How many of the outcomes are successes.
pub open spec fn ok_count(outcomes: Seq<(Seq<char>, Result<(), AreaFailure>)>) -> nat
    decreases outcomes.len(),
{
    if outcomes.len() == 0 {
        0
    } else {
        ok_count(outcomes.drop_last()) + if outcomes.last().1 is Ok {
            1nat
        } else {
            0nat
        }
    }
}

/// A run ends in failure only when it attempted areas and every one of them failed.
pub open spec fn run_failed(s: SummaryV) -> bool {
    s.succeeded.len() == 0 && s.failed.len() > 0
}

impl BatchSummary {
    /// The summary of a run that has recorded nothing yet.
    pub fn new() -> (r: BatchSummary)
        ensures
            r@.succeeded.len() == 0,
            r@.failed.len() == 0,
    {
        BatchSummary { succeeded: Vec::new(), failed: Vec::new() }
    }

    /// Records one area's outcome; earlier outcomes stay as they were.
    pub fn record(&mut self, name: String, outcome: Result<(), AreaFailure>)
        ensures
            final(self)@ == record_step(old(self)@, name@, outcome),
    {
        match outcome {
            Ok(()) => {
                self.succeeded.push(name);
                assert(self@.succeeded =~= old(self)@.succeeded.push(name@));
                assert(self@.failed =~= old(self)@.failed);
            },
            Err(f) => {
                self.failed.push((name, f));
                assert(self@.failed =~= old(self)@.failed.push((name@, f)));
                assert(self@.succeeded =~= old(self)@.succeeded);
            },
        }
    }

    /// The number of areas persisted.
    pub fn succeeded_count(&self) -> (r: usize)
        ensures
            r == self@.succeeded.len(),
    {
        self.succeeded.len()
    }

    /// The number of areas that failed.
    pub fn failed_count(&self) -> (r: usize)
        ensures
            r == self@.failed.len(),
    {
        self.failed.len()
    }

    /// Some area failed: the run was degraded, not fully healthy.
    pub fn is_degraded(&self) -> (r: bool)
        ensures
            r == (self@.failed.len() > 0),
    {
        self.failed.len() > 0
    }

    /// Ends the run: a failure when areas were attempted and all of them failed, otherwise
    /// the summary, which reports any failed area.
    pub fn finish(self) -> (r: Result<BatchSummary, PipelineError>)
        ensures
            r is Err <==> run_failed(self@),
            match r {
                Ok(s) => s@ == self@,
                Err(PipelineError::AllFailed(s)) => s@ == self@,
                Err(PipelineError::CacheUnreadable(_)) => false,
            },
    {
        if self.succeeded.len() == 0 && self.failed.len() > 0 {
            Err(PipelineError::AllFailed(self))
        } else {
            Ok(self)
        }
    }
}

/// Each area of a run is counted once, as a success or as a failure, whatever the other
/// areas did: one area's failure neither stops nor hides the others.
pub proof fn lemma_summary_counts(outcomes: Seq<(Seq<char>, Result<(), AreaFailure>)>)
    ensures
        summary_of(outcomes).succeeded.len() == ok_count(outcomes),
        summary_of(outcomes).failed.len() + ok_count(outcomes) == outcomes.len(),
    decreases outcomes.len(),
{
    if outcomes.len() > 0 {
        lemma_summary_counts(outcomes.drop_last());
    }
}

} // verus!
