//! Telemetry query surface: answering a point-in-time stats request
//! from the one snapshot pair the runtime's feed delivered, and
//! resolving the display name to attach to the answer.

use vstd::prelude::*;
use crate::errors::TelemetryError;
use crate::inventory::{spec_strip_slashes, strip_leading_slashes};
use crate::stats::{compute_container_stats, stats_correct, ContainerStats, RawCounterSnapshot};

verus! {

/// The two time-ordered snapshots one telemetry reading bundles.
#[derive(Clone, Debug)]
pub struct StatsSample {
    pub previous: RawCounterSnapshot,
    pub current: RawCounterSnapshot,
}

/// Answer a stats request from what the telemetry feed delivered:
/// the derived statistics when one snapshot pair arrived, and a
/// lookup failure when the feed yielded nothing — no default values
/// are substituted.
pub fn stats_from_sample(id: String, name: String, sample: Option<StatsSample>) -> (r: Result<
    ContainerStats,
    TelemetryError,
>)
    ensures
        sample matches Some(sp) ==> (r matches Ok(st) && stats_correct(
            st,
            id@,
            name@,
            sp.previous,
            sp.current,
        )),
        sample is None ==> (r matches Err(e) && (e matches TelemetryError::Lookup(m) && m@
            == "Failed to get container stats"@)),
{
    match sample {
        Some(sp) => Ok(compute_container_stats(id, name, &sp.previous, &sp.current)),
        None => Err(TelemetryError::Lookup(String::from_str("Failed to get container stats"))),
    }
}

/// The placeholder name synthesized from a short prefix of the id
/// when no name can be resolved.
pub open spec fn spec_id_prefix(id: Seq<char>) -> Seq<char> {
    if id.len() <= 8 {
        id
    } else {
        id.take(8)
    }
}

/// Resolve the display name for a stats answer: the name the
/// inventory reported, without its leading slashes; or, when the
/// inventory reported nothing, a placeholder derived from a short
/// prefix of the id.
pub fn resolve_container_name(container_id: &str, raw_name: Option<&str>) -> (r: String)
    ensures
        raw_name matches Some(n) ==> r@ == spec_strip_slashes(n@),
        raw_name is None ==> r@ == "container-"@ + spec_id_prefix(container_id@),
{
    match raw_name {
        Some(n) => strip_leading_slashes(n),
        None => {
            let mut s = String::from_str("container-");
            let n = container_id.unicode_len();
            if n > 8 {
                s.append(container_id.substring_char(0, 8));
            } else {
                s.append(container_id);
            }
            s
        },
    }
}

} // verus!
