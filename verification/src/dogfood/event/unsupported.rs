//! Reasons the adapter could not fill a field the way the schema would
//! ideally want, reported beside the summary event, never inside it.

use vstd::prelude::*;

verus! {

pub const INGESTED_AT_IS_PROJECTION_TIME: &'static str = "ingested_at_is_projection_time_not_store_append_latency";

pub const ORIGIN_PROFILE_NOT_RECOVERABLE_FROM_LOG: &'static str = "origin_profile_not_recoverable_from_native_log";

pub const EXACT_DROPPED_COUNT_BELOW_RETENTION_FLOOR: &'static str = "exact_dropped_count_below_retention_floor";

pub const DEVICE_LEVEL_GPU_ENFORCEMENT: &'static str = "device_level_gpu_enforcement";

} // verus!
