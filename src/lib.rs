//! Estimates the time remaining until a task of a known number of units is
//! done, from the spacing of the most recent "one unit done" signals.

mod bucket;
mod chug;
mod clock;
mod estimate;

pub use bucket::{
    inserted_all, keep_newest, lemma_wf_within_capacity, lemma_window_fills,
    lemma_window_keeps_newest, LeakyBucket,
};
pub use chug::{
    after_ticks, lemma_after_ticks, lemma_estimate_regimes, lemma_even_spacing,
    lemma_fresh_after_ticks, lemma_gap_total_even, Chug, ChugState,
};
pub use clock::millis_duration;
pub use estimate::{gap, gap_total, lemma_gap_total_bound, mean_gap, saturate};
