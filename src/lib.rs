//! An append-only log writer core: concurrent producers hand in byte payloads,
//! a single batcher coalesces them into block-aligned batches, sizes those
//! batches adaptively from measured throughput, and hands each batch's
//! completion handles to a notifier once the batch has been written.

pub mod batcher;
pub mod history;
pub mod notify;
pub mod payload;
pub mod sizing;

pub use batcher::{Batcher, DrainStep, IngestMessage};
pub use notify::{handle_completion, wake_all, CompletionMessage, Signals};
pub use sizing::{next_target_size, Measurement, Options};
