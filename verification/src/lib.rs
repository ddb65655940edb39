//! Vesting schedules and validator identity bookkeeping for a Dytallix node.

pub mod codec;
pub mod identity;
pub mod key_source;
pub mod registry;
pub mod schedule;
pub mod storage;

pub use schedule::{VestingSchedule, ScheduleView};
pub use storage::Storage;
pub use registry::VestingModule;
pub use identity::{derive_identity, ValidatorIdentity};
pub use key_source::{KeyEnvironment, KeySource};
