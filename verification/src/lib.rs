//! A peer-to-peer lockstep synchronization engine for deterministic
//! emulated game sessions, together with the save-data and ROM-data
//! accessors that validate compatibility before a match starts.

pub mod bytes;
pub mod clock;
pub mod config;
pub mod balance;
pub mod battle;
pub mod bn4;
pub mod bn5;
pub mod bn6;
pub mod exe45;
pub mod folder_view;
pub mod protocol;
pub mod queue;
pub mod replay;
pub mod rom;
pub mod round;
pub mod save;
pub mod stats;

pub use balance::{balance_clock, compute_adjustment, DEADBAND};
pub use battle::{Match, MatchError, Negotiated, negotiate};
pub use bytes::{read_u16_le, read_u32_le, read_u64_le, push_u16_le, push_u32_le, push_u64_le};
pub use clock::{TickClock, MAX_ADJ};
pub use folder_view::{FolderView, GroupedChip};
pub use config::{EngineConfig, Theme};
pub use stats::{MatchDebugStats, RoundDebugStats};
pub use protocol::{InputIngress, IngressVerdict, Message, Settings, TransportError, encode_frame, encode_message, decode_message, take_frame};
pub use queue::{Input, InputQueue, QueueError};
pub use replay::{InputPair, Recorder, Replay, Replayer, ReplayPoll, parse_replay, serialize_replay};
pub use save::{SaveError, compute_save_raw_checksum, mask_save};
pub use round::{FeedOutcome, Round, RoundOutcome, RoundPhase, StepResult};
