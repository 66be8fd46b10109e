//! The transport core of a Chord swarm: connection lifecycle, outbound scheduling, admission,
//! rerouting and storage synchronization, as state machines over plain values.

pub mod admission;
pub mod capacity;
pub mod class;
pub mod clock;
pub mod delivery;
pub mod detached_effect;
pub mod did;
pub mod error;
pub mod event_delivery;
pub mod frame_ledger;
pub mod lane_run;
pub mod link_control;
pub mod link_state;
pub mod liveness;
pub mod mailbox;
pub mod measurement;
pub mod ordered_map;
pub mod payload_send;
pub mod pending;
pub mod protection;
pub mod queue;
pub mod readiness;
pub mod registry;
pub mod rerouting;
pub mod rerouting_progress;
pub mod reserved_capacity;
pub mod retention;
pub mod schedulers;
pub mod stable_order;
pub mod storage_lookup;
pub mod storage_sync;
pub mod transfer;
pub mod transport;
pub mod worker;
