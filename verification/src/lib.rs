//! The deciding core of a firmware that runs block programs on a small board: it binds
//! the board's peripherals from a declared layout, dispatches the syscalls of the
//! running program, keeps the runtime context that scheduler and control plane share,
//! and correlates messages with their replies. The hardware, the network and the
//! interpreter stay outside: the library is handed what they answered and says what is
//! to be done next.

pub mod bind;
pub mod broker;
pub mod channels;
pub mod custom;
pub mod devices;
pub mod dispatch;
pub mod handlers;
pub mod http;
pub mod layout;
pub mod ledger;
pub mod menu;
pub mod messages;
pub mod plan;
pub mod provenance;
pub mod reply;
pub mod ring;
pub mod runtime;
pub mod scheduler;
pub mod status;
pub mod storage;
pub mod text;
pub mod wifi;
