//! Runtime core of FlightVars: the OACSP line protocol, the FSUIPC offset and
//! LVar domain handlers with their subscription bookkeeping, the command router,
//! the notification channel and the decision steps of the worker loops.

pub mod channel;
pub mod error;
pub mod text;
pub mod domain;
pub mod offset;
pub mod subscription;
pub mod fsuipc;
pub mod lvar;
pub mod router;
pub mod protocol;
pub mod oacsp;
pub mod notify;
pub mod buffer;
pub mod bus;
pub mod connection;
pub mod worker;
pub mod sized;
pub mod util;
pub mod scanner;
pub mod config;
