//! Email dispatch gateway: the scheduler/dispatcher pipeline that claims due
//! send-requests, fans them out to a message bus under a concurrency cap, and
//! reconciles the outcomes back into the request table. Also the ingress
//! rules around it: request validation, API-key checks, webhook handling and
//! counters. Storage, the bus client, HTTP and timers are left to the
//! embedding process; the library decides, the process carries it out.

pub mod status;
pub mod time;
pub mod models;
pub mod claim;
pub mod reconcile;
pub mod dispatch;
pub mod scheduler;
pub mod producer;
pub mod config;
pub mod error;
pub mod ingress;
pub mod validation;
pub mod results;
pub mod schedule;
