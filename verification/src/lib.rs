//! Verified core of the Linexus Nexus: Demiurge accounting, authorization
//! decisions, council voting and the projections the service surfaces.

pub mod app;
pub mod demiurge;
pub mod text;
pub mod order;
pub mod access;
pub mod funnel;
pub mod governance;
pub mod nexus;
pub mod gateway;
pub mod gateway_client;
pub mod housing;
