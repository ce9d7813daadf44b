//! Subscription-intake library: validated subscriber data, the intake
//! pipeline that turns a raw form body into a persistence request and an
//! HTTP status, and the configuration that parameterizes the service.

pub mod config;
pub mod domain;
pub mod email_client;
pub mod form;
pub mod routes;
pub mod startup;
