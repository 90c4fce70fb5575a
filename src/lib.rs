//! The verified core of a developer-workstation HTTP/HTTPS interception proxy:
//! the router (reserved paths, mocks, local routes, pass-through), the
//! forward listener's parsing of request heads and CONNECT lines, the request
//! engine's decisions, the certificate authority and its host-certificate
//! cache, the registries the data plane reads, and the listener supervisor.
pub mod ca;
pub mod dispatch;
pub mod domains;
pub mod engine;
pub mod groups;
pub mod logging;
pub mod mocks;
pub mod model;
pub mod payloads;
pub mod router;
pub mod routes;
pub mod schemas;
pub mod settings;
pub mod supervisor;
pub mod testcases;
pub mod text;
