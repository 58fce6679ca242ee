//! A self-describing host-information service, as a verified library.
//!
//! The service answers `GET /` with a greeting and `GET /hostinfo` with the
//! host name, the process id and the uptime of the host. It also publishes a
//! description of itself, an OpenAPI document, and a page that displays it.
//!
//! Routes are registered with the shape of their responses; the document is
//! built from that registry, once, and the registry is frozen from then on. So
//! the description and the routes cannot drift apart: what is served is what
//! is documented, and a handler answers in the shape it declares.
//!
//! - [`schema`]: response shapes.
//! - [`route`]: methods and route descriptors.
//! - [`registry`]: the schema registry.
//! - [`openapi`]: the API document, its builder and its JSON text.
//! - [`host`]: the host information provider.
//! - [`json`]: JSON text.
//! - [`ui`]: the documentation UI.
//! - [`url`]: what a relative URL resolves to.
//! - [`service`]: the handlers and the assembled application.
//! - [`error`]: the errors.
//!
//! The library opens no socket and asks the operating system nothing. The
//! program around it listens, reads the host facts, and hands both over.

pub mod error;
pub mod host;
pub mod json;
pub mod openapi;
pub mod registry;
pub mod route;
pub mod schema;
pub mod service;
pub mod ui;
pub mod url;
