//! The observability core of an HTTP service: the description of the
//! running service, the propagation of trace context over the wire, and the
//! hooks that record each request into its span.

/// Text as sequences of characters: trimming, decimal numbers.
pub mod text;

/// Numbers written in lowercase hexadecimal digits of a fixed width.
pub mod hex;

/// Sequences of keyed entries read as mappings.
pub mod keyed;

/// Trace context on the wire: the carrier, injection and extraction.
pub mod propagation;

/// Attributes and the groups of them that describe the service.
pub mod attributes;

/// The resource: the merged description of the running service.
pub mod resource;

/// Spans and the hooks at the start of a request and the end of a response.
pub mod middleware;

/// The settings of the export pipelines.
pub mod pipeline;

/// The greeting endpoints.
pub mod hello;
