//! In-memory model of the AMQP 0.9.1 protocol specification as implemented
//! by RabbitMQ: the primitive wire-type system with its tag mapping, the
//! record types describing the specification document, and a loader that
//! turns the bundled specification resource into an immutable protocol
//! definition.

pub mod document;
pub mod json;
pub mod loader;
pub mod records;
pub mod types;
