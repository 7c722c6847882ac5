//! Primitives shared between thread context and interrupt context.

pub mod fifo;
