//! What the runtime backends decide.
pub mod candle;
pub mod delegated;
pub mod llamacpp;
pub mod metal;
