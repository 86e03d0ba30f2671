//! The model that a plan is made for.
use vstd::prelude::*;

pub mod resolver;

verus! {

/// Resolved properties of an ML model needed for VRAM and duration estimation.
#[derive(Debug)]
pub struct ModelSpec {
    /// The model identifier or path as supplied by the user.
    pub model_id: String,
    /// Total trainable parameter count.
    pub params: u128,
    /// Number of transformer layers (hidden blocks).
    pub num_layers: u32,
    /// Width of the hidden state.
    pub hidden_size: u32,
    /// Number of attention heads.
    pub num_heads: u32,
    /// Number of key-value heads (may differ from `num_heads` in GQA models).
    pub num_kv_heads: u32,
}

/// What a [`ModelSpec`] says.
pub ghost struct ModelView {
    pub model_id: Seq<char>,
    pub params: u128,
    pub num_layers: u32,
    pub hidden_size: u32,
    pub num_heads: u32,
    pub num_kv_heads: u32,
}

impl View for ModelSpec {
    type V = ModelView;

    open spec fn view(&self) -> ModelView {
        ModelView {
            model_id: self.model_id@,
            params: self.params,
            num_layers: self.num_layers,
            hidden_size: self.hidden_size,
            num_heads: self.num_heads,
            num_kv_heads: self.num_kv_heads,
        }
    }
}

} // verus!
