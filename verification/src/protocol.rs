//! Wire formats: text and binary framing, field messages and tick data.
pub mod bar_laws;
pub mod fix;
pub mod fixcomp;
pub mod frame_laws;
pub mod ns;
pub mod tick_decoder;
pub mod tick_laws;
pub mod wire;
pub mod xyz;
