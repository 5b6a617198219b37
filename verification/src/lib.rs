pub mod bit_writer;
pub mod bits;
pub mod channels;
pub mod client_input;
pub mod disconnect;
pub mod display;
pub mod display_control;
pub mod encode;
pub mod encode_laws;
pub mod errors;
pub mod frame;
pub mod gfx_channel;
pub mod negotiation;
pub mod progressive;
pub mod rounding;
pub mod server;
pub mod session;
pub mod update;
pub mod zgfx;
pub mod zgfx_codes;
pub mod zgfx_decode;
