//! A MessagePack binary codec: a canonical-minimal encoder and a structural
//! validator over byte buffers, sharing a marker taxonomy, a bounds-checked
//! byte cursor, and a recursion-limit discipline.

pub mod fragment;
pub mod io;
pub mod msgpack;
