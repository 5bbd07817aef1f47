pub mod buffer;
pub mod builder;
pub mod error;
pub mod finalize;
pub mod layout;
pub mod packet;

pub use buffer::{Buffer, Dynamic, Octets, OctetsMut, Slice};
pub use builder::Builder;
pub use error::Error;
pub use finalize::{Finalization, Patch};
pub use layout::{FLOW_LABEL_MASK, HEADER_SIZE, MAX_PAYLOAD, VERSION};
pub use packet::{Checked, Packet};
