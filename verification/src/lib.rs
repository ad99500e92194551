//! Negotiation and codec layer for a versioned, flavoured messaging protocol
//! carried over a duplex frame stream.

pub mod codec;
pub mod negotiate;
pub mod schema;
pub mod session;
pub mod subprotocol;
pub mod text;

pub use codec::{CodecError, Frame, FrameView, Payload, PayloadView};
pub use negotiate::{choose_subprotocol, get_subprotocol, split_header};
pub use session::{RecvEvent, RecvStep, Session, SessionError, SessionState};
pub use schema::{VizInterest, PROTOCOL_ORGANIZATION, PROTOCOL_PROJECT, PROTOCOL_VERSION};
pub use subprotocol::{BlimpSubprotocol, BlimpSubprotocolFlavour, SubprotocolValidationError};
