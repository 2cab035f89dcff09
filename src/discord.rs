//! The data the Gateway and its REST collaborator exchange.
use vstd::prelude::*;

verus! {

/// A chat message, as a "message created" event carries it.
pub struct Message {
    pub id: String,
    pub channel_id: String,
    pub content: String,
}

/// A user account, as the REST API describes it.
pub struct User {
    pub username: String,
    pub discriminator: String,
    pub avatar: String,
    pub email: Option<String>,
    pub flags: Option<String>,
}

/// Where the Gateway can be reached.
pub struct Gateway {
    pub url: String,
}

/// The client description sent along with the credential.
pub struct ConnectionProperties {
    pub os: String,
    pub browser: String,
    pub device: String,
}

/// The payload of an Identify frame.
pub struct Identify {
    pub token: String,
    pub intents: u64,
    pub properties: ConnectionProperties,
}

/// The envelope of every Gateway frame: an opcode, a payload whose shape
/// depends on the opcode and event name, and the optional sequence number and
/// event name of dispatch frames.
pub struct GatewayEvent<T> {
    pub op: i16,
    pub d: T,
    pub s: Option<i64>,
    pub t: Option<String>,
}

/// The payload of the Hello frame that opens every connection.
pub struct Hello {
    pub heartbeat_interval: u64,
}

} // verus!
