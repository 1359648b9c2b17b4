//! The payloads of the gateway protocol and of the REST endpoints, as plain
//! values. Their JSON form is read and written outside the library.
use vstd::prelude::*;

verus! {

/// The envelope of every gateway payload: opcode, data, and, on dispatches,
/// the sequence number and the event type.
#[derive(Debug, PartialEq, Eq)]
pub struct WsPayload<T> {
    pub op: i32,
    pub d: T,
    pub s: Option<u64>,
    pub t: Option<String>,
}

/// The envelope without its data, read first to learn what a payload is.
#[derive(Debug, PartialEq, Eq)]
pub struct WsPayloadUnknownOp {
    pub op: i32,
    pub s: Option<u64>,
    pub t: Option<String>,
}

/// The data of the hello payload.
#[derive(Debug, PartialEq, Eq)]
pub struct Hello {
    pub heartbeat_interval: u64,
}

/// The data of the identify payload.
#[derive(Debug, PartialEq, Eq)]
pub struct Identify {
    pub token: String,
    pub properties: IdentifyProperties,
    pub compress: Option<bool>,
    pub large_threshold: Option<u16>,
    pub shard: Option<[i32; 2]>,
    pub presence: Option<UpdateStatus>,
    pub guild_subscriptions: Option<bool>,
    pub intents: Option<i32>,
}

#[derive(Debug, PartialEq, Eq)]
pub struct IdentifyProperties {
    pub os: String,
    pub browser: String,
    pub device: String,
}

#[derive(Debug, PartialEq, Eq)]
pub struct UpdateStatus {
    pub since: Option<u64>,
    pub game: Option<Activity>,
    pub status: String,
    pub afk: bool,
}

#[derive(Debug, PartialEq, Eq)]
pub struct Activity {
    pub name: String,
    pub ty: i32,
    pub url: Option<String>,
}

/// The data of the ready payload that confirms an identify.
#[derive(Debug, PartialEq, Eq)]
pub struct Ready {
    pub session_id: String,
    pub user: User,
}

#[derive(Debug, PartialEq, Eq)]
pub struct User {
    pub id: String,
}

/// The data of the resume payload.
#[derive(Debug, PartialEq, Eq)]
pub struct Resume {
    pub token: String,
    pub session_id: String,
    pub seq: u64,
}

/// The data of a message-create dispatch, and an item of a history page.
#[derive(Debug, PartialEq, Eq)]
pub struct MessageReceived {
    pub id: String,
    pub channel_id: String,
    pub guild_id: Option<String>,
    pub content: String,
    pub mentions: Vec<User>,
    pub author: User,
}

#[derive(Debug, PartialEq, Eq)]
pub struct BotGatewaySessionStartLimit {
    pub total: u64,
    pub remaining: u64,
    pub reset_after: u64,
}

/// The answer of the endpoint that gives the gateway's address.
#[derive(Debug, PartialEq, Eq)]
pub struct BotGatewayResponse {
    pub url: String,
    pub shards: i32,
    pub session_start_limit: BotGatewaySessionStartLimit,
}

/// The body of a request that posts a message.
#[derive(Debug, PartialEq, Eq)]
pub struct CreateMessageRequest {
    pub content: String,
}

} // verus!
