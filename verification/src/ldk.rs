//! Connections to LDK nodes over HTTP.
use crate::backend::parse_node_key;
use crate::node::{LightningError, NodeId, NodeInfo};
use crate::primitives::{parsed_public_key, Network, NodeFeatures};
use crate::text::text;
use vstd::prelude::*;

verus! {

/// The request for the information about a node.
#[derive(Debug)]
pub struct GetNodeInfoRequest {}

/// The information about a node.
#[derive(Debug)]
pub struct GetNodeInfoResponse {
    /// The hex-encoded `node-id` or public key for our own lightning node.
    pub node_id: String,
}

/// The details of a connection to an LDK node.
#[derive(Debug)]
pub struct LdkConnection {
    pub id: NodeId,
    pub address: String,
}

/// A connection to an LDK node, with what the node reported about itself.
#[derive(Debug)]
pub struct LdkNode {
    pub base_url: String,
    pub info: NodeInfo,
}

impl LdkNode {
    /// Connects to a node, given what it reports about itself. It has no alias and no features.
    pub fn new(connection: LdkConnection, response: &GetNodeInfoResponse) -> (r: Result<Self, LightningError>)
        ensures
            match parsed_public_key(response.node_id@) {
                Err(m) => r matches Err(LightningError::GetInfoError(e)) && e@ == m,
                Ok(bytes) => {
                    &&& r matches Ok(node)
                    &&& node.base_url == connection.address
                    &&& node.info.pubkey.0@ == bytes
                    &&& node.info.alias@.len() == 0
                    &&& node.info.features@.len() == 0
                },
            },
    {
        let pubkey = match parse_node_key(response.node_id.as_str()) {
            Ok(pubkey) => pubkey,
            Err(e) => {
                return Err(e);
            },
        };
        Ok(
            LdkNode {
                base_url: connection.address,
                info: NodeInfo { pubkey, alias: String::new(), features: NodeFeatures::empty() },
            },
        )
    }

    /// The information that the node reported when the connection was made.
    pub fn get_info(&self) -> (i: &NodeInfo)
        ensures
            *i == self.info,
    {
        &self.info
    }

    /// The URL of a path at the node.
    pub fn url(base_url: &str, path: &str) -> (r: String)
        ensures
            r@ == "http://"@ + base_url@ + "/"@ + path@,
    {
        let mut r = text("http://");
        r.append(base_url);
        r.append("/");
        r.append(path);
        r
    }

    /// The network that the node runs on.
    pub fn get_network(&self) -> (n: Network)
        ensures
            n is Regtest,
    {
        Network::Regtest
    }
}

/// What was replied to a request: the payload if the status is one of success.
pub fn check_reply(is_success: bool, payload: Vec<u8>) -> (r: Result<Vec<u8>, LightningError>)
    ensures
        if is_success {
            r == Ok::<Vec<u8>, LightningError>(payload)
        } else {
            r matches Err(LightningError::GetInfoError(m)) && m@ == "Unknown Error"@
        },
{
    if is_success {
        Ok(payload)
    } else {
        Err(LightningError::GetInfoError(text("Unknown Error")))
    }
}

} // verus!
