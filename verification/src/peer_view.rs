//! What a desktop program may see and ask of the service.
use vstd::prelude::*;

use crate::config::{
    copy_peers, peer_models, Config, DaemonConfig, InputConfig, PeerConfig, PeerModel,
    PlayoutConfig, TransportConfig,
};
use crate::net::SocketAddress;
use crate::ordered::OrderedMap;

verus! {

/// A request of a desktop program. Nothing else can be asked for.
#[derive(Debug, PartialEq, Eq)]
pub enum Request {
    Snapshot,
    Desktop,
    Pair { remote: Option<SocketAddress> },
    PairConfirm { name: String, authentication_code: String },
}

#[derive(Debug, PartialEq, Eq)]
pub enum PairingEvent {
    Ready,
    Confirm { peer_label: Option<String>, authentication_code: String },
    Paired,
    Error { message: String },
}

/// The peers and whether they are looked for: all that a desktop program sees
/// of the configuration.
pub struct Snapshot {
    pub peers: OrderedMap<PeerConfig>,
    pub discovery: bool,
}

impl Snapshot {
    pub open spec fn wf(&self) -> bool {
        self.peers.wf()
    }

    pub open spec fn paired(&self) -> Map<Seq<char>, PeerModel> {
        peer_models(self.peers@)
    }

    pub fn from_config(config: &Config) -> (result: Self)
        requires
            config.wf(),
        ensures
            result.wf(),
            result.paired() == config.paired(),
            result.discovery == config.transport.discovery,
    {
        Snapshot { peers: copy_peers(&config.peers), discovery: config.transport.discovery }
    }

    /// A configuration for display: the snapshot's parts, and the given
    /// values for everything that it does not tell.
    pub fn into_display_config(
        self,
        daemon: DaemonConfig,
        input: InputConfig,
        transport: TransportConfig,
        playout: PlayoutConfig,
    ) -> (result: Config)
        requires
            self.wf(),
        ensures
            result.wf(),
            result.paired() == self.paired(),
            result.transport == (TransportConfig { discovery: self.discovery, ..transport }),
            result.daemon == daemon,
            result.input == input,
            result.playout == playout,
    {
        Config {
            daemon,
            input,
            transport: TransportConfig { discovery: self.discovery, ..transport },
            playout,
            peers: self.peers,
        }
    }
}

/// The desktop service is trusted when it runs as its own account or as root.
pub fn is_trusted_service(uid: u32, service_uid: u32) -> (result: bool)
    ensures
        result == (uid == service_uid || uid == 0),
{
    uid == service_uid || uid == 0
}

} // verus!
