use vstd::prelude::*;

use crate::chain::{hex_string, Block, CheckpointBeacon, InventoryEntry};
use crate::transaction::Transaction;

verus! {

/// Witnet's protocol messages
#[derive(Clone, Debug, PartialEq, Eq)]
pub struct Message {
    pub kind: Command,
    pub magic: u16,
}

/// Commands for the Witnet's protocol messages
#[derive(Clone, Debug, PartialEq, Eq)]
pub enum Command {
    // Peer discovery messages
    GetPeers(GetPeers),
    Peers(Peers),
    // Handshake messages
    Verack(Verack),
    Version(Version),
    // Inventory messages
    Block(Block),
    Transaction(Transaction),
    InventoryAnnouncement(InventoryAnnouncement),
    InventoryRequest(InventoryRequest),
    LastBeacon(LastBeacon),
}

impl Command {
    /// The text that names the command; a block is shown with its hash.
    pub open spec fn spec_text(&self) -> Seq<char> {
        match self {
            Command::GetPeers(_) => "GET_PEERS"@,
            Command::Peers(_) => "PEERS"@,
            Command::Verack(_) => "VERACK"@,
            Command::Version(_) => "VERSION"@,
            Command::Block(block) => "BLOCK: "@ + hex_string(block.hash.bytes()),
            Command::InventoryAnnouncement(_) => "INVENTORY_ANNOUNCEMENT"@,
            Command::InventoryRequest(_) => "INVENTORY_REQUEST"@,
            Command::LastBeacon(_) => "LAST_BEACON"@,
            Command::Transaction(tx) => match tx {
                Transaction::Commit(_) => "COMMIT_TRANSACTION"@,
                Transaction::ValueTransfer(_) => "VALUE_TRANSFER_TRANSACTION"@,
                Transaction::DataRequest(_) => "DATA_REQUEST_TRANSACTION"@,
                Transaction::Reveal(_) => "REVEAL_TRANSACTION"@,
                Transaction::Tally(_) => "TALLY_TRANSACTION"@,
                Transaction::Mint(_) => "MINT_TRANSACTION"@,
            },
        }
    }

    /// The text that names the command; a block is shown with its hash.
    pub fn to_string(&self) -> (r: String)
        ensures
            r@ == self.spec_text(),
    {
        match self {
            Command::GetPeers(_) => String::from_str("GET_PEERS"),
            Command::Peers(_) => String::from_str("PEERS"),
            Command::Verack(_) => String::from_str("VERACK"),
            Command::Version(_) => String::from_str("VERSION"),
            Command::Block(block) => {
                let hash = block.hash().to_string();
                let mut text = String::from_str("BLOCK: ");
                text.append(hash.as_str());
                text
            },
            Command::InventoryAnnouncement(_) => String::from_str("INVENTORY_ANNOUNCEMENT"),
            Command::InventoryRequest(_) => String::from_str("INVENTORY_REQUEST"),
            Command::LastBeacon(_) => String::from_str("LAST_BEACON"),
            Command::Transaction(tx) => match tx {
                Transaction::Commit(_) => String::from_str("COMMIT_TRANSACTION"),
                Transaction::ValueTransfer(_) => String::from_str("VALUE_TRANSFER_TRANSACTION"),
                Transaction::DataRequest(_) => String::from_str("DATA_REQUEST_TRANSACTION"),
                Transaction::Reveal(_) => String::from_str("REVEAL_TRANSACTION"),
                Transaction::Tally(_) => String::from_str("TALLY_TRANSACTION"),
                Transaction::Mint(_) => String::from_str("MINT_TRANSACTION"),
            },
        }
    }
}

///////////////////////////////////////////////////////////
// PEER DISCOVERY MESSAGES
///////////////////////////////////////////////////////////
#[derive(Clone, Copy, Debug, PartialEq, Eq)]
pub struct GetPeers;

#[derive(Clone, Debug, PartialEq, Eq)]
pub struct Peers {
    pub peers: Vec<Address>,
}

///////////////////////////////////////////////////////////
// HANDSHAKE MESSAGES
///////////////////////////////////////////////////////////
#[derive(Clone, Copy, Debug, PartialEq, Eq)]
pub struct Verack;

#[derive(Clone, Debug, PartialEq, Eq)]
pub struct Version {
    pub version: u32,
    pub timestamp: i64,
    pub capabilities: u64,
    pub sender_address: Address,
    pub receiver_address: Address,
    pub user_agent: String,
    pub last_epoch: u32,
    pub nonce: u64,
}

///////////////////////////////////////////////////////////
// INVENTORY MESSAGES
///////////////////////////////////////////////////////////
#[derive(Clone, Debug, PartialEq, Eq)]
pub struct InventoryAnnouncement {
    pub inventory: Vec<InventoryEntry>,
}

#[derive(Clone, Debug, PartialEq, Eq)]
pub struct InventoryRequest {
    pub inventory: Vec<InventoryEntry>,
}

#[derive(Clone, Copy, Debug, PartialEq, Eq)]
pub struct LastBeacon {
    pub highest_block_checkpoint: CheckpointBeacon,
}

///////////////////////////////////////////////////////////
// AUX TYPES
///////////////////////////////////////////////////////////
#[derive(Clone, Copy, Debug, PartialEq, Eq)]
pub enum IpAddress {
    Ipv4 { ip: u32 },
    Ipv6 { ip0: u32, ip1: u32, ip2: u32, ip3: u32 },
}

#[derive(Clone, Copy, Debug, PartialEq, Eq)]
pub struct Address {
    pub ip: IpAddress,
    pub port: u16,
}

} // verus!
