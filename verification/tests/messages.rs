use witnet_validations::chain::{Block, BlockHeader, CheckpointBeacon, InventoryEntry, Transaction};
use witnet_validations::types::{
    Address, Command, GetPeers, InventoryAnnouncement, InventoryRequest, IpAddress, LastBeacon,
    Message, Peers, Verack, Version,
};
use witnet_validations::wallet::{
    GetPendingTransactionsRequest, DEFAULT_PAGINATION_LIMIT, DEFAULT_PAGINATION_OFFSET,
    MAX_PAGINATION_LIMIT,
};

type Hash = witnet_validations::chain::Hash;
type TransactionKind = witnet_validations::transaction::Transaction;

fn plain_tx() -> Transaction {
    Transaction { version: 0, inputs: vec![], outputs: vec![], hash: Hash::SHA256([0; 32]) }
}

fn address() -> Address {
    Address { ip: IpAddress::Ipv4 { ip: 0x7f00_0001 }, port: 21337 }
}

#[test]
fn command_names() {
    let beacon = CheckpointBeacon { checkpoint: 0, hash_prev_block: Hash::SHA256([0; 32]) };
    assert_eq!(Command::GetPeers(GetPeers).to_string(), "GET_PEERS");
    assert_eq!(Command::Peers(Peers { peers: vec![address()] }).to_string(), "PEERS");
    assert_eq!(Command::Verack(Verack).to_string(), "VERACK");
    let version = Version {
        version: 1,
        timestamp: -3,
        capabilities: 4,
        sender_address: address(),
        receiver_address: Address {
            ip: IpAddress::Ipv6 { ip0: 1, ip1: 2, ip2: 3, ip3: 4 },
            port: 1,
        },
        user_agent: "agent".to_string(),
        last_epoch: 8,
        nonce: 9,
    };
    assert_eq!(Command::Version(version).to_string(), "VERSION");
    let mut digest = [0x11u8; 32];
    digest[31] = 0xfe;
    let block = Block {
        block_header: BlockHeader { version: 0, beacon, hash_merkle_root: Hash::SHA256([0; 32]) },
        txns: vec![],
        hash: Hash::SHA256(digest),
    };
    assert_eq!(
        Command::Block(block).to_string(),
        "BLOCK: 11111111111111111111111111111111111111111111111111111111111111fe"
    );
    let entry = InventoryEntry::Block(Hash::SHA256([1; 32]));
    assert_eq!(
        Command::InventoryAnnouncement(InventoryAnnouncement { inventory: vec![entry] }).to_string(),
        "INVENTORY_ANNOUNCEMENT"
    );
    assert_eq!(
        Command::InventoryRequest(InventoryRequest { inventory: vec![entry] }).to_string(),
        "INVENTORY_REQUEST"
    );
    assert_eq!(
        Command::LastBeacon(LastBeacon { highest_block_checkpoint: beacon }).to_string(),
        "LAST_BEACON"
    );
    let kinds = [
        (TransactionKind::Commit(plain_tx()), "COMMIT_TRANSACTION"),
        (TransactionKind::ValueTransfer(plain_tx()), "VALUE_TRANSFER_TRANSACTION"),
        (TransactionKind::DataRequest(plain_tx()), "DATA_REQUEST_TRANSACTION"),
        (TransactionKind::Reveal(plain_tx()), "REVEAL_TRANSACTION"),
        (TransactionKind::Tally(plain_tx()), "TALLY_TRANSACTION"),
        (TransactionKind::Mint(plain_tx()), "MINT_TRANSACTION"),
    ];
    for (kind, name) in kinds {
        let message = Message { kind: Command::Transaction(kind), magic: 1 };
        assert_eq!(message.kind.to_string(), name);
    }
}

fn request(offset: Option<u32>, limit: Option<u32>) -> GetPendingTransactionsRequest {
    GetPendingTransactionsRequest {
        session_id: "session".to_string(),
        wallet_id: "wallet".to_string(),
        offset,
        limit,
    }
}

#[test]
fn pagination_defaults_and_cap() {
    assert_eq!(request(None, None).pagination(), (DEFAULT_PAGINATION_OFFSET, DEFAULT_PAGINATION_LIMIT));
    assert_eq!(request(Some(40), Some(10)).pagination(), (40, 10));
    assert_eq!(request(Some(3), Some(MAX_PAGINATION_LIMIT + 1)).pagination(), (3, MAX_PAGINATION_LIMIT));
    assert_eq!(request(None, Some(u32::MAX)).pagination(), (0, MAX_PAGINATION_LIMIT));
}
