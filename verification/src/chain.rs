use vstd::prelude::*;

verus! {

/// Length in bytes of a SHA-256 digest.
pub const SHA256_LEN: usize = 32;

/// A digest that identifies a block, a transaction or a Merkle root.
#[derive(Clone, Copy, Debug, Eq)]
pub enum Hash {
    SHA256([u8; 32]),
}

impl Hash {
    /// The digest's bytes.
    pub open spec fn bytes(self) -> Seq<u8> {
        match self {
            Hash::SHA256(b) => b@,
        }
    }

    /// The digest's bytes, borrowed.
    pub fn as_bytes(&self) -> (r: &[u8; 32])
        ensures
            *self == Hash::SHA256(*r),
    {
        match self {
            Hash::SHA256(b) => b,
        }
    }

    /// Whether two digests hold the same bytes.
    pub fn same_as(&self, other: &Hash) -> (r: bool)
        ensures
            r == (*self == *other),
    {
        let a = self.as_bytes();
        let b = other.as_bytes();
        let mut i: usize = 0;
        while i < SHA256_LEN
            invariant
                i <= SHA256_LEN,
                *self == Hash::SHA256(*a),
                *other == Hash::SHA256(*b),
                forall|j: int| 0 <= j < i ==> a[j] == b[j],
            decreases SHA256_LEN - i,
        {
            if a[i] != b[i] {
                assert(a[i as int] != b[i as int]);
                return false;
            }
            i = i + 1;
        }
        proof {
            assert(*a =~= *b);
        }
        true
    }
}

impl PartialEq for Hash {
    fn eq(&self, other: &Hash) -> (r: bool) {
        self.same_as(other)
    }
}

impl vstd::std_specs::cmp::PartialEqSpecImpl for Hash {
    open spec fn obeys_eq_spec() -> bool {
        true
    }

    open spec fn eq_spec(&self, other: &Hash) -> bool {
        *self == *other
    }
}

} // verus!

verus! {

/// Index of a block in the chain, counted in epochs.
pub type Epoch = u32;

/// The hash of a public key, which owns an output.
#[derive(Clone, Copy, Debug, PartialEq, Eq)]
pub struct PublicKeyHash {
    pub hash: [u8; 20],
}

/// A point of the chain: an epoch and the hash of the block before it.
#[derive(Clone, Copy, Debug, PartialEq, Eq)]
pub struct CheckpointBeacon {
    pub checkpoint: Epoch,
    pub hash_prev_block: Hash,
}

/// Points at an output: the transaction that created it and its index there.
#[derive(Clone, Copy, Debug, Eq)]
pub struct OutputPointer {
    pub transaction_id: Hash,
    pub output_index: u32,
}

impl OutputPointer {
    /// Whether two pointers name the same output.
    pub fn same_as(&self, other: &OutputPointer) -> (r: bool)
        ensures
            r == (*self == *other),
    {
        self.output_index == other.output_index && self.transaction_id.same_as(
            &other.transaction_id,
        )
    }
}

impl PartialEq for OutputPointer {
    fn eq(&self, other: &OutputPointer) -> (r: bool) {
        self.same_as(other)
    }
}

impl vstd::std_specs::cmp::PartialEqSpecImpl for OutputPointer {
    open spec fn obeys_eq_spec() -> bool {
        true
    }

    open spec fn eq_spec(&self, other: &OutputPointer) -> bool {
        *self == *other
    }
}

/// Spends a value transfer output.
#[derive(Clone, Copy, Debug, PartialEq, Eq)]
pub struct ValueTransferInput {
    pub transaction_id: Hash,
    pub output_index: u32,
}

/// Spends a data request output.
#[derive(Clone, Copy, Debug, PartialEq, Eq)]
pub struct DataRequestInput {
    pub transaction_id: Hash,
    pub output_index: u32,
}

/// Spends a commit output.
#[derive(Clone, Copy, Debug, PartialEq, Eq)]
pub struct CommitInput {
    pub transaction_id: Hash,
    pub output_index: u32,
}

/// Spends a reveal output.
#[derive(Clone, Copy, Debug, PartialEq, Eq)]
pub struct RevealInput {
    pub transaction_id: Hash,
    pub output_index: u32,
}

/// An input of a transaction: it spends the output that it points at.
#[derive(Clone, Copy, Debug, PartialEq, Eq)]
pub enum Input {
    Commit(CommitInput),
    DataRequest(DataRequestInput),
    Reveal(RevealInput),
    ValueTransfer(ValueTransferInput),
}

impl Input {
    /// The output that this input spends.
    pub open spec fn spec_output_pointer(&self) -> OutputPointer {
        match self {
            Input::Commit(i) => OutputPointer {
                transaction_id: i.transaction_id,
                output_index: i.output_index,
            },
            Input::DataRequest(i) => OutputPointer {
                transaction_id: i.transaction_id,
                output_index: i.output_index,
            },
            Input::Reveal(i) => OutputPointer {
                transaction_id: i.transaction_id,
                output_index: i.output_index,
            },
            Input::ValueTransfer(i) => OutputPointer {
                transaction_id: i.transaction_id,
                output_index: i.output_index,
            },
        }
    }

    /// The output that this input spends.
    #[verifier::when_used_as_spec(spec_output_pointer)]
    pub fn output_pointer(&self) -> (r: OutputPointer)
        ensures
            r == self.spec_output_pointer(),
    {
        match self {
            Input::Commit(i) => OutputPointer {
                transaction_id: i.transaction_id,
                output_index: i.output_index,
            },
            Input::DataRequest(i) => OutputPointer {
                transaction_id: i.transaction_id,
                output_index: i.output_index,
            },
            Input::Reveal(i) => OutputPointer {
                transaction_id: i.transaction_id,
                output_index: i.output_index,
            },
            Input::ValueTransfer(i) => OutputPointer {
                transaction_id: i.transaction_id,
                output_index: i.output_index,
            },
        }
    }
}

/// Value sent to the owner of a public key hash.
#[derive(Clone, Copy, Debug, PartialEq, Eq)]
pub struct ValueTransferOutput {
    pub pkh: PublicKeyHash,
    pub value: u64,
}

/// A data request: the value it puts up, how many witnesses it asks for and
/// the fees it pays at each stage.
#[derive(Clone, Copy, Debug, PartialEq, Eq)]
pub struct DataRequestOutput {
    pub pkh: PublicKeyHash,
    pub value: u64,
    pub witnesses: u16,
    pub backup_witnesses: u16,
    pub commit_fee: u64,
    pub reveal_fee: u64,
    pub tally_fee: u64,
    pub time_lock: u64,
}

/// A witness's commitment to a result.
#[derive(Clone, Copy, Debug, PartialEq, Eq)]
pub struct CommitOutput {
    pub commitment: Hash,
    pub value: u64,
}

/// A witness's revealed result.
#[derive(Clone, Copy, Debug, PartialEq, Eq)]
pub struct RevealOutput {
    pub pkh: PublicKeyHash,
    pub value: u64,
}

/// The tally of a data request.
#[derive(Clone, Copy, Debug, PartialEq, Eq)]
pub struct TallyOutput {
    pub pkh: PublicKeyHash,
    pub value: u64,
}

/// An output of a transaction.
#[derive(Clone, Copy, Debug, PartialEq, Eq)]
pub enum Output {
    ValueTransfer(ValueTransferOutput),
    DataRequest(DataRequestOutput),
    Commit(CommitOutput),
    Reveal(RevealOutput),
    Tally(TallyOutput),
}

/// A transaction of the chain. `hash` is its identifier, the digest of its
/// encoding, kept with it where it was encoded.
#[derive(Clone, Debug, PartialEq, Eq)]
pub struct Transaction {
    pub version: u32,
    pub inputs: Vec<Input>,
    pub outputs: Vec<Output>,
    pub hash: Hash,
}

/// A copy of a vector of plain values.
pub fn copy_vec<T: Copy>(v: &Vec<T>) -> (r: Vec<T>)
    ensures
        r@ == v@,
{
    let mut r: Vec<T> = Vec::new();
    let mut i: usize = 0;
    while i < v.len()
        invariant
            i <= v.len(),
            r@ == v@.subrange(0, i as int),
        decreases v.len() - i,
    {
        r.push(v[i]);
        i = i + 1;
    }
    r
}

/// What a transaction holds, as plain values.
pub struct TransactionModel {
    pub version: u32,
    pub inputs: Seq<Input>,
    pub outputs: Seq<Output>,
    pub hash: Hash,
}

impl View for Transaction {
    type V = TransactionModel;

    open spec fn view(&self) -> TransactionModel {
        TransactionModel {
            version: self.version,
            inputs: self.inputs@,
            outputs: self.outputs@,
            hash: self.hash,
        }
    }
}

impl Transaction {
    /// The transaction's identifier.
    pub fn hash(&self) -> (r: Hash)
        ensures
            r == self.hash,
    {
        self.hash
    }

    /// A copy of the transaction.
    pub fn duplicate(&self) -> (r: Transaction)
        ensures
            r@ == self@,
    {
        Transaction {
            version: self.version,
            inputs: copy_vec(&self.inputs),
            outputs: copy_vec(&self.outputs),
            hash: self.hash,
        }
    }
}

/// The kind of a transaction, told by its outputs.
#[derive(Clone, Copy, Debug, PartialEq, Eq)]
pub enum TransactionType {
    InvalidType,
    Mint,
    ValueTransfer,
    DataRequest,
    Commit,
    Reveal,
    Tally,
}

/// The header of a block.
#[derive(Clone, Copy, Debug, PartialEq, Eq)]
pub struct BlockHeader {
    pub version: u32,
    pub beacon: CheckpointBeacon,
    pub hash_merkle_root: Hash,
}

/// A block: its header and its transactions. `hash` is its identifier,
/// the digest of its encoding, kept with it where it was encoded.
#[derive(Clone, Debug, PartialEq, Eq)]
pub struct Block {
    pub block_header: BlockHeader,
    pub txns: Vec<Transaction>,
    pub hash: Hash,
}

/// The contents of a sequence of transactions.
pub open spec fn transaction_models(txns: Seq<Transaction>) -> Seq<TransactionModel> {
    txns.map_values(|t: Transaction| t@)
}

/// A copy of a vector of transactions.
pub fn copy_transactions(v: &Vec<Transaction>) -> (r: Vec<Transaction>)
    ensures
        transaction_models(r@) == transaction_models(v@),
{
    let mut r: Vec<Transaction> = Vec::new();
    let mut i: usize = 0;
    while i < v.len()
        invariant
            i <= v.len(),
            r.len() == i,
            forall|j: int| 0 <= j < i ==> #[trigger] r@[j]@ == v@[j]@,
        decreases v.len() - i,
    {
        r.push(v[i].duplicate());
        i = i + 1;
    }
    assert(transaction_models(r@) =~= transaction_models(v@));
    r
}

/// What a block holds, as plain values.
pub struct BlockModel {
    pub block_header: BlockHeader,
    pub txns: Seq<TransactionModel>,
    pub hash: Hash,
}

impl View for Block {
    type V = BlockModel;

    open spec fn view(&self) -> BlockModel {
        BlockModel {
            block_header: self.block_header,
            txns: transaction_models(self.txns@),
            hash: self.hash,
        }
    }
}

impl Block {
    /// The block's identifier.
    pub fn hash(&self) -> (r: Hash)
        ensures
            r == self.hash,
    {
        self.hash
    }

    /// A copy of the block.
    pub fn duplicate(&self) -> (r: Block)
        ensures
            r@ == self@,
    {
        Block {
            block_header: self.block_header,
            txns: copy_transactions(&self.txns),
            hash: self.hash,
        }
    }
}

/// An item that peers announce and request.
#[derive(Clone, Copy, Debug, PartialEq, Eq)]
pub enum InventoryEntry {
    Error(Hash),
    Tx(Hash),
    Block(Hash),
    DataBlock(Hash),
}

/// The lower-case hexadecimal digit for `n`.
pub open spec fn hex_char(n: u8) -> char {
    seq!['0', '1', '2', '3', '4', '5', '6', '7', '8', '9', 'a', 'b', 'c', 'd', 'e', 'f'][n as int]
}

/// `bytes` in lower-case hexadecimal, two digits a byte, the high digit first.
pub open spec fn hex_string(bytes: Seq<u8>) -> Seq<char>
    decreases bytes.len(),
{
    if bytes.len() == 0 {
        Seq::empty()
    } else {
        hex_string(bytes.drop_last()) + seq![hex_char(bytes.last() / 16), hex_char(bytes.last() % 16)]
    }
}

/// The hexadecimal digit for `n`, as a string.
fn hex_digit(n: u8) -> (r: &'static str)
    requires
        n < 16,
    ensures
        r@ == seq![hex_char(n)],
{
    proof {
        reveal_strlit("0");
        reveal_strlit("1");
        reveal_strlit("2");
        reveal_strlit("3");
        reveal_strlit("4");
        reveal_strlit("5");
        reveal_strlit("6");
        reveal_strlit("7");
        reveal_strlit("8");
        reveal_strlit("9");
        reveal_strlit("a");
        reveal_strlit("b");
        reveal_strlit("c");
        reveal_strlit("d");
        reveal_strlit("e");
        reveal_strlit("f");
    }
    let r = if n == 0 {
        "0"
    } else if n == 1 {
        "1"
    } else if n == 2 {
        "2"
    } else if n == 3 {
        "3"
    } else if n == 4 {
        "4"
    } else if n == 5 {
        "5"
    } else if n == 6 {
        "6"
    } else if n == 7 {
        "7"
    } else if n == 8 {
        "8"
    } else if n == 9 {
        "9"
    } else if n == 10 {
        "a"
    } else if n == 11 {
        "b"
    } else if n == 12 {
        "c"
    } else if n == 13 {
        "d"
    } else if n == 14 {
        "e"
    } else {
        "f"
    };
    r
}

impl Hash {
    /// The digest in lower-case hexadecimal.
    pub fn to_string(&self) -> (r: String)
        ensures
            r@ == hex_string(self.bytes()),
    {
        let bytes = self.as_bytes();
        let mut r = String::new();
        let mut i: usize = 0;
        while i < SHA256_LEN
            invariant
                i <= SHA256_LEN,
                *self == Hash::SHA256(*bytes),
                r@ == hex_string(bytes@.take(i as int)),
            decreases SHA256_LEN - i,
        {
            proof {
                assert(bytes@.take(i + 1).drop_last() =~= bytes@.take(i as int));
            }
            let b = bytes[i];
            r.append(hex_digit(b / 16));
            r.append(hex_digit(b % 16));
            i = i + 1;
        }
        proof {
            assert(bytes@.take(32) =~= bytes@);
        }
        r
    }
}

} // verus!
