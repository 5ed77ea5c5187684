use vstd::prelude::*;

verus! {

/// An amount of one currency.
#[derive(Clone, Debug)]
pub struct Coin {
    pub denom: String,
    pub amount: u128,
}

/// The value of an extension that carries no data.
#[derive(Clone, Copy, Debug, PartialEq, Eq, Structural)]
pub struct Empty {}

/// The extension kept with the settings and with each collection.
pub type Extension = Option<Empty>;

/// The global settings, created once when the registry is set up.
#[derive(Clone, Debug)]
pub struct Config {
    pub admin: String,
    pub fee: u128,
    pub registeration_open: bool,
    pub denom: String,
    /// The ticket that the next registration is given.
    pub next_reply_id: u64,
    pub extension: Extension,
}

/// A named eligibility policy of a collection.
#[derive(Clone, Debug)]
pub struct MintGroup {
    pub name: String,
    /// Root of the allowlist tree; `None` lets every wallet in.
    pub merkle_root: Option<Vec<u8>>,
    /// Grants allowed per wallet; `0` means no limit.
    pub max_tokens: u32,
    pub unit_price: u128,
    /// Opening time in milliseconds.
    pub start_time: u64,
    /// Closing time in milliseconds; `0` means never.
    pub end_time: u64,
}

/// A collection of sequentially numbered tokens.
#[derive(Clone, Debug)]
pub struct Collection {
    pub admin: String,
    /// The address of the token contract, known once its creation is confirmed.
    pub cw721_address: Option<String>,
    pub name: String,
    pub symbol: String,
    pub supply: u32,
    pub token_uri: String,
    pub royalty_percent: u64,
    pub royalty_wallet: String,
    pub creator_wallet: String,
    /// The sequence number that the next grant receives. It is wider than the supply so
    /// that it can step past the last number of a supply of `u32::MAX`.
    pub next_token_id: u64,
    pub mint_groups: Vec<MintGroup>,
    pub extension: Extension,
    /// Whether each token's URI carries its sequence number.
    pub iterated_uri: bool,
    /// How many sequence numbers have been provisioned.
    pub claimed: u32,
}

/// One grant: the wallet that received a sequence number, and the group it came through.
#[derive(Clone, Debug)]
pub struct MintRecord {
    pub recipient: String,
    pub group: String,
}

/// A confirmed collection with its grants. `mint_log[k]` is the grant of sequence number `k + 1`.
#[derive(Clone, Debug)]
pub struct CollectionRecord {
    pub address: String,
    pub collection: Collection,
    pub mint_log: Vec<MintRecord>,
}

/// A registration waiting for the acknowledgement of its ticket.
#[derive(Clone, Debug)]
pub struct PendingRegistration {
    pub ticket: u64,
    pub collection: Collection,
}

/// The whole state: settings, pending registrations and confirmed collections.
#[derive(Clone, Debug)]
pub struct Registry {
    pub config: Config,
    pub pending: Vec<PendingRegistration>,
    pub collections: Vec<CollectionRecord>,
}

/// An instruction for the host to carry out once the operation commits.
#[derive(Clone, Debug)]
pub enum Outbound {
    /// Send `amount` of `denom` to `to`.
    Transfer { to: String, amount: u128, denom: String },
    /// Create the token contract of a registration; its success is reported with `ticket`.
    InstantiateCollection { ticket: u64, code_id: u64, name: String, symbol: String },
    /// Create token `token_id` for `owner` in the token contract `contract`.
    MintToken {
        contract: String,
        token_id: u32,
        owner: String,
        token_uri: String,
        royalty_wallet: String,
        royalty_percent: u64,
    },
}

impl Collection {
    /// A draft as registered: not yet confirmed, nothing granted or provisioned.
    pub open spec fn is_draft(&self) -> bool {
        &&& self.cw721_address is None
        &&& self.next_token_id == 1
        &&& self.claimed == 0
    }

    /// The counters' bounds.
    pub open spec fn counters_ok(&self) -> bool {
        &&& 1 <= self.next_token_id <= self.supply + 1
        &&& self.claimed <= self.next_token_id - 1
    }
}

impl CollectionRecord {
    pub open spec fn wf(&self) -> bool {
        &&& self.collection.counters_ok()
        &&& self.collection.cw721_address == Some(self.address)
        &&& self.mint_log@.len() == self.collection.next_token_id - 1
    }

    /// The wallet granted sequence number `seq`.
    pub open spec fn recipient_of(&self, seq: int) -> Seq<char> {
        self.mint_log@[seq - 1].recipient@
    }
}

/// Whether the confirmed collections have pairwise distinct addresses.
pub open spec fn addresses_distinct(cs: Seq<CollectionRecord>) -> bool {
    forall|i: int, j: int|
        0 <= i < cs.len() && 0 <= j < cs.len() && i != j ==> (#[trigger] cs[i]).address@ != (#[trigger] cs[j]).address@
}

/// Whether the pending tickets are pairwise distinct and all below `next`.
pub open spec fn tickets_ok(ps: Seq<PendingRegistration>, next: u64) -> bool {
    &&& forall|i: int| 0 <= i < ps.len() ==> ps[i].ticket < next
    &&& forall|i: int, j: int|
        0 <= i < ps.len() && 0 <= j < ps.len() && i != j ==> (#[trigger] ps[i]).ticket != (#[trigger] ps[j]).ticket
}

impl Registry {
    pub open spec fn wf(&self) -> bool {
        &&& forall|i: int| 0 <= i < self.collections@.len() ==> (#[trigger] self.collections@[i]).wf()
        &&& addresses_distinct(self.collections@)
        &&& tickets_ok(self.pending@, self.config.next_reply_id)
        &&& forall|i: int| 0 <= i < self.pending@.len() ==> (#[trigger] self.pending@[i]).collection.is_draft()
    }

    /// Whether a collection is confirmed under `addr`.
    pub open spec fn has_collection(&self, addr: Seq<char>) -> bool {
        exists|i: int| 0 <= i < self.collections@.len() && (#[trigger] self.collections@[i]).address@ == addr
    }

    /// The position of the collection confirmed under `addr`.
    pub open spec fn collection_index(&self, addr: Seq<char>) -> int {
        choose|i: int| 0 <= i < self.collections@.len() && (#[trigger] self.collections@[i]).address@ == addr
    }

    /// Whether a registration waits under `ticket`.
    pub open spec fn has_pending(&self, ticket: u64) -> bool {
        exists|i: int| 0 <= i < self.pending@.len() && (#[trigger] self.pending@[i]).ticket == ticket
    }

    /// The position of the registration waiting under `ticket`.
    pub open spec fn pending_index(&self, ticket: u64) -> int {
        choose|i: int| 0 <= i < self.pending@.len() && (#[trigger] self.pending@[i]).ticket == ticket
    }

    /// Finds the collection confirmed under `addr`.
    pub fn find_collection(&self, addr: &String) -> (r: Option<usize>)
        requires
            addresses_distinct(self.collections@),
        ensures
            r is None <==> !self.has_collection(addr@),
            r matches Some(i) ==> i == self.collection_index(addr@) && i < self.collections@.len(),
    {
        let mut i: usize = 0;
        while i < self.collections.len()
            invariant
                addresses_distinct(self.collections@),
                i <= self.collections@.len(),
                forall|k: int| 0 <= k < i ==> (#[trigger] self.collections@[k]).address@ != addr@,
            decreases self.collections@.len() - i,
        {
            if self.collections[i].address == *addr {
                assert(self.has_collection(addr@));
                let ghost j = self.collection_index(addr@);
                assert(self.collections@[j].address@ == addr@);
                assert(self.collections@[i as int].address@ == addr@);
                assert(j == i);
                return Some(i);
            }
            i = i + 1;
        }
        None
    }

    /// Finds the registration waiting under `ticket`.
    pub fn find_pending(&self, ticket: u64) -> (r: Option<usize>)
        requires
            tickets_ok(self.pending@, self.config.next_reply_id),
        ensures
            r is None <==> !self.has_pending(ticket),
            r matches Some(i) ==> i == self.pending_index(ticket) && i < self.pending@.len(),
    {
        let mut i: usize = 0;
        while i < self.pending.len()
            invariant
                tickets_ok(self.pending@, self.config.next_reply_id),
                i <= self.pending@.len(),
                forall|k: int| 0 <= k < i ==> (#[trigger] self.pending@[k]).ticket != ticket,
            decreases self.pending@.len() - i,
        {
            if self.pending[i].ticket == ticket {
                assert(self.has_pending(ticket));
                let ghost j = self.pending_index(ticket);
                assert(self.pending@[j].ticket == ticket);
                assert(self.pending@[i as int].ticket == ticket);
                assert(j == i);
                return Some(i);
            }
            i = i + 1;
        }
        None
    }
}

} // verus!
