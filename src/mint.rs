use vstd::prelude::*;
use crate::error::ContractError;
use crate::merkle::{address_leaf, hash_address, merkle_fold, proof_view, slices_equal, validate_merkle_proof};
use crate::state::{Coin, Collection, CollectionRecord, Config, MintGroup, MintRecord, Outbound};

verus! {

/// Whether `i` is the first position of `gs` holding a group called `name`.
pub open spec fn is_first_group(gs: Seq<MintGroup>, name: Seq<char>, i: int) -> bool {
    &&& 0 <= i < gs.len()
    &&& gs[i].name@ == name
    &&& forall|j: int| 0 <= j < i ==> (#[trigger] gs[j]).name@ != name
}

/// Whether some group of `gs` is called `name`.
pub open spec fn has_group(gs: Seq<MintGroup>, name: Seq<char>) -> bool {
    exists|i: int| 0 <= i < gs.len() && (#[trigger] gs[i]).name@ == name
}

/// The first group of `gs` called `name`.
pub open spec fn group_named(gs: Seq<MintGroup>, name: Seq<char>) -> MintGroup {
    gs[choose|i: int| is_first_group(gs, name, i)]
}

/// Whether the group's window holds the time `now` (milliseconds).
pub open spec fn is_open(g: MintGroup, now: u64) -> bool {
    &&& g.start_time <= now
    &&& g.end_time == 0 || now < g.end_time
}

/// The siblings of an optional proof as byte strings.
pub open spec fn opt_proof(p: Option<Vec<Vec<u8>>>) -> Option<Seq<Seq<u8>>> {
    match p {
        Some(v) => Some(proof_view(v@)),
        None => None,
    }
}

/// An optional byte vector as a byte string.
pub open spec fn opt_bytes(b: Option<Vec<u8>>) -> Option<Seq<u8>> {
    match b {
        Some(v) => Some(v@),
        None => None,
    }
}

/// What the allowlist of `g` says of `recipient` with this proof and leaf: `None` lets it in.
pub open spec fn allowlist_error(
    g: MintGroup,
    recipient: Seq<char>,
    proof: Option<Seq<Seq<u8>>>,
    leaf: Option<Seq<u8>>,
) -> Option<ContractError> {
    match g.merkle_root {
        None => None,
        Some(root) => {
            if proof is None || leaf is None {
                Some(ContractError::InvalidMerkleProof)
            } else if address_leaf(recipient) != leaf.unwrap() {
                Some(ContractError::InvalidSender)
            } else if merkle_fold(leaf.unwrap(), proof.unwrap()) != root@ {
                Some(ContractError::InvalidMerkleProof)
            } else {
                None
            }
        },
    }
}

/// How many grants of `log` went to `wallet` through the group called `group`.
pub open spec fn grant_count(log: Seq<MintRecord>, wallet: Seq<char>, group: Seq<char>) -> nat
    decreases log.len(),
{
    if log.len() == 0 {
        0
    } else {
        grant_count(log.drop_last(), wallet, group) + if log.last().recipient@ == wallet
            && log.last().group@ == group {
            1nat
        } else {
            0nat
        }
    }
}

/// Whether `funds` is exactly one payment of `price + fee` in `denom`.
pub open spec fn funds_ok(funds: Seq<Coin>, denom: Seq<char>, price: u128, fee: u128) -> bool {
    &&& funds.len() == 1
    &&& funds[0].denom@ == denom
    &&& funds[0].amount == price + fee
}

/// The first rule that a mint request breaks, checked in order; `None` when it breaks none.
pub open spec fn mint_error(
    cfg: Config,
    c: Collection,
    log: Seq<MintRecord>,
    group: Seq<char>,
    recipient: Seq<char>,
    proof: Option<Seq<Seq<u8>>>,
    leaf: Option<Seq<u8>>,
    funds: Seq<Coin>,
    now: u64,
) -> Option<ContractError> {
    if c.next_token_id > c.supply {
        Some(ContractError::SoldOut)
    } else if !has_group(c.mint_groups@, group) {
        Some(ContractError::InvalidMintGroup)
    } else {
        let g = group_named(c.mint_groups@, group);
        if !is_open(g, now) {
            Some(ContractError::GroupNotOpenToMint)
        } else if allowlist_error(g, recipient, proof, leaf) is Some {
            allowlist_error(g, recipient, proof, leaf)
        } else if g.max_tokens != 0 && grant_count(log, recipient, g.name@) >= g.max_tokens {
            Some(ContractError::MaxTokensMinted)
        } else if !funds_ok(funds, cfg.denom@, g.unit_price, cfg.fee) {
            Some(ContractError::InvalidFunds)
        } else {
            None
        }
    }
}

/// The transfers of a grant: the price to the creator when there is one, then the fee to the admin.
pub open spec fn mint_payments(cfg: Config, c: Collection, g: MintGroup) -> Seq<Outbound> {
    let fee = Outbound::Transfer { to: cfg.admin, amount: cfg.fee, denom: cfg.denom };
    if g.unit_price > 0 {
        seq![Outbound::Transfer { to: c.creator_wallet, amount: g.unit_price, denom: cfg.denom }, fee]
    } else {
        seq![fee]
    }
}

/// `new` is `old` after granting its next sequence number to `recipient` through `group`.
pub open spec fn granted(
    old: CollectionRecord,
    new: CollectionRecord,
    recipient: Seq<char>,
    group: Seq<char>,
) -> bool {
    &&& new.address == old.address
    &&& new.collection == (Collection { next_token_id: (old.collection.next_token_id + 1) as u64, ..old.collection })
    &&& new.mint_log@.len() == old.mint_log@.len() + 1
    &&& new.mint_log@.take(old.mint_log@.len() as int) == old.mint_log@
    &&& new.mint_log@.last().recipient@ == recipient
    &&& new.mint_log@.last().group@ == group
}

/// The wallet that receives a grant: the named one, else the sender.
pub open spec fn recipient_or(sender: Seq<char>, recipient: Option<String>) -> Seq<char> {
    match recipient {
        Some(r) => r@,
        None => sender,
    }
}

/// What a successful mint reports.
#[derive(Clone, Debug)]
pub struct MintReceipt {
    pub token_id: u32,
    pub collection: String,
    pub group: String,
    pub recipient: String,
    pub price: u128,
    /// The transfers to carry out.
    pub messages: Vec<Outbound>,
}

/// The position of the first group of `gs` called `name`.
pub fn find_group(gs: &Vec<MintGroup>, name: &String) -> (r: Option<usize>)
    ensures
        r is None <==> !has_group(gs@, name@),
        r matches Some(i) ==> is_first_group(gs@, name@, i as int)
            && group_named(gs@, name@) == gs@[i as int],
{
    let mut i: usize = 0;
    while i < gs.len()
        invariant
            i <= gs@.len(),
            forall|k: int| 0 <= k < i ==> (#[trigger] gs@[k]).name@ != name@,
        decreases gs@.len() - i,
    {
        if gs[i].name == *name {
            assert(is_first_group(gs@, name@, i as int));
            let ghost j = choose|j: int| is_first_group(gs@, name@, j);
            assert(j == i) by {
                if j < i {
                    assert(gs@[j].name@ != name@);
                } else if j > i {
                    assert(gs@[i as int].name@ != name@);
                }
            }
            return Some(i);
        }
        i = i + 1;
    }
    None
}

/// How many grants of `log` went to `wallet` through the group called `group`.
pub fn count_grants(log: &Vec<MintRecord>, wallet: &String, group: &String) -> (r: usize)
    ensures
        r == grant_count(log@, wallet@, group@),
{
    let mut n: usize = 0;
    let mut i: usize = 0;
    while i < log.len()
        invariant
            i <= log@.len(),
            n <= i,
            n == grant_count(log@.take(i as int), wallet@, group@),
        decreases log@.len() - i,
    {
        assert(log@.take(i + 1).drop_last() =~= log@.take(i as int));
        if log[i].recipient == *wallet && log[i].group == *group {
            n = n + 1;
        }
        i = i + 1;
    }
    assert(log@.take(i as int) =~= log@);
    n
}

/// The allowlist check of a group with root `root`.
pub fn check_allowlist(
    root: &Vec<u8>,
    recipient: &String,
    merkle_proof: &Option<Vec<Vec<u8>>>,
    hashed_address: &Option<Vec<u8>>,
) -> (r: Option<ContractError>)
    ensures
        r == (if opt_proof(*merkle_proof) is None || opt_bytes(*hashed_address) is None {
            Some(ContractError::InvalidMerkleProof)
        } else if address_leaf(recipient@) != opt_bytes(*hashed_address).unwrap() {
            Some(ContractError::InvalidSender)
        } else if merkle_fold(opt_bytes(*hashed_address).unwrap(), opt_proof(*merkle_proof).unwrap()) != root@ {
            Some(ContractError::InvalidMerkleProof)
        } else {
            None
        }),
{
    match (merkle_proof, hashed_address) {
        (Some(proof), Some(leaf)) => {
            let own = hash_address(recipient.as_str());
            if !slices_equal(own.as_slice(), leaf.as_slice()) {
                Some(ContractError::InvalidSender)
            } else if !validate_merkle_proof(proof, root, leaf) {
                Some(ContractError::InvalidMerkleProof)
            } else {
                None
            }
        },
        _ => Some(ContractError::InvalidMerkleProof),
    }
}

/// Whether `funds` is exactly one payment of `price + fee` in `denom`.
pub fn check_funds(funds: &Vec<Coin>, denom: &String, price: u128, fee: u128) -> (r: bool)
    ensures
        r == funds_ok(funds@, denom@, price, fee),
{
    funds.len() == 1 && funds[0].denom == *denom && funds[0].amount >= fee && funds[0].amount
        - fee == price
}

} // verus!
