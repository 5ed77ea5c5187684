use vstd::prelude::*;
use crate::claim::{create_token_uri, provisions};
use crate::error::ContractError;
use crate::msg::InstantiateMsg;
use crate::mint::{
    check_allowlist, check_funds, count_grants, find_group, granted, group_named, mint_error,
    mint_payments, opt_bytes, opt_proof, recipient_or, MintReceipt,
};
use crate::state::{
    Coin, Collection, CollectionRecord, Config, MintGroup, MintRecord, Outbound,
    Extension, PendingRegistration, Registry,
};

verus! {

/// The supplied value of a partial update, or the current one when none was supplied.
pub open spec fn or_keep<T>(patch: Option<T>, current: T) -> T {
    match patch {
        Some(v) => v,
        None => current,
    }
}

/// Sets the registry up: `sender` becomes the admin, and no collection exists yet.
pub fn instantiate(sender: &String, msg: InstantiateMsg) -> (r: Registry)
    ensures
        r.wf(),
        r.config.admin == *sender,
        r.config.fee == msg.fee,
        r.config.registeration_open == msg.registeration_open,
        r.config.denom == msg.denom,
        r.config.next_reply_id == 0,
        r.config.extension == msg.extension,
        r.pending@.len() == 0,
        r.collections@.len() == 0,
{
    Registry {
        config: Config {
            admin: sender.clone(),
            fee: msg.fee,
            registeration_open: msg.registeration_open,
            denom: msg.denom,
            next_reply_id: 0,
            extension: msg.extension,
        },
        pending: Vec::new(),
        collections: Vec::new(),
    }
}

/// Applies the supplied fields of a settings update; only the admin may make one.
pub fn update_config(
    state: &mut Registry,
    sender: &String,
    extension: Option<Extension>,
    fee: Option<u128>,
    registeration_open: Option<bool>,
) -> (r: Result<(), ContractError>)
    requires
        old(state).wf(),
    ensures
        final(state).wf(),
        r is Err <==> sender@ != old(state).config.admin@,
        r is Err ==> r == Err::<(), ContractError>(ContractError::Unauthorized) && *final(state)
            == *old(state),
        r is Ok ==> *final(state) == (Registry {
            config: Config {
                extension: or_keep(extension, old(state).config.extension),
                fee: or_keep(fee, old(state).config.fee),
                registeration_open: or_keep(registeration_open, old(state).config.registeration_open),
                ..old(state).config
            },
            ..*old(state)
        }),
{
    if state.config.admin != *sender {
        return Err(ContractError::Unauthorized);
    }
    match extension {
        Some(e) => {
            state.config.extension = e;
        },
        None => {},
    }
    match fee {
        Some(f) => {
            state.config.fee = f;
        },
        None => {},
    }
    match registeration_open {
        Some(o) => {
            state.config.registeration_open = o;
        },
        None => {},
    }
    Ok(())
}

/// The draft that a registration stores until its ticket is acknowledged.
pub open spec fn draft_of(
    admin: String,
    name: String,
    symbol: String,
    supply: u32,
    token_uri: String,
    royalty_percent: u64,
    royalty_wallet: String,
    creator_wallet: String,
    mint_groups: Vec<MintGroup>,
    iterated_uri: bool,
    extension: Extension,
) -> Collection {
    Collection {
        admin,
        cw721_address: None,
        name,
        symbol,
        supply,
        token_uri,
        royalty_percent,
        royalty_wallet,
        creator_wallet,
        next_token_id: 1,
        mint_groups,
        extension,
        iterated_uri,
        claimed: 0,
    }
}

/// Stores a draft collection under a fresh ticket and asks for its token contract to be
/// created; the collection becomes usable once that ticket is acknowledged.
pub fn register_collection(
    state: &mut Registry,
    sender: &String,
    cw721_code: u64,
    name: String,
    symbol: String,
    supply: u32,
    token_uri: String,
    royalty_percent: u64,
    royalty_wallet: String,
    creator_wallet: String,
    mint_groups: Vec<MintGroup>,
    iterated_uri: bool,
    extension: Extension,
) -> (r: Result<Outbound, ContractError>)
    requires
        old(state).wf(),
        old(state).config.next_reply_id < u64::MAX,
    ensures
        final(state).wf(),
        r is Err <==> !old(state).config.registeration_open,
        r is Err ==> r == Err::<Outbound, ContractError>(ContractError::RegistrationClosed)
            && *final(state) == *old(state),
        r matches Ok(out) ==> {
            let ticket = old(state).config.next_reply_id;
            &&& out == (Outbound::InstantiateCollection { ticket, code_id: cw721_code, name, symbol })
            &&& final(state).config == (Config { next_reply_id: (ticket + 1) as u64, ..old(state).config })
            &&& final(state).collections == old(state).collections
            &&& final(state).pending@ == old(state).pending@.push(
                PendingRegistration {
                    ticket,
                    collection: draft_of(
                        *sender,
                        name,
                        symbol,
                        supply,
                        token_uri,
                        royalty_percent,
                        royalty_wallet,
                        creator_wallet,
                        mint_groups,
                        iterated_uri,
                        extension,
                    ),
                },
            )
        },
{
    if !state.config.registeration_open {
        return Err(ContractError::RegistrationClosed);
    }
    let ticket = state.config.next_reply_id;
    let out = Outbound::InstantiateCollection {
        ticket,
        code_id: cw721_code,
        name: name.clone(),
        symbol: symbol.clone(),
    };
    let collection = Collection {
        admin: sender.clone(),
        cw721_address: None,
        name,
        symbol,
        supply,
        token_uri,
        royalty_percent,
        royalty_wallet,
        creator_wallet,
        next_token_id: 1,
        mint_groups,
        extension,
        iterated_uri,
        claimed: 0,
    };
    state.pending.push(PendingRegistration { ticket, collection });
    state.config.next_reply_id = ticket + 1;
    Ok(out)
}

/// `new` is the draft `draft` confirmed under `address`, with nothing granted yet.
pub open spec fn confirmed(draft: Collection, address: String, new: CollectionRecord) -> bool {
    &&& new.address == address
    &&& new.collection == (Collection { cw721_address: Some(address), ..draft })
    &&& new.mint_log@.len() == 0
}

/// Acknowledges the creation of the token contract of registration `ticket` at `address`:
/// the draft becomes a collection keyed by that address, and the ticket is used up.
pub fn confirm_registration(state: &mut Registry, ticket: u64, address: String) -> (r: Result<
    (),
    ContractError,
>)
    requires
        old(state).wf(),
    ensures
        final(state).wf(),
        !old(state).has_pending(ticket) ==> r == Err::<(), ContractError>(
            ContractError::UnknownTicket,
        ),
        old(state).has_pending(ticket) && old(state).has_collection(address@) ==> r == Err::<
            (),
            ContractError,
        >(ContractError::CollectionExists),
        r is Ok <==> old(state).has_pending(ticket) && !old(state).has_collection(address@),
        r is Err ==> *final(state) == *old(state),
        r is Ok ==> {
            let p = old(state).pending_index(ticket);
            &&& old(state).has_pending(ticket)
            &&& !old(state).has_collection(address@)
            &&& final(state).config == old(state).config
            &&& final(state).pending@ == old(state).pending@.remove(p)
            &&& final(state).collections@.len() == old(state).collections@.len() + 1
            &&& final(state).collections@.drop_last() == old(state).collections@
            &&& confirmed(old(state).pending@[p].collection, address, final(state).collections@.last())
        },
{
    let p = match state.find_pending(ticket) {
        Some(p) => p,
        None => {
            return Err(ContractError::UnknownTicket);
        },
    };
    match state.find_collection(&address) {
        Some(_) => {
            return Err(ContractError::CollectionExists);
        },
        None => {},
    }
    let ghost old_state = *state;
    let entry = state.pending.remove(p);
    let mut collection = entry.collection;
    collection.cw721_address = Some(address.clone());
    let record = CollectionRecord { address, collection, mint_log: Vec::new() };
    state.collections.push(record);
    proof {
        assert(state.collections@.drop_last() =~= old_state.collections@);
        let n = old_state.collections@.len() as int;
        assert forall|a: int, b: int|
            0 <= a < state.collections@.len() && 0 <= b < state.collections@.len() && a != b
        implies (#[trigger] state.collections@[a]).address@ != (#[trigger] state.collections@[b]).address@ by {
            if a < n && b < n {
                assert(old_state.collections@[a].address@ != old_state.collections@[b].address@);
            } else if a == n {
                assert(state.collections@[b] == old_state.collections@[b]);
            } else {
                assert(state.collections@[a] == old_state.collections@[a]);
            }
        }
        assert forall|j: int| 0 <= j < state.collections@.len() implies (#[trigger] state.collections@[j]).wf() by {
            if j < n {
                assert(state.collections@[j] == old_state.collections@[j]);
            }
        }
        assert forall|a: int| 0 <= a < state.pending@.len() implies (#[trigger] state.pending@[a]).collection.is_draft()
            && state.pending@[a].ticket < state.config.next_reply_id by {
            if a < p {
                assert(state.pending@[a] == old_state.pending@[a]);
            } else {
                assert(state.pending@[a] == old_state.pending@[a + 1]);
            }
        }
        assert forall|a: int, b: int|
            0 <= a < state.pending@.len() && 0 <= b < state.pending@.len() && a != b
        implies (#[trigger] state.pending@[a]).ticket != (#[trigger] state.pending@[b]).ticket by {
            let oa = if a < p { a } else { a + 1 };
            let ob = if b < p { b } else { b + 1 };
            assert(state.pending@[a] == old_state.pending@[oa]);
            assert(state.pending@[b] == old_state.pending@[ob]);
        }
    }
    Ok(())
}

/// Whether a supplied supply is below the number of grants already made.
pub open spec fn supply_below_minted(supply: Option<u32>, c: Collection) -> bool {
    match supply {
        Some(s) => s < c.next_token_id - 1,
        None => false,
    }
}

/// `c` with each supplied field replaced.
fn patch_collection(
    c: Collection,
    name: Option<String>,
    symbol: Option<String>,
    supply: Option<u32>,
    token_uri: Option<String>,
    royalty_percent: Option<u64>,
    royalty_wallet: Option<String>,
    creator_wallet: Option<String>,
    mint_groups: Option<Vec<MintGroup>>,
    iterated_uri: Option<bool>,
) -> (r: Collection)
    ensures
        r == (Collection {
            name: or_keep(name, c.name),
            symbol: or_keep(symbol, c.symbol),
            supply: or_keep(supply, c.supply),
            token_uri: or_keep(token_uri, c.token_uri),
            royalty_percent: or_keep(royalty_percent, c.royalty_percent),
            royalty_wallet: or_keep(royalty_wallet, c.royalty_wallet),
            creator_wallet: or_keep(creator_wallet, c.creator_wallet),
            mint_groups: or_keep(mint_groups, c.mint_groups),
            iterated_uri: or_keep(iterated_uri, c.iterated_uri),
            ..c
        }),
{
    let mut c = c;
    if let Some(v) = name {
        c.name = v;
    }
    if let Some(v) = symbol {
        c.symbol = v;
    }
    if let Some(v) = supply {
        c.supply = v;
    }
    if let Some(v) = token_uri {
        c.token_uri = v;
    }
    if let Some(v) = royalty_percent {
        c.royalty_percent = v;
    }
    if let Some(v) = royalty_wallet {
        c.royalty_wallet = v;
    }
    if let Some(v) = creator_wallet {
        c.creator_wallet = v;
    }
    if let Some(v) = mint_groups {
        c.mint_groups = v;
    }
    if let Some(v) = iterated_uri {
        c.iterated_uri = v;
    }
    c
}

/// Applies the supplied fields of a collection update; only the collection's admin may
/// make one, and the supply may not drop below the number of grants made.
pub fn update_collection(
    state: &mut Registry,
    sender: &String,
    collection_addr: &String,
    name: Option<String>,
    symbol: Option<String>,
    supply: Option<u32>,
    token_uri: Option<String>,
    royalty_percent: Option<u64>,
    royalty_wallet: Option<String>,
    creator_wallet: Option<String>,
    mint_groups: Option<Vec<MintGroup>>,
    iterated_uri: Option<bool>,
) -> (r: Result<(), ContractError>)
    requires
        old(state).wf(),
    ensures
        final(state).wf(),
        r is Err ==> *final(state) == *old(state),
        !old(state).has_collection(collection_addr@) ==> r == Err::<(), ContractError>(
            ContractError::CollectionNotFound,
        ),
        old(state).has_collection(collection_addr@) ==> {
            let i = old(state).collection_index(collection_addr@);
            let c = old(state).collections@[i].collection;
            &&& c.admin@ != sender@ ==> r == Err::<(), ContractError>(ContractError::Unauthorized)
            &&& c.admin@ == sender@ && supply_below_minted(supply, c) ==> r == Err::<
                (),
                ContractError,
            >(ContractError::SupplyLowerThanMinted)
            &&& c.admin@ == sender@ && !supply_below_minted(supply, c) ==> {
                &&& r is Ok
                &&& final(state).config == old(state).config
                &&& final(state).pending == old(state).pending
                &&& final(state).collections@ == old(state).collections@.update(
                        i,
                        CollectionRecord {
                            collection: Collection {
                                name: or_keep(name, c.name),
                                symbol: or_keep(symbol, c.symbol),
                                supply: or_keep(supply, c.supply),
                                token_uri: or_keep(token_uri, c.token_uri),
                                royalty_percent: or_keep(royalty_percent, c.royalty_percent),
                                royalty_wallet: or_keep(royalty_wallet, c.royalty_wallet),
                                creator_wallet: or_keep(creator_wallet, c.creator_wallet),
                                mint_groups: or_keep(mint_groups, c.mint_groups),
                                iterated_uri: or_keep(iterated_uri, c.iterated_uri),
                                ..c
                            },
                            ..old(state).collections@[i]
                        },
                    )
            }
        },
{
    let idx = match state.find_collection(collection_addr) {
        Some(i) => i,
        None => {
            return Err(ContractError::CollectionNotFound);
        },
    };
    if state.collections[idx].collection.admin != *sender {
        return Err(ContractError::Unauthorized);
    }
    match supply {
        Some(s) => {
            if (s as u64) < state.collections[idx].collection.next_token_id - 1 {
                return Err(ContractError::SupplyLowerThanMinted);
            }
        },
        None => {},
    }
    let ghost old_state = *state;
    let CollectionRecord { address, collection, mint_log } = state.collections.remove(idx);
    let collection = patch_collection(
        collection,
        name,
        symbol,
        supply,
        token_uri,
        royalty_percent,
        royalty_wallet,
        creator_wallet,
        mint_groups,
        iterated_uri,
    );
    let record = CollectionRecord { address, collection, mint_log };
    state.collections.insert(idx, record);
    proof {
        assert(state.collections@ =~= old_state.collections@.update(idx as int, record));
        assert forall|j: int| 0 <= j < state.collections@.len() implies (#[trigger] state.collections@[j]).wf() by {
            if j != idx {
                assert(state.collections@[j] == old_state.collections@[j]);
            }
        }
        assert forall|a: int, b: int|
            0 <= a < state.collections@.len() && 0 <= b < state.collections@.len() && a != b
        implies (#[trigger] state.collections@[a]).address@ != (#[trigger] state.collections@[b]).address@ by {
            assert(old_state.collections@[a].address@ != old_state.collections@[b].address@);
        }
    }
    Ok(())
}

/// Authorizes one mint of collection `collection_addr` through group `group`, for
/// `recipient_addr` or else the sender, paid with `funds`, at time `now_ms`.
/// On success it grants the collection's next sequence number and returns the transfers.
pub fn mint_native(
    state: &mut Registry,
    sender: &String,
    now_ms: u64,
    funds: &Vec<Coin>,
    collection_addr: &String,
    group: &String,
    recipient_addr: Option<String>,
    merkle_proof: Option<Vec<Vec<u8>>>,
    hashed_address: Option<Vec<u8>>,
) -> (r: Result<MintReceipt, ContractError>)
    requires
        old(state).wf(),
    ensures
        final(state).wf(),
        !old(state).has_collection(collection_addr@) ==> r == Err::<MintReceipt, ContractError>(
            ContractError::CollectionNotFound,
        ) && *final(state) == *old(state),
        old(state).has_collection(collection_addr@) ==> {
            let i = old(state).collection_index(collection_addr@);
            let rec = old(state).collections@[i];
            let recipient = recipient_or(sender@, recipient_addr);
            let err = mint_error(
                old(state).config,
                rec.collection,
                rec.mint_log@,
                group@,
                recipient,
                opt_proof(merkle_proof),
                opt_bytes(hashed_address),
                funds@,
                now_ms,
            );
            let g = group_named(rec.collection.mint_groups@, group@);
            &&& (r is Ok <==> err is None)
            &&& r matches Err(e) ==> err == Some(e) && *final(state) == *old(state)
            &&& r matches Ok(m) ==> {
                &&& final(state).config == old(state).config
                &&& final(state).pending == old(state).pending
                &&& final(state).collections@.len() == old(state).collections@.len()
                &&& forall|j: int|
                    0 <= j < old(state).collections@.len() && j != i ==> final(state).collections@[j]
                        == old(state).collections@[j]
                &&& granted(rec, final(state).collections@[i], recipient, g.name@)
                &&& m.token_id == rec.collection.next_token_id
                &&& m.collection@ == collection_addr@
                &&& m.group@ == g.name@
                &&& m.recipient@ == recipient
                &&& m.price == g.unit_price
                &&& m.messages@ == mint_payments(old(state).config, rec.collection, g)
            }
        },
{
    let idx = match state.find_collection(collection_addr) {
        Some(i) => i,
        None => {
            return Err(ContractError::CollectionNotFound);
        },
    };
    let ghost old_state = *state;
    let recipient: String = match recipient_addr {
        Some(a) => a,
        None => sender.clone(),
    };
    let rec = &state.collections[idx];
    if rec.collection.next_token_id > rec.collection.supply as u64 {
        return Err(ContractError::SoldOut);
    }
    let gi = match find_group(&rec.collection.mint_groups, group) {
        Some(gi) => gi,
        None => {
            return Err(ContractError::InvalidMintGroup);
        },
    };
    let g = &rec.collection.mint_groups[gi];
    if g.start_time > now_ms || (g.end_time != 0 && now_ms >= g.end_time) {
        return Err(ContractError::GroupNotOpenToMint);
    }
    match &g.merkle_root {
        Some(root) => {
            match check_allowlist(root, &recipient, &merkle_proof, &hashed_address) {
                Some(e) => {
                    return Err(e);
                },
                None => {},
            }
        },
        None => {},
    }
    let minted = count_grants(&rec.mint_log, &recipient, &g.name);
    if g.max_tokens != 0 && minted as u64 >= g.max_tokens as u64 {
        return Err(ContractError::MaxTokensMinted);
    }
    if !check_funds(funds, &state.config.denom, g.unit_price, state.config.fee) {
        return Err(ContractError::InvalidFunds);
    }
    let price = g.unit_price;
    let group_name = g.name.clone();
    let token_id = rec.collection.next_token_id;
    let mut messages: Vec<Outbound> = Vec::new();
    if price > 0 {
        messages.push(
            Outbound::Transfer {
                to: rec.collection.creator_wallet.clone(),
                amount: price,
                denom: state.config.denom.clone(),
            },
        );
    }
    messages.push(
        Outbound::Transfer {
            to: state.config.admin.clone(),
            amount: state.config.fee,
            denom: state.config.denom.clone(),
        },
    );
    assert(messages@ =~= mint_payments(old_state.config, old_state.collections@[idx as int].collection, *g));
    let mut updated: CollectionRecord = state.collections.remove(idx);
    updated.collection.next_token_id = token_id + 1;
    updated.mint_log.push(MintRecord { recipient: recipient.clone(), group: group_name.clone() });
    state.collections.insert(idx, updated);
    proof {
        assert(state.collections@ =~= old_state.collections@.update(idx as int, updated));
        assert(updated.mint_log@.take(old_state.collections@[idx as int].mint_log@.len() as int)
            =~= old_state.collections@[idx as int].mint_log@);
        assert(state.collections@[idx as int].wf());
        assert forall|j: int| 0 <= j < state.collections@.len() implies (#[trigger] state.collections@[j]).wf() by {
            if j != idx {
                assert(state.collections@[j] == old_state.collections@[j]);
            }
        }
        assert forall|a: int, b: int|
            0 <= a < state.collections@.len() && 0 <= b < state.collections@.len() && a != b
        implies (#[trigger] state.collections@[a]).address@ != (#[trigger] state.collections@[b]).address@ by {
            assert(old_state.collections@[a].address@ != old_state.collections@[b].address@);
        }
    }
    Ok(MintReceipt {
        token_id: token_id as u32,
        collection: collection_addr.clone(),
        group: group_name,
        recipient,
        price,
        messages,
    })
}

/// Provisions the next `quantity` granted sequence numbers of collection `collection_addr`,
/// in increasing order, and advances its claimed watermark past them. A batch that
/// reaches a sequence number not yet granted is refused whole.
pub fn claim_tokens(state: &mut Registry, collection_addr: &String, quantity: u64) -> (r: Result<
    Vec<Outbound>,
    ContractError,
>)
    requires
        old(state).wf(),
    ensures
        final(state).wf(),
        r is Err ==> *final(state) == *old(state),
        !old(state).has_collection(collection_addr@) ==> r == Err::<Vec<Outbound>, ContractError>(
            ContractError::CollectionNotFound,
        ),
        old(state).has_collection(collection_addr@) ==> {
            let i = old(state).collection_index(collection_addr@);
            let rec = old(state).collections@[i];
            let start = rec.collection.claimed as int;
            &&& (r is Err <==> start + quantity > rec.collection.next_token_id - 1)
            &&& r is Err ==> r == Err::<Vec<Outbound>, ContractError>(ContractError::MintRecordNotFound)
            &&& r matches Ok(msgs) ==> {
                &&& msgs@.len() == quantity
                &&& forall|k: int| 0 <= k < quantity ==> provisions(#[trigger] msgs@[k], rec, start + 1 + k)
                &&& final(state).config == old(state).config
                &&& final(state).pending == old(state).pending
                &&& final(state).collections@ == old(state).collections@.update(
                    i,
                    CollectionRecord {
                        collection: Collection { claimed: (start + quantity) as u32, ..rec.collection },
                        ..rec
                    },
                )
            }
        },
{
    let idx = match state.find_collection(collection_addr) {
        Some(i) => i,
        None => {
            return Err(ContractError::CollectionNotFound);
        },
    };
    let rec = &state.collections[idx];
    let claimed = rec.collection.claimed;
    let granted: u64 = rec.collection.next_token_id - 1;
    if quantity > granted - claimed as u64 {
        return Err(ContractError::MintRecordNotFound);
    }
    let end: u32 = claimed + quantity as u32;
    let mut msgs: Vec<Outbound> = Vec::new();
    let mut seq: u32 = claimed;
    while seq < end
        invariant
            rec.wf(),
            claimed <= seq <= end,
            end <= rec.collection.next_token_id - 1,
            msgs@.len() == seq - claimed,
            forall|k: int| 0 <= k < msgs@.len() ==> provisions(#[trigger] msgs@[k], *rec, claimed + 1 + k),
        decreases end - seq,
    {
        let id = seq + 1;
        let m = Outbound::MintToken {
            contract: rec.address.clone(),
            token_id: id,
            owner: rec.mint_log[seq as usize].recipient.clone(),
            token_uri: create_token_uri(&rec.collection, id),
            royalty_wallet: rec.collection.royalty_wallet.clone(),
            royalty_percent: rec.collection.royalty_percent,
        };
        msgs.push(m);
        seq = id;
    }
    let ghost old_state = *state;
    let mut record = state.collections.remove(idx);
    record.collection.claimed = end;
    state.collections.insert(idx, record);
    proof {
        assert(state.collections@ =~= old_state.collections@.update(idx as int, record));
        assert forall|j: int| 0 <= j < state.collections@.len() implies (#[trigger] state.collections@[j]).wf() by {
            if j != idx {
                assert(state.collections@[j] == old_state.collections@[j]);
            }
        }
        assert forall|a: int, b: int|
            0 <= a < state.collections@.len() && 0 <= b < state.collections@.len() && a != b
        implies (#[trigger] state.collections@[a]).address@ != (#[trigger] state.collections@[b]).address@ by {
            assert(old_state.collections@[a].address@ != old_state.collections@[b].address@);
        }
    }
    Ok(msgs)
}

} // verus!
