use vstd::prelude::*;
use crate::error::ContractError;
use crate::merkle::{address_leaf, merkle_fold};
use crate::mint::{
    allowlist_error, funds_ok, grant_count, granted, group_named, has_group, is_open, mint_error,
};
use crate::state::{Coin, Collection, CollectionRecord, Config, MintGroup, MintRecord, Registry};

verus! {

/// A group with an allowlist admits a request exactly when the leaf is the recipient's own
/// and the proof folds it into the group's root; any other leaf is refused as `InvalidSender`,
/// and any other proof as `InvalidMerkleProof`.
pub proof fn lemma_allowlist_admits(
    g: MintGroup,
    recipient: Seq<char>,
    proof: Seq<Seq<u8>>,
    leaf: Seq<u8>,
)
    requires
        g.merkle_root is Some,
    ensures
        allowlist_error(g, recipient, Some(proof), Some(leaf)) is None <==> (leaf == address_leaf(
            recipient,
        ) && merkle_fold(leaf, proof) == g.merkle_root.unwrap()@),
        leaf != address_leaf(recipient) ==> allowlist_error(g, recipient, Some(proof), Some(leaf))
            == Some(ContractError::InvalidSender),
        leaf == address_leaf(recipient) && merkle_fold(leaf, proof) != g.merkle_root.unwrap()@
            ==> allowlist_error(g, recipient, Some(proof), Some(leaf)) == Some(
            ContractError::InvalidMerkleProof,
        ),
{
}

/// Once every sequence number is granted, every further mint is refused as `SoldOut`.
pub proof fn lemma_sold_out_is_final(
    cfg: Config,
    c: Collection,
    log: Seq<MintRecord>,
    group: Seq<char>,
    recipient: Seq<char>,
    proof: Option<Seq<Seq<u8>>>,
    leaf: Option<Seq<u8>>,
    funds: Seq<Coin>,
    now: u64,
)
    requires
        c.next_token_id > c.supply,
    ensures
        mint_error(cfg, c, log, group, recipient, proof, leaf, funds, now) == Some(
            ContractError::SoldOut,
        ),
{
}

/// A grant moves the next sequence number up by one, and never past `supply + 1`.
pub proof fn lemma_grant_advances_sequence(
    old: CollectionRecord,
    new: CollectionRecord,
    recipient: Seq<char>,
    group: Seq<char>,
)
    requires
        old.wf(),
        old.collection.next_token_id <= old.collection.supply,
        granted(old, new, recipient, group),
    ensures
        new.collection.next_token_id == old.collection.next_token_id + 1,
        new.collection.next_token_id <= new.collection.supply + 1,
        new.wf(),
{
    assert(new.collection.next_token_id == (old.collection.next_token_id + 1) as u64);
    assert(new.collection.supply == old.collection.supply);
    assert(new.collection.claimed == old.collection.claimed);
    assert(new.collection.cw721_address == old.collection.cw721_address);
}

/// A grant records exactly one more grant for its wallet and group, and none for any other.
pub proof fn lemma_grant_counted_once(
    old: CollectionRecord,
    new: CollectionRecord,
    recipient: Seq<char>,
    group: Seq<char>,
    wallet: Seq<char>,
    other: Seq<char>,
)
    requires
        granted(old, new, recipient, group),
    ensures
        grant_count(new.mint_log@, recipient, group) == grant_count(old.mint_log@, recipient, group)
            + 1,
        !(wallet == recipient && other == group) ==> grant_count(new.mint_log@, wallet, other)
            == grant_count(old.mint_log@, wallet, other),
{
    assert(new.mint_log@.drop_last() =~= new.mint_log@.take(old.mint_log@.len() as int));
}

/// When a wallet already holds `max_tokens` grants of a capped group, a request that passes
/// the earlier checks is refused as `MaxTokensMinted`.
pub proof fn lemma_wallet_cap(
    cfg: Config,
    c: Collection,
    log: Seq<MintRecord>,
    group: Seq<char>,
    recipient: Seq<char>,
    proof: Option<Seq<Seq<u8>>>,
    leaf: Option<Seq<u8>>,
    funds: Seq<Coin>,
    now: u64,
)
    requires
        c.next_token_id <= c.supply,
        has_group(c.mint_groups@, group),
        is_open(group_named(c.mint_groups@, group), now),
        allowlist_error(group_named(c.mint_groups@, group), recipient, proof, leaf) is None,
        group_named(c.mint_groups@, group).max_tokens != 0,
        grant_count(log, recipient, group_named(c.mint_groups@, group).name@) >= group_named(
            c.mint_groups@,
            group,
        ).max_tokens,
    ensures
        mint_error(cfg, c, log, group, recipient, proof, leaf, funds, now) == Some(
            ContractError::MaxTokensMinted,
        ),
{
}

/// A request that passes every other check is refused as `InvalidFunds` unless it pays
/// exactly the price plus the fee, in one payment of the configured currency.
pub proof fn lemma_exact_payment(
    cfg: Config,
    c: Collection,
    log: Seq<MintRecord>,
    group: Seq<char>,
    recipient: Seq<char>,
    proof: Option<Seq<Seq<u8>>>,
    leaf: Option<Seq<u8>>,
    funds: Seq<Coin>,
    now: u64,
)
    requires
        c.next_token_id <= c.supply,
        has_group(c.mint_groups@, group),
        is_open(group_named(c.mint_groups@, group), now),
        allowlist_error(group_named(c.mint_groups@, group), recipient, proof, leaf) is None,
        !(group_named(c.mint_groups@, group).max_tokens != 0 && grant_count(
            log,
            recipient,
            group_named(c.mint_groups@, group).name@,
        ) >= group_named(c.mint_groups@, group).max_tokens),
    ensures
        mint_error(cfg, c, log, group, recipient, proof, leaf, funds, now) is None <==> (funds.len()
            == 1 && funds[0].denom@ == cfg.denom@ && funds[0].amount == group_named(
            c.mint_groups@,
            group,
        ).unit_price + cfg.fee),
        !funds_ok(funds, cfg.denom@, group_named(c.mint_groups@, group).unit_price, cfg.fee)
            ==> mint_error(cfg, c, log, group, recipient, proof, leaf, funds, now) == Some(
            ContractError::InvalidFunds,
        ),
{
}

/// A registration's ticket is waiting right after it, at the end of the pending table.
pub proof fn lemma_registered_ticket_waits(before: Registry, after: Registry)
    requires
        before.wf(),
        after.pending@.drop_last() == before.pending@,
        after.pending@.len() == before.pending@.len() + 1,
        after.pending@.last().ticket == before.config.next_reply_id,
    ensures
        after.has_pending(before.config.next_reply_id),
        after.pending_index(before.config.next_reply_id) == before.pending@.len(),
{
    let t = before.config.next_reply_id;
    let n = before.pending@.len() as int;
    assert(after.pending@[n].ticket == t);
    let j = after.pending_index(t);
    if j < n {
        assert(after.pending@[j] == before.pending@[j]);
    }
}

/// Taking a confirmed ticket out of the pending table leaves no entry under it, so a
/// second acknowledgement of the same ticket finds nothing.
pub proof fn lemma_ticket_used_once(s: Registry, ticket: u64)
    requires
        s.wf(),
        s.has_pending(ticket),
    ensures
        forall|k: int|
            0 <= k < s.pending@.remove(s.pending_index(ticket)).len() ==> (#[trigger] s.pending@.remove(
                s.pending_index(ticket),
            )[k]).ticket != ticket,
{
    let p = s.pending_index(ticket);
    let rest = s.pending@.remove(p);
    assert forall|k: int| 0 <= k < rest.len() implies (#[trigger] rest[k]).ticket != ticket by {
        if k < p {
            assert(rest[k] == s.pending@[k]);
        } else {
            assert(rest[k] == s.pending@[k + 1]);
        }
    }
}

/// At most one confirmed collection carries any given address.
pub proof fn lemma_one_collection_per_address(s: Registry, addr: Seq<char>)
    requires
        s.wf(),
        s.has_collection(addr),
    ensures
        forall|k: int|
            0 <= k < s.collections@.len() && (#[trigger] s.collections@[k]).address@ == addr ==> k
                == s.collection_index(addr),
{
    let i = s.collection_index(addr);
    assert(s.collections@[i].address@ == addr);
}

} // verus!
