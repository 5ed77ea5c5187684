use vstd::prelude::*;
use vstd::string::StringExecFns;
use crate::state::{Collection, CollectionRecord, MintRecord, Outbound};

verus! {

/// The decimal digit `d` (below ten) as a character.
pub open spec fn digit_char(d: nat) -> char {
    if d == 0 { '0' }
    else if d == 1 { '1' }
    else if d == 2 { '2' }
    else if d == 3 { '3' }
    else if d == 4 { '4' }
    else if d == 5 { '5' }
    else if d == 6 { '6' }
    else if d == 7 { '7' }
    else if d == 8 { '8' }
    else { '9' }
}

/// The decimal representation of `n`, without leading zeros.
pub open spec fn decimal(n: nat) -> Seq<char>
    decreases n,
{
    if n < 10 {
        seq![digit_char(n)]
    } else {
        decimal(n / 10).push(digit_char(n % 10))
    }
}

/// The decimal digit `d` as a one-character string.
fn digit_str(d: u32) -> (r: &'static str)
    requires
        d < 10,
    ensures
        r@ == seq![digit_char(d as nat)],
{
    proof {
        reveal_strlit("0");
        reveal_strlit("1");
        reveal_strlit("2");
        reveal_strlit("3");
        reveal_strlit("4");
        reveal_strlit("5");
        reveal_strlit("6");
        reveal_strlit("7");
        reveal_strlit("8");
        reveal_strlit("9");
    }
    if d == 0 {
        "0"
    } else if d == 1 {
        "1"
    } else if d == 2 {
        "2"
    } else if d == 3 {
        "3"
    } else if d == 4 {
        "4"
    } else if d == 5 {
        "5"
    } else if d == 6 {
        "6"
    } else if d == 7 {
        "7"
    } else if d == 8 {
        "8"
    } else {
        "9"
    }
}

/// The decimal representation of `n`.
pub fn to_decimal(n: u32) -> (r: String)
    ensures
        r@ == decimal(n as nat),
    decreases n,
{
    if n < 10 {
        String::from_str(digit_str(n))
    } else {
        let head = to_decimal(n / 10);
        let last = digit_str(n % 10);
        let r = head.concat(last);
        assert(r@ =~= decimal(n as nat));
        r
    }
}

/// The URI of token `id`: the template followed by the number when the collection
/// numbers its URIs, the template alone otherwise.
pub open spec fn token_uri_of(c: Collection, id: nat) -> Seq<char> {
    if c.iterated_uri {
        c.token_uri@ + decimal(id)
    } else {
        c.token_uri@
    }
}

/// The URI of token `id` of collection `c`.
pub fn create_token_uri(c: &Collection, id: u32) -> (r: String)
    ensures
        r@ == token_uri_of(*c, id as nat),
{
    if c.iterated_uri {
        let digits = to_decimal(id);
        c.token_uri.clone().concat(digits.as_str())
    } else {
        c.token_uri.clone()
    }
}

/// Whether `m` provisions sequence number `seq` of `rec` to the wallet it was granted to.
pub open spec fn provisions(m: Outbound, rec: CollectionRecord, seq: int) -> bool {
    match m {
        Outbound::MintToken { contract, token_id, owner, token_uri, royalty_wallet, royalty_percent } => {
            &&& contract == rec.address
            &&& token_id == seq
            &&& owner@ == rec.recipient_of(seq)
            &&& token_uri@ == token_uri_of(rec.collection, seq as nat)
            &&& royalty_wallet == rec.collection.royalty_wallet
            &&& royalty_percent == rec.collection.royalty_percent
        },
        _ => false,
    }
}

/// The wallet granted sequence number `token_id` of `rec`, if that number was granted.
pub fn minter_of(rec: &CollectionRecord, token_id: u32) -> (r: Option<String>)
    ensures
        r is Some <==> 1 <= token_id <= rec.mint_log@.len(),
        r matches Some(w) ==> w@ == rec.recipient_of(token_id as int),
{
    if token_id == 0 || token_id as usize > rec.mint_log.len() {
        None
    } else {
        Some(rec.mint_log[(token_id - 1) as usize].recipient.clone())
    }
}

/// How many grants of `log` went to `wallet`, through any group.
pub open spec fn held_count(log: Seq<MintRecord>, wallet: Seq<char>) -> nat
    decreases log.len(),
{
    if log.len() == 0 {
        0
    } else {
        held_count(log.drop_last(), wallet) + if log.last().recipient@ == wallet {
            1nat
        } else {
            0nat
        }
    }
}

/// How many grants of `log` went to `wallet`, through any group.
pub fn balance_of(log: &Vec<MintRecord>, wallet: &String) -> (r: usize)
    ensures
        r == held_count(log@, wallet@),
{
    let mut n: usize = 0;
    let mut i: usize = 0;
    while i < log.len()
        invariant
            i <= log@.len(),
            n <= i,
            n == held_count(log@.take(i as int), wallet@),
        decreases log@.len() - i,
    {
        assert(log@.take(i + 1).drop_last() =~= log@.take(i as int));
        if log[i].recipient == *wallet {
            n = n + 1;
        }
        i = i + 1;
    }
    assert(log@.take(i as int) =~= log@);
    n
}

} // verus!
