//! What the host hands to an entry point (block time, sender, funds) and
//! what an entry point hands back (NFT transfers to dispatch, attributes).
use vstd::prelude::*;
use vstd::string::*;

verus! {

/// The block the message executes in.
#[derive(Debug, Clone, Copy, PartialEq)]
pub struct Env {
    /// Block time in seconds
    pub block_time: u64,
}

/// Native tokens attached to a message.
#[derive(Debug, Clone, PartialEq)]
pub struct Coin {
    pub denom: String,
    pub amount: u128,
}

/// The sender of a message and the funds it carries.
#[derive(Debug, Clone, PartialEq)]
pub struct MessageInfo {
    pub sender: String,
    pub funds: Vec<Coin>,
}

/// A key-value pair emitted with a response.
#[derive(Debug, Clone, PartialEq)]
pub struct Attribute {
    pub key: String,
    pub value: String,
}

/// A CW721 `TransferNft` message to dispatch to collection `contract_addr`.
#[derive(Debug, Clone, PartialEq)]
pub struct NftTransfer {
    pub contract_addr: String,
    pub recipient: String,
    pub token_id: String,
}

/// The outcome of a successful message: transfers to dispatch and attributes.
#[derive(Debug, Clone, PartialEq)]
pub struct Response {
    pub messages: Vec<NftTransfer>,
    pub attributes: Vec<Attribute>,
}

/// The contract name and version recorded under the `cw2` convention.
#[derive(Debug, Clone, PartialEq)]
pub struct ContractVersion {
    pub contract: String,
    pub version: String,
}

/// Decimal digits of `n`, most significant first, as `u64`'s `Display` writes them.
pub open spec fn decimal(n: nat) -> Seq<char>
    decreases n,
{
    if n < 10 {
        seq![digit_char(n)]
    } else {
        decimal(n / 10) + seq![digit_char(n % 10)]
    }
}

pub open spec fn digit_char(d: nat) -> char {
    (('0' as u32) + d) as char
}

/// The one-character string of digit `d`.
fn digit_str(d: u64) -> (r: &'static str)
    requires
        d < 10,
    ensures
        r@ == seq![digit_char(d as nat)],
{
    if d == 0 {
        proof {
            reveal_strlit("0");
        }
        "0"
    } else if d == 1 {
        proof {
            reveal_strlit("1");
        }
        "1"
    } else if d == 2 {
        proof {
            reveal_strlit("2");
        }
        "2"
    } else if d == 3 {
        proof {
            reveal_strlit("3");
        }
        "3"
    } else if d == 4 {
        proof {
            reveal_strlit("4");
        }
        "4"
    } else if d == 5 {
        proof {
            reveal_strlit("5");
        }
        "5"
    } else if d == 6 {
        proof {
            reveal_strlit("6");
        }
        "6"
    } else if d == 7 {
        proof {
            reveal_strlit("7");
        }
        "7"
    } else if d == 8 {
        proof {
            reveal_strlit("8");
        }
        "8"
    } else {
        proof {
            reveal_strlit("9");
        }
        "9"
    }
}

/// The decimal representation of `n`, as `u64`'s `to_string` gives it.
pub(crate) fn u64_to_string(n: u64) -> (s: String)
    ensures
        s@ == decimal(n as nat),
    decreases n,
{
    if n < 10 {
        String::from_str(digit_str(n))
    } else {
        let mut s = u64_to_string(n / 10);
        s.append(digit_str(n % 10));
        s
    }
}

/// An attribute as a pair of character sequences.
pub open spec fn attr_view(a: Attribute) -> (Seq<char>, Seq<char>) {
    (a.key@, a.value@)
}

/// A transfer as (collection, recipient, token).
pub open spec fn transfer_view(m: NftTransfer) -> (Seq<char>, Seq<char>, Seq<char>) {
    (m.contract_addr@, m.recipient@, m.token_id@)
}

impl Response {
    pub open spec fn attrs(&self) -> Seq<(Seq<char>, Seq<char>)> {
        self.attributes@.map_values(|a: Attribute| attr_view(a))
    }

    pub open spec fn transfers(&self) -> Seq<(Seq<char>, Seq<char>, Seq<char>)> {
        self.messages@.map_values(|m: NftTransfer| transfer_view(m))
    }
}

/// Builds the attribute `key = value`.
pub fn attr(key: &str, value: String) -> (a: Attribute)
    ensures
        attr_view(a) == (key@, value@),
{
    Attribute { key: String::from_str(key), value }
}

/// Builds the attribute `key = value` from two literals.
pub fn attr_str(key: &str, value: &str) -> (a: Attribute)
    ensures
        attr_view(a) == (key@, value@),
{
    Attribute { key: String::from_str(key), value: String::from_str(value) }
}

/// Builds a transfer of `token_id` in `collection` to `recipient`.
pub fn transfer(collection: &String, recipient: &String, token_id: &String) -> (m: NftTransfer)
    ensures
        transfer_view(m) == (collection@, recipient@, token_id@),
{
    NftTransfer {
        contract_addr: collection.clone(),
        recipient: recipient.clone(),
        token_id: token_id.clone(),
    }
}

} // verus!
