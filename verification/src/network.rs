//! The RPC endpoints that a network argument stands for: one of the known
//! networks by name, or a list of URLs separated by commas.

use crate::text::{same_text, split_on, split_text, trim, trimmed};
use vstd::prelude::*;
use vstd::string::*;

verus! {

/// Whether a text is a URL.
pub uninterp spec fn url_parses(text: Seq<char>) -> bool;

/// `Url::parse` of url: whether the text can be read as a URL.
#[verifier::external_body]
fn is_url(text: &str) -> (r: bool)
    ensures
        r == url_parses(text@),
{
    url::Url::parse(text).is_ok()
}

/// The endpoint of a network that is known by name.
pub open spec fn known_network(name: Seq<char>) -> Option<Seq<char>> {
    if name == "local"@ {
        Some("http://localhost:8545"@)
    } else if name == "anvil"@ {
        Some("https://prod-testnet.prod.findora.org:8545"@)
    } else if name == "main"@ {
        Some("https://prod-mainnet.prod.findora.org:8545"@)
    } else if name == "mock"@ {
        Some("https://dev-mainnetmock.dev.findora.org:8545"@)
    } else if name == "test"@ {
        Some("http://34.211.109.216:8545"@)
    } else if name == "qa01"@ {
        Some("https://dev-qa01.dev.findora.org:8545"@)
    } else if name == "qa02"@ {
        Some("https://dev-qa02.dev.findora.org:8545"@)
    } else {
        None
    }
}

/// What a text without white space around it gives as an endpoint, given
/// whether it is a URL: itself, unless it is empty or no URL.
pub open spec fn chosen_endpoint(text: Seq<char>, parses: bool) -> Option<Seq<char>> {
    if text.len() == 0 || !parses {
        None
    } else {
        Some(text)
    }
}

/// The endpoint that one piece of a list stands for, if any: the piece
/// without the white space around it, where that is a URL.
pub open spec fn endpoint_of(piece: Seq<char>) -> Option<Seq<char>> {
    chosen_endpoint(trimmed(piece), url_parses(trimmed(piece)))
}

/// The endpoints that the pieces of a list stand for, in order.
pub open spec fn endpoints_of(pieces: Seq<Seq<char>>) -> Seq<Seq<char>>
    decreases pieces.len(),
{
    if pieces.len() == 0 {
        Seq::empty()
    } else {
        let before = endpoints_of(pieces.drop_last());
        match endpoint_of(pieces.last()) {
            Some(endpoint) => before.push(endpoint),
            None => before,
        }
    }
}

/// The endpoints that a network argument stands for: that of a known
/// network, or those of its pieces between commas.
pub open spec fn endpoints(network: Seq<char>) -> Seq<Seq<char>> {
    match known_network(network) {
        Some(endpoint) => seq![endpoint],
        None => endpoints_of(split_on(network, ',')),
    }
}

/// The endpoint of a network known by name.
pub fn known_endpoint(name: &str) -> (r: Option<String>)
    ensures
        match r {
            Some(endpoint) => known_network(name@) == Some(endpoint@),
            None => known_network(name@) is None,
        },
{
    if same_text(name, "local") {
        Some(String::from_str("http://localhost:8545"))
    } else if same_text(name, "anvil") {
        Some(String::from_str("https://prod-testnet.prod.findora.org:8545"))
    } else if same_text(name, "main") {
        Some(String::from_str("https://prod-mainnet.prod.findora.org:8545"))
    } else if same_text(name, "mock") {
        Some(String::from_str("https://dev-mainnetmock.dev.findora.org:8545"))
    } else if same_text(name, "test") {
        Some(String::from_str("http://34.211.109.216:8545"))
    } else if same_text(name, "qa01") {
        Some(String::from_str("https://dev-qa01.dev.findora.org:8545"))
    } else if same_text(name, "qa02") {
        Some(String::from_str("https://dev-qa02.dev.findora.org:8545"))
    } else {
        None
    }
}

/// The endpoint that a text without white space around it gives, given
/// whether it is a URL.
pub fn choose_endpoint(text: &str, parses: bool) -> (r: Option<String>)
    ensures
        match r {
            Some(endpoint) => chosen_endpoint(text@, parses) == Some(endpoint@),
            None => chosen_endpoint(text@, parses) is None,
        },
{
    if text.is_empty() || !parses {
        None
    } else {
        Some(text.to_owned())
    }
}

/// The endpoints that a network argument stands for. A known name gives
/// its one endpoint. Any other argument is read as a list with commas
/// between its entries; an entry counts without the white space around it,
/// and entries that are empty or no URL are left out.
pub fn real_network(network: &str) -> (r: Vec<Option<String>>)
    ensures
        r@.len() == endpoints(network@).len(),
        forall|i: int|
            0 <= i < r@.len() ==> ((#[trigger] r@[i]) matches Some(endpoint) && endpoint@
                == endpoints(network@)[i]),
{
    match known_endpoint(network) {
        Some(endpoint) => {
            let mut out: Vec<Option<String>> = Vec::new();
            out.push(Some(endpoint));
            out
        },
        None => {
            let pieces = split_text(network, ',');
            let ghost parts = split_on(network@, ',');
            let mut out: Vec<Option<String>> = Vec::new();
            let mut i: usize = 0;
            while i < pieces.len()
                invariant
                    i <= pieces.len(),
                    pieces@.len() == parts.len(),
                    forall|k: int| 0 <= k < pieces@.len() ==> (#[trigger] pieces@[k])@ == parts[k],
                    out@.len() == endpoints_of(parts.take(i as int)).len(),
                    forall|k: int|
                        0 <= k < out@.len() ==> ((#[trigger] out@[k]) matches Some(endpoint)
                            && endpoint@ == endpoints_of(parts.take(i as int))[k]),
                decreases pieces.len() - i,
            {
                let entry = trim(pieces[i].as_str());
                proof {
                    assert(parts.take(i + 1).drop_last() =~= parts.take(i as int));
                    assert(parts.take(i + 1).last() == parts[i as int]);
                }
                let parses = !entry.is_empty() && is_url(entry);
                match choose_endpoint(entry, parses) {
                    Some(endpoint) => {
                        out.push(Some(endpoint));
                    },
                    None => {},
                }
                i = i + 1;
            }
            proof {
                assert(parts.take(i as int) =~= parts);
            }
            out
        },
    }
}

} // verus!
