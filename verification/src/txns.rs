//! The kinds of transactions that a basic test sends, as the command line
//! names them: `eth`, `utxo`, `prism`, or `mixed` with three shares.

use crate::text::{first_separator, lowercased, same_text, to_lowercase, trim, trimmed};
use crate::uint256::{decimal, Uint256};
use vstd::prelude::*;
use vstd::string::*;

verus! {

/// The kind of transactions to send.
#[derive(Clone, Copy, Debug, PartialEq, Eq, Structural)]
pub enum TxnsType {
    Eth,
    Utxo,
    Prism,
    /// All three kinds, in these shares.
    Mixed(u64, u64, u64),
}

/// What a text reads as when taken for a `u64`: the number, or the message
/// that says why it is none.
pub uninterp spec fn u64_of_text(text: Seq<char>) -> Result<u64, Seq<char>>;

/// `str::parse::<u64>`: the number that the text holds in decimal digits, or
/// the message of the error.
#[verifier::external_body]
fn parse_u64(text: &str) -> (r: Result<u64, String>)
    ensures
        match r {
            Ok(n) => u64_of_text(text@) == Ok::<u64, Seq<char>>(n),
            Err(message) => u64_of_text(text@) == Err::<u64, Seq<char>>(message@),
        },
{
    match text.parse::<u64>() {
        Ok(n) => Ok(n),
        Err(e) => Err(e.to_string()),
    }
}

/// A text cut at its first comma: what stands before the comma and what
/// stands after it. `None` where the text holds no comma.
pub open spec fn cut(text: Seq<char>) -> Option<(Seq<char>, Seq<char>)> {
    let at = first_separator(text, ',');
    if at >= text.len() {
        None
    } else {
        Some((text.take(at), text.skip(at + 1)))
    }
}

/// The four fields of a text with at least three commas: what stands
/// before the first, between the first and the second, between the second
/// and the third, and after the third. `None` where the text has fewer
/// commas.
pub open spec fn four_fields(text: Seq<char>) -> Option<
    (Seq<char>, Seq<char>, Seq<char>, Seq<char>),
> {
    match cut(text) {
        Some((a, rest)) => match cut(rest) {
            Some((b, rest)) => match cut(rest) {
                Some((c, d)) => Some((a, b, c, d)),
                None => None,
            },
            None => None,
        },
        None => None,
    }
}

/// The mixed kind that three fields stand for, given what each of them
/// reads as when taken for a number; the message of the first that is no
/// number otherwise.
pub open spec fn mixed_of(
    x: Result<u64, Seq<char>>,
    y: Result<u64, Seq<char>>,
    z: Result<u64, Seq<char>>,
) -> Result<TxnsType, Seq<char>> {
    match x {
        Err(message) => Err(message),
        Ok(x) => match y {
            Err(message) => Err(message),
            Ok(y) => match z {
                Err(message) => Err(message),
                Ok(z) => Ok(TxnsType::Mixed(x, y, z)),
            },
        },
    }
}

/// The kind that a name in lower case stands for. The three plain kinds go
/// by their names. Any other name must have four fields, the first of them
/// `mixed` and the others numbers.
pub open spec fn txns_type_named(name: Seq<char>) -> Result<TxnsType, Seq<char>> {
    if name == "eth"@ {
        Ok(TxnsType::Eth)
    } else if name == "utxo"@ {
        Ok(TxnsType::Utxo)
    } else if name == "prism"@ {
        Ok(TxnsType::Prism)
    } else {
        match four_fields(name) {
            Some((head, x, y, z)) => if head == "mixed"@ {
                mixed_of(u64_of_text(x), u64_of_text(y), u64_of_text(z))
            } else {
                Err("Invalid Type"@)
            },
            None => Err("Invalid Type"@),
        }
    }
}

/// A text cut at its first comma.
fn cut_text(text: &str) -> (r: Option<(String, String)>)
    ensures
        match r {
            Some((before, after)) => cut(text@) == Some((before@, after@)),
            None => cut(text@) is None,
        },
{
    broadcast use vstd::string::group_string_axioms;

    let len = text.unicode_len();
    let mut i: usize = 0;
    for c in it: text.chars()
        invariant
            it.seq() == text@,
            len == text@.len(),
            i == it.index(),
            i <= len,
            forall|j: int| 0 <= j < i ==> text@[j] != ',',
    {
        assert(c == text@[i as int]);
        if c == ',' {
            proof {
                crate::text::lemma_first_separator_is(text@, ',', i as int);
            }
            let before = text.substring_char(0, i);
            let after = text.substring_char(i + 1, len);
            proof {
                assert(before@ =~= text@.take(i as int));
                assert(after@ =~= text@.skip(i + 1));
            }
            return Some((before.to_owned(), after.to_owned()));
        }
        i = i + 1;
    }
    proof {
        crate::text::lemma_first_separator_is(text@, ',', len as int);
    }
    None
}

impl TxnsType {
    /// The name of the kind: what [`TxnsType::from_normalized`] reads back.
    pub open spec fn name(self) -> Seq<char> {
        match self {
            TxnsType::Eth => "eth"@,
            TxnsType::Utxo => "utxo"@,
            TxnsType::Prism => "prism"@,
            TxnsType::Mixed(x, y, z) => "mixed,"@ + decimal(x as int) + ","@ + decimal(y as int)
                + ","@ + decimal(z as int),
        }
    }

    /// The name of the kind.
    pub fn to_text(&self) -> (r: String)
        ensures
            r@ == self.name(),
    {
        match self {
            TxnsType::Eth => String::from_str("eth"),
            TxnsType::Utxo => String::from_str("utxo"),
            TxnsType::Prism => String::from_str("prism"),
            TxnsType::Mixed(x, y, z) => {
                let mut text = String::from_str("mixed,");
                text.append(Uint256::from_u64(*x).to_decimal().as_str());
                text.append(",");
                text.append(Uint256::from_u64(*y).to_decimal().as_str());
                text.append(",");
                text.append(Uint256::from_u64(*z).to_decimal().as_str());
                text
            },
        }
    }

    /// The mixed kind with these shares, given what each field reads as
    /// when taken for a number; the message of the first that is no number
    /// otherwise.
    pub fn mixed(x: Result<u64, String>, y: Result<u64, String>, z: Result<u64, String>) -> (r:
        Result<TxnsType, String>)
        ensures
            match r {
                Ok(kind) => x is Ok && y is Ok && z is Ok && kind == TxnsType::Mixed(
                    x->Ok_0,
                    y->Ok_0,
                    z->Ok_0,
                ),
                Err(message) => if x is Err {
                    message@ == x->Err_0@
                } else if y is Err {
                    message@ == y->Err_0@
                } else {
                    z is Err && message@ == z->Err_0@
                },
            },
    {
        match x {
            Err(message) => Err(message),
            Ok(x) => match y {
                Err(message) => Err(message),
                Ok(y) => match z {
                    Err(message) => Err(message),
                    Ok(z) => Ok(TxnsType::Mixed(x, y, z)),
                },
            },
        }
    }

    /// The kind with exactly this name; for any other text the error
    /// `Invalid Type`, or the message of the first share that is no number.
    pub fn from_normalized(name: &str) -> (r: Result<TxnsType, String>)
        ensures
            match r {
                Ok(kind) => txns_type_named(name@) == Ok::<TxnsType, Seq<char>>(kind),
                Err(message) => txns_type_named(name@) == Err::<TxnsType, Seq<char>>(message@),
            },
    {
        if same_text(name, "eth") {
            return Ok(TxnsType::Eth);
        }
        if same_text(name, "utxo") {
            return Ok(TxnsType::Utxo);
        }
        if same_text(name, "prism") {
            return Ok(TxnsType::Prism);
        }
        let fields = match cut_text(name) {
            Some((head, rest)) => match cut_text(rest.as_str()) {
                Some((x, rest)) => match cut_text(rest.as_str()) {
                    Some((y, z)) => Some((head, x, y, z)),
                    None => None,
                },
                None => None,
            },
            None => None,
        };
        match fields {
            Some((head, x, y, z)) => {
                if !same_text(head.as_str(), "mixed") {
                    return Err(String::from_str("Invalid Type"));
                }
                TxnsType::mixed(
                    parse_u64(x.as_str()),
                    parse_u64(y.as_str()),
                    parse_u64(z.as_str()),
                )
            },
            None => Err(String::from_str("Invalid Type")),
        }
    }

    /// The kind that a text names: the text is put in lower case and the
    /// white space around it is dropped before it is looked up.
    pub fn parse(text: &str) -> (r: Result<TxnsType, String>)
        ensures
            match r {
                Ok(kind) => txns_type_named(trimmed(lowercased(text@))) == Ok::<
                    TxnsType,
                    Seq<char>,
                >(kind),
                Err(message) => txns_type_named(trimmed(lowercased(text@))) == Err::<
                    TxnsType,
                    Seq<char>,
                >(message@),
            },
    {
        let lower = to_lowercase(text);
        TxnsType::from_normalized(trim(lower.as_str()))
    }
}

impl std::str::FromStr for TxnsType {
    type Err = String;

    /// The kind that a text names, as [`TxnsType::parse`] reads it.
    fn from_str(s: &str) -> (r: Result<Self, Self::Err>)
        ensures
            match r {
                Ok(kind) => txns_type_named(trimmed(lowercased(s@))) == Ok::<TxnsType, Seq<char>>(
                    kind,
                ),
                Err(message) => txns_type_named(trimmed(lowercased(s@))) == Err::<
                    TxnsType,
                    Seq<char>,
                >(message@),
            },
    {
        TxnsType::parse(s)
    }
}

} // verus!
