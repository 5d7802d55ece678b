//! Instruments the service recognizes, and the parsing of their aliases.

use vstd::prelude::*;
use vstd::string::StrSliceExecFns;

verus! {

/// The closed set of instruments the service can quote.
#[derive(Clone, Copy, Debug, PartialEq, Eq, Structural)]
pub enum Token {
    Bitcoin,
    Ethereum,
    Solana,
    Snp500,
}

/// ASCII lower-casing of one character; anything outside `'A'..='Z'` is
/// left unchanged.
pub open spec fn spec_lower_char(c: char) -> char {
    if 'A' <= c && c <= 'Z' {
        ((c as u8) + 32) as char
    } else {
        c
    }
}

/// ASCII lower-casing of a whole character sequence.
pub open spec fn spec_lower(s: Seq<char>) -> Seq<char> {
    s.map_values(|c: char| spec_lower_char(c))
}

/// The instrument a name resolves to: alias matching is ASCII
/// case-insensitive, and an unrecognized name resolves to nothing.
pub open spec fn spec_token_of(s: Seq<char>) -> Option<Token> {
    let l = spec_lower(s);
    if l == spec_lower("bitcoin"@) || l == spec_lower("btc"@) {
        Some(Token::Bitcoin)
    } else if l == spec_lower("snp500"@) || l == spec_lower("snp"@) {
        Some(Token::Snp500)
    } else if l == spec_lower("solana"@) || l == spec_lower("sol"@) {
        Some(Token::Solana)
    } else if l == spec_lower("ethereum"@) || l == spec_lower("eth"@) {
        Some(Token::Ethereum)
    } else {
        None
    }
}

/// The symbol under which the remote quote API addresses the instrument.
pub open spec fn spec_id(t: Token) -> Seq<char> {
    match t {
        Token::Ethereum => "ETH-USD"@,
        Token::Bitcoin => "BTC-USD"@,
        Token::Solana => "SOL-USD"@,
        Token::Snp500 => "%5EGSPC"@,
    }
}

/// The canonical display name used in messages about the instrument,
/// distinct from the remote API symbol.
pub open spec fn spec_display_name(t: Token) -> Seq<char> {
    match t {
        Token::Ethereum => "Ethereum"@,
        Token::Bitcoin => "Bitcoin"@,
        Token::Solana => "Solana"@,
        Token::Snp500 => "Snp500"@,
    }
}

fn lower_char(c: char) -> (r: char)
    ensures
        r == spec_lower_char(c),
{
    if 'A' <= c && c <= 'Z' {
        ((c as u8) + 32) as char
    } else {
        c
    }
}

/// Whether two names are equal after ASCII lower-casing.
fn eq_lowered(s: &str, alias: &str) -> (r: bool)
    ensures
        r == (spec_lower(s@) == spec_lower(alias@)),
{
    let n = s.unicode_len();
    if n != alias.unicode_len() {
        proof {
            assert(spec_lower(s@).len() != spec_lower(alias@).len());
        }
        return false;
    }
    let mut i: usize = 0;
    while i < n
        invariant
            n == s@.len(),
            n == alias@.len(),
            i <= n,
            forall|j: int| 0 <= j < i ==> spec_lower(s@)[j] == spec_lower(alias@)[j],
        decreases n - i,
    {
        let cs = lower_char(s.get_char(i));
        let ca = lower_char(alias.get_char(i));
        if cs != ca {
            proof {
                assert(spec_lower(s@)[i as int] != spec_lower(alias@)[i as int]);
            }
            return false;
        }
        i = i + 1;
    }
    proof {
        assert(spec_lower(s@) =~= spec_lower(alias@));
    }
    true
}

impl Token {
    /// The identifier used by the remote quote API for this instrument.
    pub fn id(&self) -> (r: &str)
        ensures
            r@ == spec_id(*self),
    {
        match *self {
            Token::Ethereum => "ETH-USD",
            Token::Bitcoin => "BTC-USD",
            Token::Solana => "SOL-USD",
            Token::Snp500 => "%5EGSPC",
        }
    }

    /// Parses a `Token` from a case-insensitive alias; an unrecognized
    /// alias yields `None`.
    pub fn from_str(token: &str) -> (r: Option<Token>)
        ensures
            r == spec_token_of(token@),
    {
        if eq_lowered(token, "bitcoin") || eq_lowered(token, "btc") {
            Some(Token::Bitcoin)
        } else if eq_lowered(token, "snp500") || eq_lowered(token, "snp") {
            Some(Token::Snp500)
        } else if eq_lowered(token, "solana") || eq_lowered(token, "sol") {
            Some(Token::Solana)
        } else if eq_lowered(token, "ethereum") || eq_lowered(token, "eth") {
            Some(Token::Ethereum)
        } else {
            None
        }
    }

    /// The canonical display name of the instrument.
    pub fn as_string(&self) -> (r: &str)
        ensures
            r@ == spec_display_name(*self),
    {
        match *self {
            Token::Ethereum => "Ethereum",
            Token::Bitcoin => "Bitcoin",
            Token::Solana => "Solana",
            Token::Snp500 => "Snp500",
        }
    }
}

} // verus!
