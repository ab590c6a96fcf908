//! A parser for IP addresses of either family.
use vstd::prelude::*;

use crate::utils::{lemma_separator_from, spec_token, token_length};
use crate::{Error, TypeParseResult};

verus! {

/// An IPv4 address by its four octets, or an IPv6 address by its eight groups.
#[derive(Clone, Copy, Debug, PartialEq, Eq)]
pub enum IpAddress {
    V4([u8; 4]),
    V6([u16; 8]),
}

/// Whether `r` is what reading an address from the start of `s` yields, where
/// `address` is what the token at the start of `s` denotes, if anything.
pub open spec fn address_outcome(
    s: Seq<char>,
    address: Option<IpAddress>,
    r: TypeParseResult<IpAddress>,
) -> bool {
    match spec_token(s) {
        None => r matches Err(Error::UnexpectedToken(k)) && k == 0,
        Some(t) => match address {
            Some(a) => r matches Ok((v, n)) && v == a && n == t.len(),
            None => r matches Err(Error::InvalidFormat(msg)) && msg@ == "invalid IP address syntax"@,
        },
    }
}

/// Reads an IP address of either family from the token at the start of the text.
pub struct IpParser;

impl IpParser {
    /// Reads an address from the start of `src`, given what its first token
    /// denotes as an address (`None` where it denotes none).
    ///
    /// The token is the text before the first separator; the length consumed is
    /// its length. Where there is no token, nothing is read at offset zero.
    pub fn parse_resolved(&self, src: &str, address: Option<IpAddress>) -> (r: TypeParseResult<
        IpAddress,
    >)
        ensures
            address_outcome(src@, address, r),
            r is Ok ==> r->Ok_0.1 <= src@.len(),
    {
        proof {
            lemma_separator_from(src@, 0);
        }
        let n = token_length(src);
        if n == 0 {
            return Err(Error::UnexpectedToken(0));
        }
        match address {
            Some(a) => Ok((a, n)),
            None => Err(Error::InvalidFormat("invalid IP address syntax".to_owned())),
        }
    }
}

} // verus!
