//! The token record: the one value type the whole subsystem moves around.

use vstd::prelude::*;
use crate::errors::StoreError;
use crate::timestamp::Timestamp;
use crate::timestamp::secs_limit;

verus! {

/// Spec-level image of a `TokenRecord`: token bytes and plain seconds.
pub struct RecordModel {
    pub access_token: Seq<u8>,
    pub refresh_token: Seq<u8>,
    pub expires_at: Option<int>,
    pub created_at: int,
}

/// An OAuth2 access/refresh token pair with its lifetime stamps.
/// `expires_at` is `None` only for a token that never expires.
#[derive(Clone, Debug, PartialEq, Eq)]
pub struct TokenRecord {
    pub access_token: Vec<u8>,
    pub refresh_token: Vec<u8>,
    pub expires_at: Option<Timestamp>,
    pub created_at: Timestamp,
}

/// Holds of token bytes that can stand on one line of the durable text.
pub open spec fn line_free(s: Seq<u8>) -> bool {
    forall|i: int| 0 <= i < s.len() ==> s[i] != 10
}

impl View for TokenRecord {
    type V = RecordModel;

    open spec fn view(&self) -> RecordModel {
        RecordModel {
            access_token: self.access_token@,
            refresh_token: self.refresh_token@,
            expires_at: match self.expires_at {
                Some(t) => Some(t.secs as int),
                None => None,
            },
            created_at: self.created_at.secs as int,
        }
    }
}

impl TokenRecord {
    /// A record that the durable text format can carry: an expiry is present,
    /// both stamps are representable, and no token byte would break a line.
    pub open spec fn serializable(self) -> bool {
        &&& self.expires_at is Some
        &&& self.expires_at->Some_0.wf()
        &&& self.created_at.wf()
        &&& line_free(self.access_token@)
        &&& line_free(self.refresh_token@)
    }

    /// Runtime check for `serializable`, for callers outside verified code.
    pub fn is_serializable(&self) -> (r: bool)
        ensures
            r == self.serializable(),
    {
        let exp_ok: bool = match self.expires_at {
            Some(t) => t.secs < crate::timestamp::secs_limit_x(),
            None => false,
        };
        exp_ok && self.created_at.secs < crate::timestamp::secs_limit_x() && no_newline(
            &self.access_token,
        ) && no_newline(&self.refresh_token)
    }
}

fn no_newline(s: &Vec<u8>) -> (r: bool)
    ensures
        r == line_free(s@),
{
    let mut i: usize = 0;
    while i < s.len()
        invariant
            0 <= i <= s@.len(),
            forall|j: int| 0 <= j < i ==> s@[j] != 10,
        decreases s@.len() - i,
    {
        if s[i] == 10 {
            return false;
        }
        i = i + 1;
    }
    true
}

/// Builds the record that a decoded token-endpoint response stands for:
/// created `now`, expiring `expires_in` seconds later, or never.
/// An expiry past the supported years is refused as undecodable.
pub fn record_from_response(
    access_token: Vec<u8>,
    refresh_token: Vec<u8>,
    expires_in: Option<u64>,
    now: Timestamp,
) -> (r: Result<TokenRecord, StoreError>)
    requires
        now.wf(),
    ensures
        r matches Ok(rec) ==> {
            &&& rec.access_token@ == access_token@
            &&& rec.refresh_token@ == refresh_token@
            &&& rec.created_at == now
            &&& match expires_in {
                Some(d) => rec.expires_at matches Some(t) && t.secs == now.secs + d,
                None => rec.expires_at is None,
            }
        },
        r matches Err(e) ==> e == StoreError::DecodeError && (expires_in matches Some(d)
            && now.secs + d >= secs_limit()),
        r is Ok <==> match expires_in {
            Some(d) => now.secs + d < secs_limit(),
            None => true,
        },
{
    let expires_at: Option<Timestamp> = match expires_in {
        Some(d) => match now.checked_add(d) {
            Some(t) => Some(t),
            None => {
                return Err(StoreError::DecodeError);
            },
        },
        None => None,
    };
    Ok(TokenRecord { access_token, refresh_token, expires_at, created_at: now })
}

} // verus!
