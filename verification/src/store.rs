//! The stateful facade: holds the last-known-good record in memory and
//! decides when durable storage must be rewritten. It never touches storage
//! itself; it hands the caller the exact bytes to write, or nothing.

use vstd::prelude::*;
use crate::errors::StoreError;
use crate::persist::parse_record;
use crate::persist::serialize_record;
use crate::persist::spec_parse_record;
use crate::record::TokenRecord;

verus! {

/// The token store: one in-memory record, replaced wholesale on every update.
#[derive(Debug)]
pub struct TokenStore {
    pub cached: TokenRecord,
}

fn bytes_eq(a: &Vec<u8>, b: &Vec<u8>) -> (r: bool)
    ensures
        r <==> a@ == b@,
{
    if a.len() != b.len() {
        return false;
    }
    let n = a.len();
    let mut i: usize = 0;
    while i < n
        invariant
            0 <= i <= n,
            n == a@.len() == b@.len(),
            forall|j: int| 0 <= j < i ==> a@[j] == b@[j],
        decreases n - i,
    {
        if a[i] != b[i] {
            return false;
        }
        i = i + 1;
    }
    proof {
        assert(a@ =~= b@);
    }
    true
}

impl TokenStore {
    /// Caches the record of the first successful exchange and hands back the
    /// durable text that must be written before the store is relied on.
    pub fn init(record: TokenRecord) -> (r: (TokenStore, Vec<u8>))
        requires
            record.serializable(),
        ensures
            r.0.cached@ == record@,
            r.0.cached.serializable(),
            spec_parse_record(r.1@) == Some(record@),
    {
        let bytes = serialize_record(&record);
        (TokenStore { cached: record }, bytes)
    }

    /// Re-reads the record from the durable bytes the caller fetched, so that
    /// out-of-process rewrites of storage are observed. A missing durable
    /// location is reported as such, never as a default record.
    pub fn load(&self, durable: Option<&Vec<u8>>) -> (r: Result<TokenRecord, StoreError>)
        ensures
            match durable {
                None => r matches Err(e) && e == StoreError::FileNotFoundError,
                Some(bytes) => match spec_parse_record(bytes@) {
                    Some(m) => r matches Ok(rec) && rec@ == m && rec.serializable(),
                    None => r matches Err(e) && e == StoreError::CorruptRecordError,
                },
            },
    {
        match durable {
            None => Err(StoreError::FileNotFoundError),
            Some(bytes) => parse_record(bytes),
        }
    }

    /// Replaces the cache with `record`, unconditionally, and decides the
    /// durable write: the full new text when the access token rotated,
    /// nothing when it is unchanged.
    pub fn update(&mut self, record: TokenRecord) -> (w: Option<Vec<u8>>)
        requires
            record.serializable(),
        ensures
            final(self).cached@ == record@,
            final(self).cached.serializable(),
            record@.access_token == old(self).cached@.access_token ==> w is None,
            record@.access_token != old(self).cached@.access_token ==> (w matches Some(bytes)
                && spec_parse_record(bytes@) == Some(record@)),
    {
        let w: Option<Vec<u8>> = if !bytes_eq(&self.cached.access_token, &record.access_token) {
            Some(serialize_record(&record))
        } else {
            None
        };
        self.cached = record;
        w
    }
}

} // verus!
