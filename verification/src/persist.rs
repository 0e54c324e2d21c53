//! The durable text format: four lines, each `KEY=value` with a fixed key in a
//! fixed order, holding the access token, the refresh token, the expiry and
//! the creation time. `spec_parse_record` is the meaning of such a text;
//! serializing produces a text with that meaning, and parsing recovers it.

use vstd::prelude::*;
use crate::errors::StoreError;
use crate::record::RecordModel;
use crate::record::TokenRecord;
use crate::record::line_free;
use crate::timestamp::Timestamp;
use crate::timestamp::format_timestamp;
use crate::timestamp::parse_timestamp;
use crate::timestamp::parse_ts_lenient;

verus! {

/// Bytes of `TWITCH_ACCESS_TOKEN=`.
pub open spec fn access_key() -> Seq<u8> {
    seq![84, 87, 73, 84, 67, 72, 95, 65, 67, 67, 69, 83, 83, 95, 84, 79, 75, 69, 78, 61u8]
}

/// Bytes of `TWITCH_REFRESH_TOKEN=`.
pub open spec fn refresh_key() -> Seq<u8> {
    seq![84, 87, 73, 84, 67, 72, 95, 82, 69, 70, 82, 69, 83, 72, 95, 84, 79, 75, 69, 78, 61u8]
}

/// Bytes of `TWITCH_TOKEN_EXPIRES_AT=`.
pub open spec fn expires_key() -> Seq<u8> {
    seq![84, 87, 73, 84, 67, 72, 95, 84, 79, 75, 69, 78, 95, 69, 88, 80, 73, 82, 69, 83, 95, 65, 84, 61u8]
}

/// Bytes of `TWITCH_TOKEN_CREATED_AT=`.
pub open spec fn created_key() -> Seq<u8> {
    seq![84, 87, 73, 84, 67, 72, 95, 84, 79, 75, 69, 78, 95, 67, 82, 69, 65, 84, 69, 68, 95, 65, 84, 61u8]
}

/// Index of the first line break at or after `i`, or the length where none is.
pub open spec fn find_nl(s: Seq<u8>, i: int) -> int
    decreases s.len() - i,
{
    if i >= s.len() {
        s.len() as int
    } else if s[i] == 10 {
        i
    } else {
        find_nl(s, i + 1)
    }
}

pub proof fn lemma_find_nl_props(s: Seq<u8>, i: int)
    requires
        0 <= i <= s.len(),
    ensures
        i <= find_nl(s, i) <= s.len(),
        find_nl(s, i) < s.len() ==> s[find_nl(s, i)] == 10,
        forall|k: int| i <= k < find_nl(s, i) ==> s[k] != 10,
    decreases s.len() - i,
{
    if i < s.len() && s[i] != 10 {
        lemma_find_nl_props(s, i + 1);
    }
}

pub proof fn lemma_find_nl_at(s: Seq<u8>, i: int, j: int)
    requires
        0 <= i <= j <= s.len(),
        forall|k: int| i <= k < j ==> s[k] != 10,
        j == s.len() || s[j] == 10,
    ensures
        find_nl(s, i) == j,
    decreases j - i,
{
    if i < j {
        lemma_find_nl_at(s, i + 1, j);
    }
}

/// The meaning of a durable text: the record it carries, or `None` where the
/// text does not split into the four well-keyed lines. Timestamp values are
/// read leniently; the line structure and the key names are not.
pub open spec fn spec_parse_record(s: Seq<u8>) -> Option<RecordModel> {
    let e1 = find_nl(s, 0);
    let s2 = e1 + 1;
    let e2 = find_nl(s, s2);
    let s3 = e2 + 1;
    let e3 = find_nl(s, s3);
    let s4 = e3 + 1;
    let e4 = find_nl(s, s4);
    if e1 < s.len() && e2 < s.len() && e3 < s.len() && e4 + 1 == s.len() && e1 >= 20 && s.subrange(
        0,
        20,
    ) == access_key() && e2 - s2 >= 21 && s.subrange(s2, s2 + 21) == refresh_key() && e3 - s3 >= 24
        && s.subrange(s3, s3 + 24) == expires_key() && e4 - s4 >= 24 && s.subrange(s4, s4 + 24)
        == created_key() {
        Some(
            RecordModel {
                access_token: s.subrange(20, e1),
                refresh_token: s.subrange(s2 + 21, e2),
                expires_at: Some(parse_ts_lenient(s.subrange(s3 + 24, e3))),
                created_at: parse_ts_lenient(s.subrange(s4 + 24, e4)),
            },
        )
    } else {
        None
    }
}

fn find_newline(s: &Vec<u8>, from: usize) -> (r: usize)
    requires
        from <= s@.len(),
    ensures
        r as int == find_nl(s@, from as int),
        from <= r <= s@.len(),
{
    let mut i: usize = from;
    while i < s.len()
        invariant
            from <= i <= s@.len(),
            find_nl(s@, from as int) == find_nl(s@, i as int),
        decreases s@.len() - i,
    {
        if s[i] == 10 {
            return i;
        }
        proof {
            assert(find_nl(s@, i as int) == find_nl(s@, i as int + 1));
        }
        i = i + 1;
    }
    i
}

fn match_at(s: &Vec<u8>, start: usize, pat: &Vec<u8>) -> (r: bool)
    requires
        start + pat@.len() <= s@.len(),
    ensures
        r <==> s@.subrange(start as int, start as int + pat@.len()) == pat@,
{
    let n = pat.len();
    let sn = s.len();
    let mut i: usize = 0;
    while i < n
        invariant
            0 <= i <= n,
            n == pat@.len(),
            sn == s@.len(),
            start + pat@.len() <= s@.len(),
            forall|j: int| 0 <= j < i ==> s@[start + j] == pat@[j],
        decreases n - i,
    {
        if s[start + i] != pat[i] {
            proof {
                assert(s@.subrange(start as int, start as int + pat@.len())[i as int] != pat@[
                    i as int
                ]);
            }
            return false;
        }
        i = i + 1;
    }
    proof {
        assert(s@.subrange(start as int, start as int + pat@.len()) =~= pat@);
    }
    true
}

fn copy_range(s: &Vec<u8>, a: usize, b: usize) -> (r: Vec<u8>)
    requires
        a <= b <= s@.len(),
    ensures
        r@ == s@.subrange(a as int, b as int),
{
    let mut out: Vec<u8> = Vec::new();
    proof {
        assert(out@ =~= s@.subrange(a as int, a as int));
    }
    let mut i: usize = a;
    while i < b
        invariant
            a <= i <= b <= s@.len(),
            out@ == s@.subrange(a as int, i as int),
        decreases b - i,
    {
        out.push(s[i]);
        proof {
            assert(out@ =~= s@.subrange(a as int, i as int + 1));
        }
        i = i + 1;
    }
    out
}

fn push_all(out: &mut Vec<u8>, src: &Vec<u8>)
    ensures
        final(out)@ == old(out)@ + src@,
{
    proof {
        assert(out@ =~= old(out)@ + src@.subrange(0, 0));
    }
    let mut i: usize = 0;
    while i < src.len()
        invariant
            0 <= i <= src@.len(),
            out@ == old(out)@ + src@.subrange(0, i as int),
        decreases src@.len() - i,
    {
        out.push(src[i]);
        proof {
            assert(out@ =~= old(out)@ + src@.subrange(0, i as int + 1));
        }
        i = i + 1;
    }
    proof {
        assert(old(out)@ + src@.subrange(0, src@.len() as int) =~= old(out)@ + src@);
    }
}

fn push_access_key(out: &mut Vec<u8>)
    ensures
        final(out)@ == old(out)@ + access_key(),
{
    out.push(84);
    out.push(87);
    out.push(73);
    out.push(84);
    out.push(67);
    out.push(72);
    out.push(95);
    out.push(65);
    out.push(67);
    out.push(67);
    out.push(69);
    out.push(83);
    out.push(83);
    out.push(95);
    out.push(84);
    out.push(79);
    out.push(75);
    out.push(69);
    out.push(78);
    out.push(61);
    proof {
        assert(out@ =~= old(out)@ + access_key());
    }
}

fn push_refresh_key(out: &mut Vec<u8>)
    ensures
        final(out)@ == old(out)@ + refresh_key(),
{
    out.push(84);
    out.push(87);
    out.push(73);
    out.push(84);
    out.push(67);
    out.push(72);
    out.push(95);
    out.push(82);
    out.push(69);
    out.push(70);
    out.push(82);
    out.push(69);
    out.push(83);
    out.push(72);
    out.push(95);
    out.push(84);
    out.push(79);
    out.push(75);
    out.push(69);
    out.push(78);
    out.push(61);
    proof {
        assert(out@ =~= old(out)@ + refresh_key());
    }
}

fn push_expires_key(out: &mut Vec<u8>)
    ensures
        final(out)@ == old(out)@ + expires_key(),
{
    out.push(84);
    out.push(87);
    out.push(73);
    out.push(84);
    out.push(67);
    out.push(72);
    out.push(95);
    out.push(84);
    out.push(79);
    out.push(75);
    out.push(69);
    out.push(78);
    out.push(95);
    out.push(69);
    out.push(88);
    out.push(80);
    out.push(73);
    out.push(82);
    out.push(69);
    out.push(83);
    out.push(95);
    out.push(65);
    out.push(84);
    out.push(61);
    proof {
        assert(out@ =~= old(out)@ + expires_key());
    }
}

fn push_created_key(out: &mut Vec<u8>)
    ensures
        final(out)@ == old(out)@ + created_key(),
{
    out.push(84);
    out.push(87);
    out.push(73);
    out.push(84);
    out.push(67);
    out.push(72);
    out.push(95);
    out.push(84);
    out.push(79);
    out.push(75);
    out.push(69);
    out.push(78);
    out.push(95);
    out.push(67);
    out.push(82);
    out.push(69);
    out.push(65);
    out.push(84);
    out.push(69);
    out.push(68);
    out.push(95);
    out.push(65);
    out.push(84);
    out.push(61);
    proof {
        assert(out@ =~= old(out)@ + created_key());
    }
}

/// Writes `rec` as the four-line durable text. The text means exactly `rec`:
/// reading it back under `spec_parse_record` reproduces every field.
#[verifier::rlimit(50)]
pub fn serialize_record(rec: &TokenRecord) -> (out: Vec<u8>)
    requires
        rec.serializable(),
    ensures
        spec_parse_record(out@) == Some(rec@),
{
    let exp: Timestamp = match rec.expires_at {
        Some(t) => t,
        None => {
            proof {
                assert(false);
            }
            Timestamp { secs: 0 }
        },
    };
    let ts1 = format_timestamp(exp);
    let ts2 = format_timestamp(rec.created_at);
    let mut out: Vec<u8> = Vec::new();
    push_access_key(&mut out);
    push_all(&mut out, &rec.access_token);
    out.push(10);
    push_refresh_key(&mut out);
    push_all(&mut out, &rec.refresh_token);
    out.push(10);
    push_expires_key(&mut out);
    push_all(&mut out, &ts1);
    out.push(10);
    push_created_key(&mut out);
    push_all(&mut out, &ts2);
    out.push(10);
    proof {
        let t = out@;
        let a = rec.access_token@;
        let rf = rec.refresh_token@;
        let t1 = ts1@;
        let t2 = ts2@;
        let e1 = 20 + a.len() as int;
        let s2 = e1 + 1;
        let e2 = s2 + 21 + rf.len() as int;
        let s3 = e2 + 1;
        let e3 = s3 + 24 + 25;
        let s4 = e3 + 1;
        let e4 = s4 + 24 + 25;
        assert(t.len() == e4 + 1);
        assert forall|k: int| 0 <= k < e1 implies t[k] != 10 by {
            if k < 20 {
                assert(t[k] == access_key()[k]);
            } else {
                assert(t[k] == a[k - 20]);
            }
        }
        assert(t[e1] == 10);
        lemma_find_nl_at(t, 0, e1);
        assert forall|k: int| s2 <= k < e2 implies t[k] != 10 by {
            if k < s2 + 21 {
                assert(t[k] == refresh_key()[k - s2]);
            } else {
                assert(t[k] == rf[k - (s2 + 21)]);
            }
        }
        assert(t[e2] == 10);
        lemma_find_nl_at(t, s2, e2);
        assert forall|k: int| s3 <= k < e3 implies t[k] != 10 by {
            if k < s3 + 24 {
                assert(t[k] == expires_key()[k - s3]);
            } else {
                assert(t[k] == t1[k - (s3 + 24)]);
            }
        }
        assert(t[e3] == 10);
        lemma_find_nl_at(t, s3, e3);
        assert forall|k: int| s4 <= k < e4 implies t[k] != 10 by {
            if k < s4 + 24 {
                assert(t[k] == created_key()[k - s4]);
            } else {
                assert(t[k] == t2[k - (s4 + 24)]);
            }
        }
        assert(t[e4] == 10);
        lemma_find_nl_at(t, s4, e4);
        assert(t.subrange(0, 20) =~= access_key());
        assert(t.subrange(s2, s2 + 21) =~= refresh_key());
        assert(t.subrange(s3, s3 + 24) =~= expires_key());
        assert(t.subrange(s4, s4 + 24) =~= created_key());
        assert(t.subrange(20, e1) =~= a);
        assert(t.subrange(s2 + 21, e2) =~= rf);
        assert(t.subrange(s3 + 24, e3) =~= t1);
        assert(t.subrange(s4 + 24, e4) =~= t2);
        assert(spec_parse_record(t) == Some(rec@));
    }
    out
}

/// Reads a durable text back into a record, or refuses it as corrupt where it
/// does not split into the four well-keyed lines.
#[verifier::rlimit(50)]
pub fn parse_record(s: &Vec<u8>) -> (r: Result<TokenRecord, StoreError>)
    ensures
        match spec_parse_record(s@) {
            Some(m) => r matches Ok(rec) && rec@ == m && rec.serializable(),
            None => r matches Err(e) && e == StoreError::CorruptRecordError,
        },
{
    let n = s.len();
    let e1 = find_newline(s, 0);
    if e1 >= n {
        return Err(StoreError::CorruptRecordError);
    }
    let e2 = find_newline(s, e1 + 1);
    if e2 >= n {
        return Err(StoreError::CorruptRecordError);
    }
    let e3 = find_newline(s, e2 + 1);
    if e3 >= n {
        return Err(StoreError::CorruptRecordError);
    }
    let e4 = find_newline(s, e3 + 1);
    if e4 >= n || e4 + 1 != n {
        return Err(StoreError::CorruptRecordError);
    }
    let s2 = e1 + 1;
    let s3 = e2 + 1;
    let s4 = e3 + 1;
    if e1 < 20 {
        return Err(StoreError::CorruptRecordError);
    }
    let mut k1: Vec<u8> = Vec::new();
    push_access_key(&mut k1);
    if !match_at(s, 0, &k1) {
        return Err(StoreError::CorruptRecordError);
    }
    if e2 - s2 < 21 {
        return Err(StoreError::CorruptRecordError);
    }
    let mut k2: Vec<u8> = Vec::new();
    push_refresh_key(&mut k2);
    if !match_at(s, s2, &k2) {
        return Err(StoreError::CorruptRecordError);
    }
    if e3 - s3 < 24 {
        return Err(StoreError::CorruptRecordError);
    }
    let mut k3: Vec<u8> = Vec::new();
    push_expires_key(&mut k3);
    if !match_at(s, s3, &k3) {
        return Err(StoreError::CorruptRecordError);
    }
    if e4 - s4 < 24 {
        return Err(StoreError::CorruptRecordError);
    }
    let mut k4: Vec<u8> = Vec::new();
    push_created_key(&mut k4);
    if !match_at(s, s4, &k4) {
        return Err(StoreError::CorruptRecordError);
    }
    let access_token = copy_range(s, 20, e1);
    let refresh_token = copy_range(s, s2 + 21, e2);
    let exp_bytes = copy_range(s, s3 + 24, e3);
    let cre_bytes = copy_range(s, s4 + 24, e4);
    let exp = parse_timestamp(&exp_bytes);
    let cre = parse_timestamp(&cre_bytes);
    let rec = TokenRecord {
        access_token,
        refresh_token,
        expires_at: Some(exp),
        created_at: cre,
    };
    proof {
        lemma_find_nl_props(s@, 0);
        lemma_find_nl_props(s@, e1 as int + 1);
        lemma_find_nl_props(s@, e2 as int + 1);
        lemma_find_nl_props(s@, e3 as int + 1);
        assert(line_free(rec.access_token@));
        assert(line_free(rec.refresh_token@));
        assert(rec@ == spec_parse_record(s@)->Some_0);
    }
    Ok(rec)
}

} // verus!
