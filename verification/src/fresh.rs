use vstd::prelude::*;

use crate::text::{decimal, decimal_text, owned};

verus! {

/// Calls `uuid::Uuid::new_v4` and returns its hyphenated text
/// (`Display`), which the crate writes as 36 characters. The value is
/// random; nothing more is claimed of it.
#[verifier::external_body]
fn random_uuid_text() -> (r: String)
    ensures
        r@.len() == 36,
{
    uuid::Uuid::new_v4().to_string()
}

/// Calls `uuid::Uuid::new_v4` and returns its simple form
/// (`Uuid::simple`), which the crate writes as 32 hexadecimal digits.
/// The value is random; nothing more is claimed of it.
#[verifier::external_body]
fn random_uuid_simple() -> (r: String)
    ensures
        r@.len() == 32,
{
    uuid::Uuid::new_v4().simple().to_string()
}

/// Calls `uuid::Uuid::new_v4` and returns its 16 bytes (`Uuid::as_bytes`).
/// The bytes are random; only their number is claimed.
#[verifier::external_body]
fn random_uuid_bytes() -> (r: Vec<u8>)
    ensures
        r@.len() == 16,
{
    uuid::Uuid::new_v4().as_bytes().to_vec()
}

/// Calls `chrono::Utc::now` once and formats that instant with
/// `DateTime::to_rfc2822` and with `DateTime::to_rfc3339`. The value
/// depends on the clock; nothing is claimed of it.
#[verifier::external_body]
fn clock_texts() -> (r: (String, String)) {
    let now = chrono::Utc::now();
    (now.to_rfc2822(), now.to_rfc3339())
}

/// Calls `chrono::Utc::now` and returns its date and time formatted with
/// `%Y-%m-%dT%H:%M:%S`, together with `DateTime::timestamp_subsec_nanos`
/// of the same instant. The values depend on the clock; nothing is claimed of them.
#[verifier::external_body]
fn clock_seconds_and_nanos() -> (r: (String, u32)) {
    let now = chrono::Utc::now();
    (now.format("%Y-%m-%dT%H:%M:%S").to_string(), now.timestamp_subsec_nanos())
}

/// Server-generated values for one operation: timestamps and random
/// identifiers. Operations of the store take them as arguments, so that
/// what they do is fixed by their inputs.
pub struct Fresh {
    /// Current time, RFC 2822.
    pub rfc2822: String,
    /// Current time, RFC 3339.
    pub rfc3339: String,
    /// 32 hexadecimal digits used inside entity tags.
    pub etag_hex: String,
    /// A hyphenated identifier.
    pub uuid: String,
    /// 16 random bytes.
    pub bytes: Vec<u8>,
}

impl Fresh {
    /// Well-formed generated values.
    pub open spec fn wf(&self) -> bool {
        self.bytes@.len() == 16
    }

    /// Draws new values from the clock and the random source; both
    /// timestamps are of one instant.
    pub fn generate() -> (f: Fresh)
        ensures
            f.wf(),
            f.etag_hex@.len() == 32,
            f.uuid@.len() == 36,
    {
        let (rfc2822, rfc3339) = clock_texts();
        Fresh {
            rfc2822,
            rfc3339,
            etag_hex: random_uuid_simple(),
            uuid: random_uuid_text(),
            bytes: random_uuid_bytes(),
        }
    }
}

/// `n` in decimal, left-padded with zeros to at least seven digits.
pub open spec fn pad7(n: nat) -> Seq<char> {
    if decimal(n).len() >= 7 {
        decimal(n)
    } else {
        Seq::new((7 - decimal(n).len()) as nat, |i: int| '0') + decimal(n)
    }
}

/// Text of `n` zero-padded to at least seven digits.
pub fn pad7_text(n: u64) -> (r: String)
    ensures
        r@ == pad7(n as nat),
{
    let d = decimal_text(n);
    let len = d.unicode_len();
    if len >= 7 {
        return d;
    }
    let mut r = String::new();
    let mut i: usize = len;
    while i < 7
        invariant
            len == d@.len(),
            len <= i <= 7,
            r@ == Seq::new((i - len) as nat, |j: int| '0'),
        decreases 7 - i,
    {
        r.append("0");
        proof {
            reveal_strlit("0");
            assert(r@ =~= Seq::new((i + 1 - len) as nat, |j: int| '0'));
        }
        i = i + 1;
    }
    r.append(d.as_str());
    proof {
        assert(r@ =~= pad7(n as nat));
    }
    r
}

/// Snapshot identifier: date and time, then a dot, the sub-second part in
/// units of 100 ns as seven digits, and `Z`.
pub open spec fn snapshot_text(date_time: Seq<char>, nanos: u32) -> Seq<char> {
    date_time + seq!['.'] + pad7((nanos / 100) as nat) + seq!['Z']
}

/// The snapshot identifier for the given instant.
pub fn snapshot_id(date_time: &str, nanos: u32) -> (r: String)
    ensures
        r@ == snapshot_text(date_time@, nanos),
{
    let mut r = owned(date_time);
    r.append(".");
    let p = pad7_text((nanos / 100) as u64);
    r.append(p.as_str());
    r.append("Z");
    proof {
        reveal_strlit(".");
        reveal_strlit("Z");
        assert(r@ =~= snapshot_text(date_time@, nanos));
    }
    r
}

/// A snapshot identifier for the current time.
pub fn snapshot_now() -> (r: String)
    ensures
        exists|dt: Seq<char>, n: u32| r@ == snapshot_text(dt, n),
{
    let (dt, n) = clock_seconds_and_nanos();
    snapshot_id(dt.as_str(), n)
}

} // verus!
