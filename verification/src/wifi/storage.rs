//! How the saved credentials are laid out in flash: each value is a
//! fixed-size record of its UTF-8 length in one byte, the bytes, and zero
//! padding.

use vstd::prelude::*;
use vstd::utf8::*;
use vstd::string::StringSliceAdditionalSpecFns;
use crate::text::{str_from_utf8, string_of};
use crate::wifi::{WIFI_PASS_MAX_LEN, WIFI_SSID_MAX_LEN};

verus! {

broadcast use vstd::utf8::group_utf8_lib;

/// Size of the stored SSID record.
pub const SSID_VALUE_LEN: usize = 33;
/// Size of the stored passphrase record.
pub const PASS_VALUE_LEN: usize = 65;

#[derive(Clone, Copy, PartialEq, Eq, Structural, Debug)]
pub enum StorageError {
    Flash,
    InvalidEncoding,
    ValueTooLong,
}

/// The record of `value` in `n` bytes: its length (as a byte), the value,
/// then zeros.
pub open spec fn len_prefixed(value: Seq<u8>, n: nat) -> Seq<u8> {
    seq![(value.len() % 256) as u8] + value + Seq::new((n - 1 - value.len()) as nat, |i: int| 0u8)
}

/// Encodes a text as an `n`-byte record; a text whose UTF-8 does not fit in
/// `n - 1` bytes is refused.
pub fn encode_len_prefixed(value: &str, n: usize) -> (r: Result<Vec<u8>, StorageError>)
    requires
        n > 0 || value@.len() > 0,
    ensures
        value.spec_bytes().len() + 1 > n ==> r == Err::<Vec<u8>, StorageError>(StorageError::ValueTooLong),
        value.spec_bytes().len() + 1 <= n ==> (r matches Ok(v) && v@ == len_prefixed(value.spec_bytes(), n as nat)),
{
    let bytes = value.as_bytes();
    let len = bytes.len();
    proof {
        if value@.len() > 0 {
            assert(value.spec_bytes().len() > 0) by {
                if value.spec_bytes().len() == 0 {
                    encode_utf8_decode_utf8(value@);
                    assert(decode_utf8(value.spec_bytes()) =~= Seq::<char>::empty());
                }
            }
        }
    }
    if len > n.saturating_sub(1) {
        return Err(StorageError::ValueTooLong);
    }
    let mut out: Vec<u8> = Vec::new();
    out.push((len % 256) as u8);
    let mut i: usize = 0;
    while i < len
        invariant
            len == bytes@.len(),
            i <= len,
            out@ == seq![(len % 256) as u8] + bytes@.take(i as int),
        decreases len - i,
    {
        out.push(bytes[i]);
        proof {
            assert(bytes@.take(i + 1) =~= bytes@.take(i as int).push(bytes@[i as int]));
        }
        i = i + 1;
    }
    let mut k: usize = len + 1;
    while k < n
        invariant
            len + 1 <= k <= n || (len + 1 == k && n < k),
            len + 1 <= n,
            out@ == seq![(len % 256) as u8] + bytes@ + Seq::new((k - 1 - len) as nat, |j: int| 0u8),
        decreases n - k,
    {
        out.push(0u8);
        proof {
            assert(Seq::new((k + 1 - 1 - len) as nat, |j: int| 0u8) =~= Seq::new(
                (k - 1 - len) as nat,
                |j: int| 0u8,
            ).push(0u8));
        }
        k = k + 1;
    }
    proof {
        assert(bytes@.take(len as int) =~= bytes@);
    }
    Ok(out)
}

/// The text a record holds, when it holds one: its length byte must fit both
/// `max` and the record, and the bytes it counts must be UTF-8.
pub open spec fn decoded_len_prefixed(data: Seq<u8>, max: nat) -> Option<Seq<char>> {
    let len = data[0] as nat;
    if len > max || len + 1 > data.len() {
        None
    } else if !valid_utf8(data.subrange(1, 1 + len as int)) {
        None
    } else {
        Some(decode_utf8(data.subrange(1, 1 + len as int)))
    }
}

/// Decodes a record holding a text of at most `max` bytes.
pub fn decode_len_prefixed(data: &[u8], max: usize) -> (r: Result<String, StorageError>)
    requires
        data@.len() >= 1,
    ensures
        match decoded_len_prefixed(data@, max as nat) {
            Some(t) => r matches Ok(s) && s@ == t,
            None => r == Err::<String, StorageError>(StorageError::InvalidEncoding),
        },
{
    let len = data[0] as usize;
    if len > max || len + 1 > data.len() {
        return Err(StorageError::InvalidEncoding);
    }
    let body = &data[1..1 + len];
    proof {
        assert(body@ =~= data@.subrange(1, 1 + len));
    }
    match str_from_utf8(body) {
        Some(t) => Ok(string_of(t)),
        None => Err(StorageError::InvalidEncoding),
    }
}

/// Encodes the SSID and passphrase records; the SSID's error comes first.
pub fn encode_credentials(ssid: &str, passphrase: &str) -> (r: Result<(Vec<u8>, Vec<u8>), StorageError>)
    ensures
        ssid.spec_bytes().len() > WIFI_SSID_MAX_LEN || passphrase.spec_bytes().len() > WIFI_PASS_MAX_LEN
            <==> r == Err::<(Vec<u8>, Vec<u8>), StorageError>(StorageError::ValueTooLong),
        ssid.spec_bytes().len() <= WIFI_SSID_MAX_LEN && passphrase.spec_bytes().len() <= WIFI_PASS_MAX_LEN
            ==> (r matches Ok((a, b)) && a@ == len_prefixed(ssid.spec_bytes(), SSID_VALUE_LEN as nat)
            && b@ == len_prefixed(passphrase.spec_bytes(), PASS_VALUE_LEN as nat)),
{
    let a = match encode_len_prefixed(ssid, SSID_VALUE_LEN) {
        Ok(a) => a,
        Err(e) => return Err(e),
    };
    let b = match encode_len_prefixed(passphrase, PASS_VALUE_LEN) {
        Ok(b) => b,
        Err(e) => return Err(e),
    };
    Ok((a, b))
}

/// The stored credentials, from the two records read back (`None` where a
/// record is absent): both must be present to give credentials, and both
/// must decode.
pub fn decode_credentials(ssid_data: Option<&[u8]>, pass_data: Option<&[u8]>) -> (r: Result<
    Option<(String, String)>,
    StorageError,
>)
    requires
        ssid_data matches Some(d) ==> d@.len() >= 1,
        pass_data matches Some(d) ==> d@.len() >= 1,
    ensures
        match (ssid_data, pass_data) {
            (Some(a), Some(b)) => match (
                decoded_len_prefixed(a@, WIFI_SSID_MAX_LEN as nat),
                decoded_len_prefixed(b@, WIFI_PASS_MAX_LEN as nat),
            ) {
                (Some(s), Some(p)) => r matches Ok(Some((x, y))) && x@ == s && y@ == p,
                _ => r == Err::<Option<(String, String)>, StorageError>(StorageError::InvalidEncoding),
            },
            _ => r matches Ok(None),
        },
{
    match (ssid_data, pass_data) {
        (Some(a), Some(b)) => {
            let s = match decode_len_prefixed(a, WIFI_SSID_MAX_LEN) {
                Ok(s) => s,
                Err(e) => return Err(e),
            };
            let p = match decode_len_prefixed(b, WIFI_PASS_MAX_LEN) {
                Ok(p) => p,
                Err(e) => return Err(e),
            };
            Ok(Some((s, p)))
        },
        _ => Ok(None),
    }
}

/// What is saved is what is loaded: a text whose UTF-8 fits a record of
/// `max + 1` bytes decodes from its record to itself.
pub proof fn law_len_prefixed_roundtrip(value: Seq<char>, max: nat)
    requires
        encode_utf8(value).len() <= max,
        encode_utf8(value).len() < 256,
    ensures
        decoded_len_prefixed(len_prefixed(encode_utf8(value), max + 1), max) == Some(value),
{
    let b = encode_utf8(value);
    let rec = len_prefixed(b, max + 1);
    assert(rec[0] as nat == b.len());
    assert(rec.subrange(1, 1 + b.len() as int) =~= b);
    encode_utf8_valid_utf8(value);
    encode_utf8_decode_utf8(value);
}

/// Saving both credentials and loading them back gives them unchanged.
pub proof fn law_credentials_roundtrip(ssid: Seq<char>, passphrase: Seq<char>)
    requires
        encode_utf8(ssid).len() <= WIFI_SSID_MAX_LEN,
        encode_utf8(passphrase).len() <= WIFI_PASS_MAX_LEN,
    ensures
        decoded_len_prefixed(len_prefixed(encode_utf8(ssid), SSID_VALUE_LEN as nat), WIFI_SSID_MAX_LEN as nat)
            == Some(ssid),
        decoded_len_prefixed(len_prefixed(encode_utf8(passphrase), PASS_VALUE_LEN as nat), WIFI_PASS_MAX_LEN as nat)
            == Some(passphrase),
{
    law_len_prefixed_roundtrip(ssid, WIFI_SSID_MAX_LEN as nat);
    law_len_prefixed_roundtrip(passphrase, WIFI_PASS_MAX_LEN as nat);
}

} // verus!
