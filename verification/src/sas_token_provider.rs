//! Shared-access-signature tokens: a resource scope and an expiry, signed
//! with HMAC-SHA256 under a shared key.

use crate::text::{
    decimal_text, lemma_signed_decimal_injective, lemma_signed_decimal_shape, lowercase,
    signed_decimal, to_lowercase,
};
use hmac::{Hmac, Mac};
use sha2::Sha256;
use vstd::prelude::*;
use vstd::string::StringSliceAdditionalSpecFns;
use vstd::utf8::encode_utf8;

verus! {

/// Why a token could not be produced.
#[non_exhaustive]
#[derive(Debug, Clone, Copy, PartialEq, Eq, Structural)]
pub enum GenerateSasTokenError {
    /// The key could not be decoded.
    DecodePrivateKeyError,
    /// The key cannot be used by the MAC: it is empty.
    HashingFailed,
}

impl GenerateSasTokenError {
    /// The text that describes the error.
    pub open spec fn message_text(self) -> Seq<char> {
        match self {
            GenerateSasTokenError::DecodePrivateKeyError => "Failed to decode the given private key"@,
            GenerateSasTokenError::HashingFailed =>
                "Failed to use the given private key for the hashing algorithm"@,
        }
    }

    /// The message that describes the error.
    pub fn message(&self) -> (r: String)
        ensures
            r@ == self.message_text(),
    {
        match self {
            GenerateSasTokenError::DecodePrivateKeyError =>
                "Failed to decode the given private key".to_owned(),
            GenerateSasTokenError::HashingFailed =>
                "Failed to use the given private key for the hashing algorithm".to_owned(),
        }
    }
}

/// The name and the secret of a shared access key.
pub struct SasTokenProvider {
    pub sas_key_name: String,
    pub sas_key_value: String,
}

/// How long a token stays valid after it was made, in seconds.
pub const TOKEN_LIFETIME_SECONDS: i128 = 3600;

/// Bytes that percent-encoding leaves as they are: ASCII letters and
/// digits, `-`, `.`, `_` and `~`.
pub open spec fn is_unreserved(b: u8) -> bool {
    ||| 0x30 <= b <= 0x39
    ||| 0x41 <= b <= 0x5a
    ||| 0x61 <= b <= 0x7a
    ||| b == 0x2d
    ||| b == 0x2e
    ||| b == 0x5f
    ||| b == 0x7e
}

/// The upper-case hexadecimal digit for a value below sixteen.
pub open spec fn hex_digit(d: int) -> char {
    if d < 10 {
        ((0x30 + d) as u8) as char
    } else {
        ((0x41 - 10 + d) as u8) as char
    }
}

/// One byte as percent-encoding writes it.
pub open spec fn escaped_byte(b: u8) -> Seq<char> {
    if is_unreserved(b) {
        seq![b as char]
    } else {
        seq!['%', hex_digit(b as int / 16), hex_digit(b as int % 16)]
    }
}

/// The percent-encoding of a byte string.
pub open spec fn percent_encoded(bytes: Seq<u8>) -> Seq<char>
    decreases bytes.len(),
{
    if bytes.len() == 0 {
        Seq::<char>::empty()
    } else {
        percent_encoded(bytes.drop_last()) + escaped_byte(bytes.last())
    }
}

/// The HMAC-SHA256 tag of `message` under `key`.
pub uninterp spec fn hmac_sha256(key: Seq<u8>, message: Seq<u8>) -> Seq<u8>;

/// The standard base64 text, with padding, of a byte string.
pub uninterp spec fn base64_text(bytes: Seq<u8>) -> Seq<char>;

/// The error with which the MAC refuses a key: `InvalidLength` of the
/// `digest` crate, as `hmac` hands it on.
#[verifier::external_type_specification]
#[verifier::external_body]
pub struct ExInvalidLength(hmac::digest::InvalidLength);

/// `urlencoding::encode`. Trusted: every byte of the UTF-8 text is escaped as
/// `%` and two upper-case hexadecimal digits, except the unreserved bytes,
/// which are kept.
#[verifier::external_body]
fn percent_encode(text: &str) -> (r: String)
    ensures
        r@ == percent_encoded(text.spec_bytes()),
{
    urlencoding::encode(text).into_owned()
}

/// `Hmac::<Sha256>::new_from_slice`, `update` and `finalize`. Trusted: a key
/// of any length is accepted, and the bytes returned are the tag of the
/// message under the key.
#[verifier::external_body]
fn hmac_sha256_tag(key: &[u8], message: &[u8]) -> (r: Result<Vec<u8>, hmac::digest::InvalidLength>)
    ensures
        r is Ok,
        r matches Ok(tag) ==> tag@ == hmac_sha256(key@, message@),
{
    let mut mac = Hmac::<Sha256>::new_from_slice(key)?;
    mac.update(message);
    Ok(mac.finalize().into_bytes().to_vec())
}

/// `base64::encode`. Trusted: the result is the standard base64 text of the
/// bytes.
#[verifier::external_body]
fn base64_encode(bytes: &[u8]) -> (r: String)
    ensures
        r@ == base64_text(bytes@),
{
    base64::encode(bytes)
}

/// `chrono::Utc::now` and `DateTime::timestamp`: the seconds since the Unix
/// epoch on this machine's clock. Nothing is claimed of the value. The call
/// does not return where the clock stands before the epoch.
#[verifier::external_body]
fn utc_now_seconds() -> i64 {
    chrono::Utc::now().timestamp()
}

/// The second at which a token made at `now` expires.
pub open spec fn expiry_of(now: int) -> int {
    now + TOKEN_LIFETIME_SECONDS
}

/// The resource scope of a token: the lower-cased target, percent-encoded.
pub open spec fn scope_text(target_url: Seq<char>) -> Seq<char> {
    percent_encoded(encode_utf8(lowercase(target_url)))
}

/// The text that is signed for a scope and an expiry: the scope, a line
/// feed and the expiry in decimal.
pub open spec fn signing_text(scope: Seq<char>, expiry: int) -> Seq<char> {
    scope + seq!['\n'] + signed_decimal(expiry)
}

/// A token written out from its four parts. The key name is not escaped.
pub open spec fn assembled_token(
    scope: Seq<char>,
    signature: Seq<char>,
    expiry: int,
    key_name: Seq<char>,
) -> Seq<char> {
    "SharedAccessSignature sr="@ + scope + "&sig="@ + signature + "&se="@ + signed_decimal(expiry)
        + "&skn="@ + key_name
}

/// The text that is signed for `target_url` at `now`.
pub open spec fn string_to_sign(target_url: Seq<char>, now: int) -> Seq<char> {
    signing_text(scope_text(target_url), expiry_of(now))
}

/// The signature field of a token: the tag in base64, percent-encoded.
pub open spec fn signature_text(key: Seq<char>, target_url: Seq<char>, now: int) -> Seq<char> {
    percent_encoded(
        encode_utf8(
            base64_text(hmac_sha256(encode_utf8(key), encode_utf8(string_to_sign(target_url, now)))),
        ),
    )
}

/// The token for `target_url` made at `now` with the key `key` named
/// `key_name`.
pub open spec fn token_text(
    key_name: Seq<char>,
    key: Seq<char>,
    target_url: Seq<char>,
    now: int,
) -> Seq<char> {
    assembled_token(
        scope_text(target_url),
        signature_text(key, target_url, now),
        expiry_of(now),
        key_name,
    )
}

/// Writes the text to sign for an escaped scope and an expiry.
pub fn text_to_sign(scope: &str, expiry: i128) -> (r: String)
    ensures
        r@ == signing_text(scope@, expiry as int),
{
    proof {
        reveal_strlit("\n");
        assert("\n"@ =~= seq!['\n']);
    }
    let mut text = scope.to_owned();
    text.append("\n");
    text.append(decimal_text(expiry).as_str());
    text
}

/// Writes a token out from an escaped scope, an escaped signature, an expiry
/// and a key name.
pub fn assemble_token(scope: &str, signature: &str, expiry: i128, key_name: &str) -> (r: String)
    ensures
        r@ == assembled_token(scope@, signature@, expiry as int, key_name@),
{
    let mut token = "SharedAccessSignature sr=".to_owned();
    token.append(scope);
    token.append("&sig=");
    token.append(signature);
    token.append("&se=");
    token.append(decimal_text(expiry).as_str());
    token.append("&skn=");
    token.append(key_name);
    token
}

impl SasTokenProvider {
    /// The token that `generate_sas_token_at` owes for `target_url` at
    /// `now`: none for an empty key.
    pub open spec fn token_at(&self, target_url: Seq<char>, now: int) -> Result<
        Seq<char>,
        GenerateSasTokenError,
    > {
        if self.sas_key_value@.len() == 0 {
            Err(GenerateSasTokenError::HashingFailed)
        } else {
            Ok(token_text(self.sas_key_name@, self.sas_key_value@, target_url, now))
        }
    }

    /// Signs `target_url` for one hour from `now`, given in seconds since the
    /// Unix epoch.
    pub fn generate_sas_token_at(&self, target_url: &str, now: i64) -> (r: Result<
        String,
        GenerateSasTokenError,
    >)
        ensures
            match r {
                Ok(token) => self.token_at(target_url@, now as int) == Ok::<
                    Seq<char>,
                    GenerateSasTokenError,
                >(token@),
                Err(e) => self.token_at(target_url@, now as int) == Err::<
                    Seq<char>,
                    GenerateSasTokenError,
                >(e),
            },
    {
        if self.sas_key_value.as_str().is_empty() {
            return Err(GenerateSasTokenError::HashingFailed);
        }
        let expiry: i128 = now as i128 + TOKEN_LIFETIME_SECONDS;
        let lowered = to_lowercase(target_url);
        let scope = percent_encode(lowered.as_str());
        let to_sign = text_to_sign(scope.as_str(), expiry);
        let tag = match hmac_sha256_tag(
            self.sas_key_value.as_str().as_bytes(),
            to_sign.as_str().as_bytes(),
        ) {
            Ok(tag) => tag,
            Err(_) => {
                return Err(GenerateSasTokenError::HashingFailed);
            },
        };
        let signature = percent_encode(base64_encode(tag.as_slice()).as_str());
        let token = assemble_token(
            scope.as_str(),
            signature.as_str(),
            expiry,
            self.sas_key_name.as_str(),
        );
        Ok(token)
    }

    /// Signs `target_url` for one hour from the present moment.
    pub fn generate_sas_token(&self, target_url: &str) -> (r: Result<String, GenerateSasTokenError>)
        ensures
            match r {
                Ok(token) => exists|now: i64|
                    self.token_at(target_url@, now as int) == Ok::<Seq<char>, GenerateSasTokenError>(
                        token@,
                    ),
                Err(e) => self.sas_key_value@.len() == 0 && e == GenerateSasTokenError::HashingFailed,
            },
    {
        let now = utc_now_seconds();
        self.generate_sas_token_at(target_url, now)
    }
}

/// Two texts that end alike and differ only in what stands before and in a
/// numeral after an equals sign are different when the numerals are.
proof fn lemma_numeral_decides(x1: Seq<char>, x2: Seq<char>, n1: int, n2: int, rest: Seq<char>)
    requires
        n1 != n2,
        x1.len() >= 1,
        x2.len() >= 1,
        x1.last() == '=',
        x2.last() == '=',
    ensures
        x1 + signed_decimal(n1) + rest != x2 + signed_decimal(n2) + rest,
{
    let d1 = signed_decimal(n1);
    let d2 = signed_decimal(n2);
    let t1 = x1 + d1 + rest;
    let t2 = x2 + d2 + rest;
    lemma_signed_decimal_shape(n1);
    lemma_signed_decimal_shape(n2);
    if t1 == t2 {
        assert(t1.len() == x1.len() + d1.len() + rest.len());
        assert(t2.len() == x2.len() + d2.len() + rest.len());
        if d1.len() == d2.len() {
            assert(t1.subrange(x1.len() as int, (x1.len() + d1.len()) as int) =~= d1);
            assert(t2.subrange(x2.len() as int, (x2.len() + d2.len()) as int) =~= d2);
            lemma_signed_decimal_injective(n1, n2);
        } else if d1.len() < d2.len() {
            let p = x1.len() - 1;
            assert(t1[p] == x1[p]);
            assert(t2[p] == d2[p - x2.len()]);
        } else {
            let p = x2.len() - 1;
            assert(t2[p] == x2[p]);
            assert(t1[p] == d1[p - x1.len()]);
        }
    }
}

/// Tokens for one key and one target that are made at different moments
/// differ: each carries its own expiry, one hour after it was made.
pub proof fn lemma_token_changes_with_time(
    key_name: Seq<char>,
    key: Seq<char>,
    target_url: Seq<char>,
    now1: int,
    now2: int,
)
    requires
        now1 != now2,
    ensures
        token_text(key_name, key, target_url, now1) != token_text(key_name, key, target_url, now2),
        expiry_of(now1) != expiry_of(now2),
        expiry_of(now1) == now1 + 3600,
{
    reveal_strlit("&se=");
    let head = "SharedAccessSignature sr="@ + scope_text(target_url) + "&sig="@;
    let x1 = head + signature_text(key, target_url, now1) + "&se="@;
    let x2 = head + signature_text(key, target_url, now2) + "&se="@;
    let rest = "&skn="@ + key_name;
    assert(x1.last() == "&se="@[3]);
    assert(x2.last() == "&se="@[3]);
    lemma_numeral_decides(x1, x2, expiry_of(now1), expiry_of(now2), rest);
    assert(token_text(key_name, key, target_url, now1) =~= x1 + signed_decimal(expiry_of(now1))
        + rest);
    assert(token_text(key_name, key, target_url, now2) =~= x2 + signed_decimal(expiry_of(now2))
        + rest);
}


} // verus!
