//! Secure tokens: issuing a new one, and reading back a presented plaintext.

use crate::digest::digest_of;
use crate::digest::sha256_digest;
use crate::digest::DIGEST_LENGTH;
use crate::kind::lemma_from_token_of_opened;
use crate::kind::lemma_prefix_is_ascii;
use crate::kind::SecureTokenKind;
use crate::random::all_alphanumeric;
use crate::random::generate_secure_alphanumeric_string;
use vstd::prelude::*;
use vstd::std_specs::cmp::PartialEqSpec;
use vstd::string::StringExecFns;
use vstd::utf8::encode_utf8;
use vstd::utf8::is_ascii_chars;
use vstd::utf8::is_ascii_chars_encode_utf8;

verus! {

/// How many random symbols follow the prefix of a generated plaintext.
pub const TOKEN_LENGTH: usize = 32;

/// Whether `body` can be the random part of a generated plaintext.
pub open spec fn is_token_body(body: Seq<char>) -> bool {
    body.len() == TOKEN_LENGTH && all_alphanumeric(body)
}

/// What reading the plaintext `plaintext` as a token of `kind` gives: its
/// digest where the plaintext is of that kind, nothing otherwise.
pub open spec fn spec_parse(kind: SecureTokenKind, plaintext: Seq<char>) -> Option<Seq<u8>> {
    if SecureTokenKind::spec_from_token(plaintext) == Some(kind) {
        Some(digest_of(plaintext))
    } else {
        None
    }
}

/// A token as it is kept at rest: the digest of its plaintext, and nothing of
/// the plaintext itself.
pub struct SecureToken {
    sha256: Vec<u8>,
}

impl View for SecureToken {
    type V = Seq<u8>;

    /// The bytes of the digest.
    closed spec fn view(&self) -> Seq<u8> {
        self.sha256@
    }
}

impl SecureToken {
    /// Issues a new token of `kind`: the prefix of the kind, then
    /// `TOKEN_LENGTH` random alphanumeric symbols, together with the digest
    /// of the whole.
    ///
    /// The symbols come from the operating system's secure random source and
    /// from nowhere else: where that source cannot be read, the program ends.
    pub fn generate(kind: SecureTokenKind) -> (token: NewSecureToken)
        ensures
            token.is_issued_for(kind),
            token.spec_plaintext().len() == kind.spec_prefix().len() + TOKEN_LENGTH,
            encode_utf8(token.spec_plaintext()).len() == kind.spec_prefix().len() + TOKEN_LENGTH,
            token.spec_digest().len() == DIGEST_LENGTH,
    {
        let body = generate_secure_alphanumeric_string(TOKEN_LENGTH);
        let token = NewSecureToken::assemble(kind, body.as_str());
        proof {
            lemma_issued_plaintext_is_ascii(kind, token);
        }
        token
    }

    /// Reads `plaintext` as a token of `kind`. A plaintext of another kind
    /// and one of no kind at all are refused alike.
    pub fn parse(kind: SecureTokenKind, plaintext: &str) -> (token: Option<SecureToken>)
        ensures
            token is Some <==> kind.opens(plaintext@),
            token matches Some(parsed) ==> spec_parse(kind, plaintext@) == Some(parsed@),
            token matches Some(parsed) ==> parsed@.len() == DIGEST_LENGTH,
            token is None ==> spec_parse(kind, plaintext@) is None,
    {
        proof {
            lemma_parse_decides_by_prefix(kind, plaintext@);
        }
        match SecureTokenKind::from_token(plaintext) {
            Some(found) => {
                if found == kind {
                    Some(SecureToken::decode(Self::hash(plaintext)))
                } else {
                    None
                }
            },
            None => None,
        }
    }

    /// The digest of the UTF-8 bytes of `plaintext`.
    pub fn hash(plaintext: &str) -> (digest: Vec<u8>)
        ensures
            digest@ == digest_of(plaintext@),
            digest@.len() == DIGEST_LENGTH,
    {
        sha256_digest(plaintext.as_bytes())
    }

    /// The token that is stored as `bytes`.
    pub fn decode(bytes: Vec<u8>) -> (token: SecureToken)
        ensures
            token@ == bytes@,
    {
        SecureToken { sha256: bytes }
    }

    /// The bytes under which this token is stored.
    pub fn encode(&self) -> (bytes: Vec<u8>)
        ensures
            bytes@ == self@,
    {
        self.sha256.clone()
    }
}

impl Clone for SecureToken {
    fn clone(&self) -> (copy: SecureToken)
        ensures
            copy@ == self@,
    {
        SecureToken { sha256: self.sha256.clone() }
    }
}

impl PartialEq for SecureToken {
    /// Two tokens are equal where their digests are.
    fn eq(&self, other: &SecureToken) -> (equal: bool) {
        let n = self.sha256.len();
        if other.sha256.len() != n {
            return false;
        }
        let mut at: usize = 0;
        while at < n
            invariant
                n == self.sha256@.len(),
                n == other.sha256@.len(),
                at <= n,
                forall|i: int| 0 <= i < at ==> self.sha256@[i] == other.sha256@[i],
            decreases n - at,
        {
            if self.sha256[at] != other.sha256[at] {
                return false;
            }
            at = at + 1;
        }
        assert(self.sha256@ =~= other.sha256@);
        true
    }
}

/// Declares `core::fmt::Formatter`, which a formatting call is handed.
#[verifier::external_type_specification]
#[verifier::external_body]
pub struct ExFormatter<'a>(core::fmt::Formatter<'a>);

/// Declares `core::fmt::Error`, which a formatting call may fail with.
#[verifier::external_type_specification]
#[verifier::external_body]
pub struct ExFmtError(core::fmt::Error);

/// Writes `text` to `f`.
///
/// Trusted: `core::fmt::Formatter::write_str`. Nothing is claimed of it.
#[verifier::external_body]
fn write_text(f: &mut core::fmt::Formatter<'_>, text: &str) -> (done: core::fmt::Result) {
    f.write_str(text)
}

impl core::fmt::Debug for SecureToken {
    /// Shows the name of the type and nothing of the digest.
    fn fmt(&self, f: &mut core::fmt::Formatter<'_>) -> (done: core::fmt::Result) {
        write_text(f, "SecureToken")
    }
}

impl Eq for SecureToken {

}

impl vstd::std_specs::cmp::PartialEqSpecImpl for SecureToken {
    open spec fn obeys_eq_spec() -> bool {
        true
    }

    open spec fn eq_spec(&self, other: &SecureToken) -> bool {
        self@ == other@
    }
}

/// A token that was just issued: the plaintext, which is handed out once and
/// kept nowhere, and the token under which it is stored.
pub struct NewSecureToken {
    plaintext: String,
    inner: SecureToken,
}

impl NewSecureToken {
    /// The characters of the plaintext.
    pub closed spec fn spec_plaintext(&self) -> Seq<char> {
        self.plaintext@
    }

    /// The bytes of the digest that goes with the plaintext.
    pub closed spec fn spec_digest(&self) -> Seq<u8> {
        self.inner@
    }

    /// Whether this is a token of `kind` as `generate` issues them: the
    /// plaintext is the prefix of the kind followed by a token body, and the
    /// digest is that of the plaintext.
    pub open spec fn is_issued_for(&self, kind: SecureTokenKind) -> bool {
        &&& kind.opens(self.spec_plaintext())
        &&& is_token_body(self.spec_plaintext().skip(kind.spec_prefix().len() as int))
        &&& self.spec_digest() == digest_of(self.spec_plaintext())
    }

    /// The token of `kind` whose random part is `body`.
    pub fn assemble(kind: SecureTokenKind, body: &str) -> (token: NewSecureToken)
        ensures
            token.spec_plaintext() == kind.spec_prefix() + body@,
            token.spec_digest() == digest_of(token.spec_plaintext()),
            token.spec_digest().len() == DIGEST_LENGTH,
            is_token_body(body@) ==> token.is_issued_for(kind),
    {
        let mut plaintext = String::from_str(kind.prefix());
        plaintext.append(body);
        let sha256 = SecureToken::hash(plaintext.as_str());
        proof {
            let prefix = kind.spec_prefix();
            assert((prefix + body@).subrange(0, prefix.len() as int) =~= prefix);
            assert((prefix + body@).skip(prefix.len() as int) =~= body@);
        }
        NewSecureToken { plaintext, inner: SecureToken::decode(sha256) }
    }

    /// The plaintext, to be handed to the token's owner.
    pub fn plaintext(&self) -> (plaintext: &str)
        ensures
            plaintext@ == self.spec_plaintext(),
    {
        self.plaintext.as_str()
    }

    /// The token to be stored.
    pub fn into_inner(self) -> (inner: SecureToken)
        ensures
            inner@ == self.spec_digest(),
    {
        self.inner
    }
}

impl std::ops::Deref for NewSecureToken {
    type Target = SecureToken;

    fn deref(&self) -> (inner: &SecureToken)
        ensures
            inner@ == self.spec_digest(),
    {
        &self.inner
    }
}

/// A plaintext is read as a token of a kind exactly where the prefix of that
/// kind opens it.
pub proof fn lemma_parse_decides_by_prefix(kind: SecureTokenKind, plaintext: Seq<char>)
    ensures
        spec_parse(kind, plaintext) is Some <==> kind.opens(plaintext),
{
    if kind.opens(plaintext) {
        lemma_from_token_of_opened(plaintext, kind);
    }
}

/// Round trip: the plaintext of a token that was issued for a kind is read
/// back as a token of that kind, with the digest it was issued with.
pub proof fn lemma_issued_token_parses_back(kind: SecureTokenKind, token: NewSecureToken)
    requires
        token.is_issued_for(kind),
    ensures
        spec_parse(kind, token.spec_plaintext()) == Some(token.spec_digest()),
{
    lemma_from_token_of_opened(token.spec_plaintext(), kind);
}

/// The plaintext of an issued token is written in ASCII, so it has as many
/// bytes as characters: those of the prefix and `TOKEN_LENGTH` more.
pub proof fn lemma_issued_plaintext_is_ascii(kind: SecureTokenKind, token: NewSecureToken)
    requires
        token.is_issued_for(kind),
    ensures
        is_ascii_chars(token.spec_plaintext()),
        token.spec_plaintext().len() == kind.spec_prefix().len() + TOKEN_LENGTH,
        encode_utf8(token.spec_plaintext()).len() == kind.spec_prefix().len() + TOKEN_LENGTH,
{
    let plaintext = token.spec_plaintext();
    let prefix = kind.spec_prefix();
    let body = plaintext.skip(prefix.len() as int);
    lemma_prefix_is_ascii(kind);
    assert forall|i: int| 0 <= i < plaintext.len() implies '\0' <= #[trigger] plaintext[i]
        <= '\u{7f}' by {
        if i < prefix.len() {
            assert(plaintext[i] == plaintext.subrange(0, prefix.len() as int)[i]);
            assert(plaintext[i] == prefix[i]);
        } else {
            assert(plaintext[i] == body[i - prefix.len()]);
        }
    }
    is_ascii_chars_encode_utf8(plaintext);
}

/// Cross-kind rejection: the plaintext of a token that was issued for one
/// kind is refused when it is read as a token of any other kind.
pub proof fn lemma_issued_token_is_refused_for_other_kind(
    expected: SecureTokenKind,
    issued: SecureTokenKind,
    token: NewSecureToken,
)
    requires
        token.is_issued_for(issued),
    ensures
        expected != issued ==> spec_parse(expected, token.spec_plaintext()) is None,
{
    lemma_from_token_of_opened(token.spec_plaintext(), issued);
}

/// A plaintext that no kind's prefix opens is refused, whichever kind is
/// expected.
pub proof fn lemma_unknown_prefix_is_refused(kind: SecureTokenKind, plaintext: Seq<char>)
    requires
        forall|any: SecureTokenKind| !any.opens(plaintext),
    ensures
        spec_parse(kind, plaintext) is None,
{
}

/// The digest is a function of the plaintext: whenever two digests were taken
/// of the same plaintext, they are the same.
pub proof fn lemma_digest_is_deterministic(
    first: Seq<char>,
    second: Seq<char>,
    first_digest: Seq<u8>,
    second_digest: Seq<u8>,
)
    requires
        first_digest == digest_of(first),
        second_digest == digest_of(second),
        first == second,
    ensures
        first_digest == second_digest,
{
}

/// The codec loses nothing: a token that is stored and read back equals the
/// token that was stored.
pub proof fn lemma_codec_round_trip(token: SecureToken, stored: Seq<u8>, read: SecureToken)
    requires
        stored == token@,
        read@ == stored,
    ensures
        read.eq_spec(&token),
{
}

} // verus!
