//! Signing with an SSH key: the identities, the search for a usable one, and
//! the encoding of signatures and public keys.

use crate::error::Error;
use crate::text::{chars_of, string_from_chars};
use vstd::prelude::*;

verus! {

/// The environment variable that names the private key file.
pub const ENV_NAME_KEY_PATH: &'static str = "SERVERADMIN_KEY_PATH";

/// The environment variable that names the socket of the signing agent.
pub const ENV_NAME_SSH_AGENT: &'static str = "SSH_AUTH_SOCK";

/// The message that an identity of the agent signs on trial.
pub const PROBE_MESSAGE: &'static str = "mest message";

/// `ssh_key::PrivateKey`, of which nothing is known here.
#[verifier::external_type_specification]
#[verifier::external_body]
pub struct ExPrivateKey(ssh_key::PrivateKey);

/// `ssh_key::PublicKey`, of which nothing is known here.
#[verifier::external_type_specification]
#[verifier::external_body]
pub struct ExPublicKey(ssh_key::PublicKey);

/// `ssh_key::Certificate`, of which nothing is known here.
#[verifier::external_type_specification]
#[verifier::external_body]
pub struct ExCertificate(ssh_key::Certificate);

/// `ssh_key::Signature`, of which nothing is known here.
#[verifier::external_type_specification]
#[verifier::external_body]
pub struct ExSignature(ssh_key::Signature);

/// `Clone::clone` of `ssh_key::PrivateKey` gives a copy of the key.
pub assume_specification[ <ssh_key::PrivateKey as std::clone::Clone>::clone ](
    key: &ssh_key::PrivateKey,
) -> (copy: ssh_key::PrivateKey)
    ensures
        copy == *key,
;

/// `Clone::clone` of `ssh_key::PublicKey` gives a copy of the key.
pub assume_specification[ <ssh_key::PublicKey as std::clone::Clone>::clone ](
    key: &ssh_key::PublicKey,
) -> (copy: ssh_key::PublicKey)
    ensures
        copy == *key,
;

/// `Clone::clone` of `ssh_key::Certificate` gives a copy of the certificate.
pub assume_specification[ <ssh_key::Certificate as std::clone::Clone>::clone ](
    certificate: &ssh_key::Certificate,
) -> (copy: ssh_key::Certificate)
    ensures
        copy == *certificate,
;

/// The public key that `ssh_key::PrivateKey::public_key` gives for `key`.
pub uninterp spec fn public_half(key: ssh_key::PrivateKey) -> ssh_key::PublicKey;

/// The public key that `ssh_key::Certificate::public_key` gives for
/// `certificate`, as an `ssh_key::PublicKey` without a comment.
pub uninterp spec fn certified_key(certificate: ssh_key::Certificate) -> ssh_key::PublicKey;

/// The line that `ssh_key::PublicKey::to_openssh` gives for `key`, if it
/// gives one.
pub uninterp spec fn openssh_line(key: ssh_key::PublicKey) -> Option<Seq<char>>;

/// The length that `ssh_encoding::Encode::encoded_len_prefixed` gives for
/// `signature`, if it gives one.
pub uninterp spec fn signature_len(signature: ssh_key::Signature) -> Option<usize>;

/// The Base64 text that `ssh_encoding::Encode::encode` writes for
/// `signature` through an `ssh_encoding::Base64Writer` over a buffer of
/// `capacity` bytes, if the buffer takes it.
pub uninterp spec fn signature_base64(signature: ssh_key::Signature, capacity: nat) -> Option<
    Seq<char>,
>;

/// Signs `message` with `signature::Signer::try_sign` of the private key.
/// Nothing is claimed of the signature: some kinds of key draw on the random
/// source of the system, so that one key and one message may give different
/// signatures. A failure comes as its text.
#[verifier::external_body]
fn key_try_sign(key: &ssh_key::PrivateKey, message: &[u8]) -> Result<ssh_key::Signature, String> {
    match signature::Signer::try_sign(key, message) {
        Ok(signature) => Ok(signature),
        Err(error) => Err(format!("{error}")),
    }
}

/// The public half of a private key, by `ssh_key::PrivateKey::public_key`.
/// The contract names the result.
#[verifier::external_body]
fn key_public_half(key: &ssh_key::PrivateKey) -> (public: ssh_key::PublicKey)
    ensures
        public == public_half(*key),
{
    key.public_key().clone()
}

/// The public key that a certificate certifies, by
/// `ssh_key::Certificate::public_key`, as an `ssh_key::PublicKey` without
/// a comment. The contract names the result.
#[verifier::external_body]
fn certificate_public_key(certificate: &ssh_key::Certificate) -> (public: ssh_key::PublicKey)
    ensures
        public == certified_key(*certificate),
{
    ssh_key::PublicKey::from(certificate.public_key().clone())
}

/// The OpenSSH line of a public key, by `ssh_key::PublicKey::to_openssh`.
/// The contract names the outcome; a failure comes as its text.
#[verifier::external_body]
fn public_key_to_openssh(key: &ssh_key::PublicKey) -> (res: Result<String, String>)
    ensures
        match res {
            Ok(line) => openssh_line(*key) == Some(line@),
            Err(_) => openssh_line(*key) is None,
        },
{
    match key.to_openssh() {
        Ok(line) => Ok(line),
        Err(error) => Err(format!("{error}")),
    }
}

/// The length of the signature in the SSH wire format with its length
/// prefix, by `ssh_encoding::Encode::encoded_len_prefixed`. The contract
/// names the outcome; a failure comes as its text.
#[verifier::external_body]
fn signature_encoded_len(signature: &ssh_key::Signature) -> (res: Result<usize, String>)
    ensures
        match res {
            Ok(len) => signature_len(*signature) == Some(len),
            Err(_) => signature_len(*signature) is None,
        },
{
    match ssh_encoding::Encode::encoded_len_prefixed(signature) {
        Ok(len) => Ok(len),
        Err(error) => Err(format!("{error}")),
    }
}

/// The signature in the SSH wire format as Base64: written by
/// `ssh_encoding::Encode::encode` into an `ssh_encoding::Base64Writer` over
/// `buffer`. The contract names the outcome, which depends on the signature
/// and on the size of the buffer alone; a failure of the writer or of the
/// encoding comes as its text.
#[verifier::external_body]
fn signature_to_base64(signature: &ssh_key::Signature, buffer: &mut Vec<u8>) -> (res: Result<
    String,
    String,
>)
    ensures
        match res {
            Ok(text) => signature_base64(*signature, old(buffer)@.len()) == Some(text@),
            Err(_) => signature_base64(*signature, old(buffer)@.len()) is None,
        },
{
    let mut writer = match ssh_encoding::Base64Writer::new(buffer) {
        Ok(writer) => writer,
        Err(error) => return Err(format!("{error}")),
    };
    if let Err(error) = ssh_encoding::Encode::encode(signature, &mut writer) {
        return Err(format!("{error}"));
    }
    match writer.finish() {
        Ok(text) => Ok(text.to_string()),
        Err(error) => Err(format!("{error}")),
    }
}

/// The part of `line` between its first and its second space: all that
/// follows the first space where there is no second, nothing where there is
/// no space at all.
pub open spec fn second_field(line: Seq<char>) -> Option<Seq<char>> {
    match line.index_of_first(' ') {
        None => None,
        Some(first) => {
            let rest = line.skip(first + 1);
            match rest.index_of_first(' ') {
                None => Some(rest),
                Some(second) => Some(rest.take(second)),
            }
        },
    }
}

/// The place of the first space in `text` at or after `from`, or the length
/// of `text` where there is none.
fn next_space(text: &Vec<char>, from: usize) -> (place: usize)
    requires
        from <= text.len(),
    ensures
        from <= place <= text.len(),
        forall|i: int| from <= i < place ==> text[i] != ' ',
        place < text.len() ==> text[place as int] == ' ',
{
    let mut i = from;
    while i < text.len() && text[i] != ' '
        invariant
            from <= i <= text.len(),
            forall|j: int| from <= j < i ==> text[j] != ' ',
        decreases text.len() - i,
    {
        i += 1;
    }
    i
}

/// The key material of the OpenSSH public key line `public_key`: its second
/// field, which follows the algorithm. A line without a space is refused.
pub fn key_material(public_key: String) -> (res: Result<String, Error>)
    ensures
        match res {
            Ok(key) => second_field(public_key@) == Some(key@),
            Err(error) => second_field(public_key@) is None && error
                == Error::PublicKeyFormatError(public_key),
        },
{
    let line = chars_of(public_key.as_str());
    let first = next_space(&line, 0);
    proof {
        line@.index_of_first_ensures(' ');
    }
    if first >= line.len() {
        assert(!line@.contains(' '));
        return Err(Error::PublicKeyFormatError(public_key));
    }
    assert(line@.index_of_first(' ') == Some(first as int)) by {
        let found = line@.index_of_first(' ');
        assert(line@[first as int] == ' ');
        assert(found is Some);
        if found->0 < first {
            assert(line@[found->0] != ' ');
        }
    }
    let second = next_space(&line, first + 1);
    let ghost rest = line@.skip(first + 1);
    proof {
        rest.index_of_first_ensures(' ');
        let found = rest.index_of_first(' ');
        if second < line.len() {
            assert(rest[second - first - 1] == ' ');
            assert(found is Some);
            if found->0 < second - first - 1 {
                assert(rest[found->0] == line@[found->0 + first + 1]);
            }
            assert(found == Some(second - first - 1));
        } else {
            if found is Some {
                assert(rest[found->0] == line@[found->0 + first + 1]);
            }
            assert(found is None);
        }
    }
    let mut field: Vec<char> = Vec::new();
    let mut i = first + 1;
    while i < second
        invariant
            first + 1 <= i <= second <= line.len(),
            field@ == line@.subrange(first + 1, i as int),
        decreases second - i,
    {
        field.push(line[i]);
        i += 1;
        assert(line@.subrange(first + 1, i as int) =~= line@.subrange(first + 1, i - 1).push(
            line@[i - 1],
        ));
    }
    assert(line@.subrange(first + 1, second as int) =~= rest.take(second - first - 1));
    assert(rest.take(rest.len() as int) =~= rest);
    Ok(string_from_chars(&field))
}

/// The size of the buffer that takes the Base64 form of `len` bytes: four
/// thirds of `len` and three more, rounded down to a multiple of four. Sums
/// and products that do not fit are held at the largest number.
pub open spec fn base64_capacity_spec(len: usize) -> usize {
    let quadrupled = if len * 4 > usize::MAX {
        usize::MAX as int
    } else {
        len * 4
    };
    let padded = if quadrupled / 3 + 3 > usize::MAX {
        usize::MAX as int
    } else {
        quadrupled / 3 + 3
    };
    (padded - padded % 4) as usize
}

/// Computes the size of the buffer that takes the Base64 form of `len` bytes.
pub fn base64_capacity(len: usize) -> (capacity: usize)
    ensures
        capacity == base64_capacity_spec(len),
        capacity % 4 == 0,
{
    let quadrupled = if len > usize::MAX / 4 {
        usize::MAX
    } else {
        len * 4
    };
    let padded = (quadrupled / 3).saturating_add(3);
    padded - padded % 4
}

/// The Base64 text of `signature` in the SSH wire format, written through a
/// buffer of the size that fits its length; nothing where the length or the
/// text cannot be had.
pub open spec fn encoded_signature(signature: ssh_key::Signature) -> Option<Seq<char>> {
    match signature_len(signature) {
        Some(len) => signature_base64(signature, base64_capacity_spec(len) as nat),
        None => None,
    }
}

/// Encodes `signature` in the SSH wire format and writes it as Base64.
pub fn encode_signature(signature: &ssh_key::Signature) -> (res: Result<String, Error>)
    ensures
        match res {
            Ok(text) => encoded_signature(*signature) == Some(text@),
            Err(error) => encoded_signature(*signature) is None && error is EncodingError,
        },
{
    let len = match signature_encoded_len(signature) {
        Ok(len) => len,
        Err(text) => {
            return Err(Error::EncodingError(text));
        },
    };
    let mut buffer = vec![0u8; base64_capacity(len)];
    match signature_to_base64(signature, &mut buffer) {
        Ok(text) => Ok(text),
        Err(text) => Err(Error::EncodingError(text)),
    }
}

/// A public key of the signing agent, bare or within a certificate.
#[derive(Clone, Debug)]
pub enum Identity {
    PublicKey(ssh_key::PublicKey),
    Certificate(ssh_key::Certificate),
}

impl Identity {
    /// The public key of the identity: the key itself, or the one that the
    /// certificate certifies.
    pub open spec fn public_key_spec(&self) -> ssh_key::PublicKey {
        match self {
            Identity::PublicKey(public_key) => *public_key,
            Identity::Certificate(certificate) => certified_key(*certificate),
        }
    }

    /// The OpenSSH line of the identity's public key: algorithm, key and
    /// comment.
    pub fn get_public_key(&self) -> (res: Result<String, Error>)
        ensures
            match res {
                Ok(line) => openssh_line(self.public_key_spec()) == Some(line@),
                Err(error) => openssh_line(self.public_key_spec()) is None
                    && error is SshKeyError,
            },
    {
        let line = match self {
            Identity::PublicKey(public_key) => public_key_to_openssh(public_key),
            Identity::Certificate(certificate) => public_key_to_openssh(
                &certificate_public_key(certificate),
            ),
        };
        match line {
            Ok(line) => Ok(line),
            Err(text) => Err(Error::SshKeyError(text)),
        }
    }
}

/// What signs the requests of a session: an identity held by the signing
/// agent, or a private key.
#[derive(Clone, Debug)]
pub enum SshSigner {
    Agent(Identity),
    Key(ssh_key::PrivateKey),
}

/// The key material of the public key `key`: the second field of its
/// OpenSSH line. Nothing where the key has no line or the line no second
/// field.
pub open spec fn key_material_of(key: ssh_key::PublicKey) -> Option<Seq<char>> {
    match openssh_line(key) {
        Some(line) => second_field(line),
        None => None,
    }
}

impl SshSigner {
    /// The public key of the signer: that of the identity, or the public
    /// half of the private key.
    pub open spec fn public_key_spec(&self) -> ssh_key::PublicKey {
        match self {
            SshSigner::Agent(identity) => identity.public_key_spec(),
            SshSigner::Key(key) => public_half(*key),
        }
    }

    /// Whether signing needs the agent.
    pub fn needs_agent(&self) -> (needed: bool)
        ensures
            needed == (self is Agent),
    {
        match self {
            SshSigner::Agent(_) => true,
            SshSigner::Key(_) => false,
        }
    }

    /// The signature of `message`.
    ///
    /// A key signs by itself; whether it succeeds, and for some kinds of key
    /// which signature it gives, is not for this library to say. For an
    /// identity of the agent the signature is `from_agent`, the one that the
    /// agent gave for `message`; without it the call fails.
    pub fn try_sign(&self, message: &[u8], from_agent: Option<ssh_key::Signature>) -> (res: Result<
        ssh_key::Signature,
        Error,
    >)
        ensures
            match res {
                Ok(signature) => self is Agent ==> from_agent == Some(signature),
                Err(error) => match self {
                    SshSigner::Agent(_) => from_agent is None && error is SshAgentError,
                    SshSigner::Key(_) => error is SignatureError,
                },
            },
    {
        match self {
            SshSigner::Key(key) => match key_try_sign(key, message) {
                Ok(signature) => Ok(signature),
                Err(text) => Err(Error::SignatureError(text)),
            },
            SshSigner::Agent(_) => match from_agent {
                Some(signature) => Ok(signature),
                None => Err(Error::SshAgentError("the agent gave no signature".to_owned())),
            },
        }
    }

    /// The signature of `message` as the header carries it: encoded in the
    /// SSH wire format and written as Base64.
    ///
    /// For an identity of the agent the call succeeds exactly where
    /// `from_agent` holds a signature that can be encoded, and gives its
    /// text. For a key the text is that of the signature that the key gave.
    pub fn sign_message(&self, message: &[u8], from_agent: Option<ssh_key::Signature>) -> (res:
        Result<String, Error>)
        ensures
            match res {
                Ok(text) => match self {
                    SshSigner::Agent(_) => from_agent is Some && encoded_signature(from_agent->0)
                        == Some(text@),
                    SshSigner::Key(_) => exists|signature: ssh_key::Signature|
                        encoded_signature(signature) == Some(text@),
                },
                Err(error) => match self {
                    SshSigner::Agent(_) => match from_agent {
                        None => error is SshAgentError,
                        Some(signature) => encoded_signature(signature) is None
                            && error is EncodingError,
                    },
                    SshSigner::Key(_) => error is SignatureError || error is EncodingError,
                },
            },
    {
        match self.try_sign(message, from_agent) {
            Ok(signature) => encode_signature(&signature),
            Err(error) => Err(error),
        }
    }

    /// The key material of the signer's public key: the second field of its
    /// OpenSSH line. The call succeeds exactly where the key has a line and
    /// the line a second field.
    pub fn get_public_key(&self) -> (res: Result<String, Error>)
        ensures
            match res {
                Ok(key) => key_material_of(self.public_key_spec()) == Some(key@),
                Err(error) => key_material_of(self.public_key_spec()) is None && (
                match openssh_line(self.public_key_spec()) {
                    Some(_) => error is PublicKeyFormatError,
                    None => error is SshKeyError,
                }),
            },
    {
        let line = match self {
            SshSigner::Agent(identity) => identity.get_public_key(),
            SshSigner::Key(key) => {
                match public_key_to_openssh(&key_public_half(key)) {
                    Ok(line) => Ok(line),
                    Err(text) => Err(Error::SshKeyError(text)),
                }
            },
        };
        match line {
            Ok(line) => key_material(line),
            Err(error) => Err(error),
        }
    }
}

/// Where the search for a signing identity stands.
#[derive(Clone, Copy, Debug, PartialEq, Eq, Structural)]
pub enum ProbeState {
    /// Nothing has been tried.
    Start,
    /// The private key file is being read.
    LoadingKey,
    /// The connection to the agent is being made.
    Connecting,
    /// The agent is being asked for its identities.
    Listing,
    /// The identity at `index` of the `count` that the agent holds is
    /// signing the probe message.
    Testing { index: usize, count: usize },
    /// The search is over.
    Done,
}

/// What the caller reports to the search.
#[derive(Clone, Copy, Debug, PartialEq, Eq, Structural)]
pub enum ProbeEvent {
    /// The search begins; `key_configured` says whether a private key file
    /// is named.
    Begin { key_configured: bool },
    /// The private key file was read.
    KeyLoaded,
    /// The private key file could not be read.
    KeyFailed,
    /// The agent was reached.
    Connected,
    /// The agent could not be reached.
    ConnectFailed,
    /// The agent holds `count` identities.
    Listed { count: usize },
    /// The agent did not give its identities.
    ListFailed,
    /// The identity under test signed the probe message.
    SignSucceeded,
    /// The identity under test did not sign the probe message.
    SignFailed,
}

/// What the search asks its caller to do next, or how it ended.
#[derive(Clone, Copy, Debug, PartialEq, Eq, Structural)]
pub enum ProbeAction {
    /// Read the private key file.
    LoadKey,
    /// Connect to the agent.
    Connect,
    /// Ask the agent for its identities.
    List,
    /// Let the identity at this index sign the probe message.
    TestSign(usize),
    /// Ended: the private key signs.
    UseKey,
    /// Ended: the identity at this index signs.
    UseIdentity(usize),
    /// Ended: no identity was found, the shared secret signs.
    UseToken,
    /// Ended: the named private key file could not be read.
    FailKey,
    /// Ended: the event does not answer what was asked.
    Unexpected,
}

/// One step of the search for a signing identity.
///
/// A configured key file is read and used, or the search fails with it.
/// Without one the agent is reached and asked for its identities; each in
/// turn signs the probe message, and the first that succeeds is used. An
/// agent that cannot be reached or does not list, one without identities,
/// and one none of whose identities signs, all end the search without an
/// identity.
pub open spec fn probe_next(state: ProbeState, event: ProbeEvent) -> (ProbeState, ProbeAction) {
    match (state, event) {
        (ProbeState::Start, ProbeEvent::Begin { key_configured }) => if key_configured {
            (ProbeState::LoadingKey, ProbeAction::LoadKey)
        } else {
            (ProbeState::Connecting, ProbeAction::Connect)
        },
        (ProbeState::LoadingKey, ProbeEvent::KeyLoaded) => (ProbeState::Done, ProbeAction::UseKey),
        (ProbeState::LoadingKey, ProbeEvent::KeyFailed) => (ProbeState::Done, ProbeAction::FailKey),
        (ProbeState::Connecting, ProbeEvent::Connected) => (ProbeState::Listing, ProbeAction::List),
        (ProbeState::Connecting, ProbeEvent::ConnectFailed) => (
            ProbeState::Done,
            ProbeAction::UseToken,
        ),
        (ProbeState::Listing, ProbeEvent::Listed { count }) => if count > 0 {
            (ProbeState::Testing { index: 0, count }, ProbeAction::TestSign(0))
        } else {
            (ProbeState::Done, ProbeAction::UseToken)
        },
        (ProbeState::Listing, ProbeEvent::ListFailed) => (ProbeState::Done, ProbeAction::UseToken),
        (ProbeState::Testing { index, count }, ProbeEvent::SignSucceeded) => (
            ProbeState::Done,
            ProbeAction::UseIdentity(index),
        ),
        (ProbeState::Testing { index, count }, ProbeEvent::SignFailed) => if index + 1 < count {
            (
                ProbeState::Testing { index: (index + 1) as usize, count },
                ProbeAction::TestSign((index + 1) as usize),
            )
        } else {
            (ProbeState::Done, ProbeAction::UseToken)
        },
        _ => (ProbeState::Done, ProbeAction::Unexpected),
    }
}

/// Takes one step of the search for a signing identity.
pub fn probe_step(state: ProbeState, event: ProbeEvent) -> (next: (ProbeState, ProbeAction))
    ensures
        next == probe_next(state, event),
{
    match state {
        ProbeState::Start => match event {
            ProbeEvent::Begin { key_configured } => if key_configured {
                (ProbeState::LoadingKey, ProbeAction::LoadKey)
            } else {
                (ProbeState::Connecting, ProbeAction::Connect)
            },
            _ => (ProbeState::Done, ProbeAction::Unexpected),
        },
        ProbeState::LoadingKey => match event {
            ProbeEvent::KeyLoaded => (ProbeState::Done, ProbeAction::UseKey),
            ProbeEvent::KeyFailed => (ProbeState::Done, ProbeAction::FailKey),
            _ => (ProbeState::Done, ProbeAction::Unexpected),
        },
        ProbeState::Connecting => match event {
            ProbeEvent::Connected => (ProbeState::Listing, ProbeAction::List),
            ProbeEvent::ConnectFailed => (ProbeState::Done, ProbeAction::UseToken),
            _ => (ProbeState::Done, ProbeAction::Unexpected),
        },
        ProbeState::Listing => match event {
            ProbeEvent::Listed { count } => if count > 0 {
                (ProbeState::Testing { index: 0, count }, ProbeAction::TestSign(0))
            } else {
                (ProbeState::Done, ProbeAction::UseToken)
            },
            ProbeEvent::ListFailed => (ProbeState::Done, ProbeAction::UseToken),
            _ => (ProbeState::Done, ProbeAction::Unexpected),
        },
        ProbeState::Testing { index, count } => match event {
            ProbeEvent::SignSucceeded => (ProbeState::Done, ProbeAction::UseIdentity(index)),
            ProbeEvent::SignFailed => if index < usize::MAX && index + 1 < count {
                (ProbeState::Testing { index: index + 1, count }, ProbeAction::TestSign(index + 1))
            } else {
                (ProbeState::Done, ProbeAction::UseToken)
            },
            _ => (ProbeState::Done, ProbeAction::Unexpected),
        },
        ProbeState::Done => (ProbeState::Done, ProbeAction::Unexpected),
    }
}

/// The first index of `signs` that holds `true`, if any.
pub open spec fn first_signing(signs: Seq<bool>) -> Option<int> {
    signs.index_of_first(true)
}

/// How the trial of the identities ends when it stands at `index` and the
/// identity at each place signs the probe message as `signs` says.
pub open spec fn trial_outcome(index: usize, signs: Seq<bool>) -> ProbeAction
    decreases signs.len() - index,
{
    if index >= signs.len() || signs.len() > usize::MAX {
        ProbeAction::Unexpected
    } else {
        let event = if signs[index as int] {
            ProbeEvent::SignSucceeded
        } else {
            ProbeEvent::SignFailed
        };
        let next = probe_next(
            ProbeState::Testing { index, count: signs.len() as usize },
            event,
        );
        match next.0 {
            ProbeState::Testing { index: following, count } => if following > index {
                trial_outcome(following, signs)
            } else {
                ProbeAction::Unexpected
            },
            _ => next.1,
        }
    }
}

/// The trial from `index` on uses the first identity at or after `index`
/// that signs, and ends without an identity where none does.
proof fn lemma_trial_from(index: usize, signs: Seq<bool>)
    requires
        index < signs.len() <= usize::MAX,
        forall|i: int| 0 <= i < index ==> !signs[i],
    ensures
        trial_outcome(index, signs) == match first_signing(signs) {
            Some(first) => ProbeAction::UseIdentity(first as usize),
            None => ProbeAction::UseToken,
        },
    decreases signs.len() - index,
{
    signs.index_of_first_ensures(true);
    if signs[index as int] {
        let first = first_signing(signs)->0;
        if first < index {
            assert(!signs[first]);
        }
    } else if index + 1 < signs.len() {
        lemma_trial_from((index + 1) as usize, signs);
    } else {
        if first_signing(signs) is Some {
            assert(!signs[first_signing(signs)->0]);
        }
    }
}

/// Of the identities that the agent holds, the first that signs the probe
/// message becomes the session's identity; where none signs, the search
/// ends without an identity and the shared secret is used.
pub proof fn lemma_first_signing_identity_wins(signs: Seq<bool>)
    requires
        0 < signs.len() <= usize::MAX,
    ensures
        probe_next(ProbeState::Listing, ProbeEvent::Listed { count: signs.len() as usize })
            == (ProbeState::Testing { index: 0, count: signs.len() as usize }, ProbeAction::TestSign(0)),
        trial_outcome(0, signs) == match first_signing(signs) {
            Some(first) => ProbeAction::UseIdentity(first as usize),
            None => ProbeAction::UseToken,
        },
{
    lemma_trial_from(0, signs);
}

/// Failing to reach the agent, failing to list its identities and an agent
/// without identities are no errors: each ends the search without an
/// identity.
pub proof fn lemma_agent_failures_fall_back()
    ensures
        probe_next(ProbeState::Connecting, ProbeEvent::ConnectFailed).1 == ProbeAction::UseToken,
        probe_next(ProbeState::Listing, ProbeEvent::ListFailed).1 == ProbeAction::UseToken,
        probe_next(ProbeState::Listing, ProbeEvent::Listed { count: 0 }).1 == ProbeAction::UseToken,
{
}

} // verus!
