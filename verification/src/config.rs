//! The settings of a session.

use crate::ssh::SshSigner;
use crate::text::{chars_of, string_from_chars};
use vstd::prelude::*;

verus! {

/// The settings of a session: where the service is, which version of its
/// interface is spoken, and what signs the requests.
#[derive(Clone, Debug, Default)]
pub struct Config {
    pub base_url: String,
    pub api_version: String,
    pub ssh_signer: Option<SshSigner>,
    pub auth_token: Option<String>,
}

/// How the requests of a session are signed.
#[derive(Clone, Copy, Debug, PartialEq, Eq, Structural)]
pub enum SigningMode {
    /// By an HMAC under the shared secret.
    SharedSecret,
    /// By an SSH key or an identity of the signing agent.
    Asymmetric,
}

/// Whether `text` ends with `suffix`.
pub open spec fn ends_with(text: Seq<char>, suffix: Seq<char>) -> bool {
    text.len() >= suffix.len() && text.skip(text.len() - suffix.len()) == suffix
}

/// `text` without the copies of `suffix` that it ends with.
pub open spec fn trim_end(text: Seq<char>, suffix: Seq<char>) -> Seq<char>
    decreases text.len(),
{
    if suffix.len() > 0 && ends_with(text, suffix) {
        trim_end(text.take(text.len() - suffix.len()), suffix)
    } else {
        text
    }
}

/// The address of the service as the requests use it: the configured one
/// without trailing slashes and then without a trailing `/api`.
pub open spec fn normalized_base_url(raw: Seq<char>) -> Seq<char> {
    trim_end(trim_end(raw, seq!['/']), seq!['/', 'a', 'p', 'i'])
}

/// Whether the first `len` characters of `text` end with `suffix`.
fn prefix_ends_with(text: &Vec<char>, len: usize, suffix: &Vec<char>) -> (found: bool)
    requires
        len <= text.len(),
    ensures
        found == ends_with(text@.take(len as int), suffix@),
{
    if len < suffix.len() {
        return false;
    }
    let start = len - suffix.len();
    let mut i: usize = 0;
    while i < suffix.len()
        invariant
            i <= suffix.len(),
            start + suffix.len() == len <= text.len(),
            forall|j: int| 0 <= j < i ==> text[start + j] == suffix[j],
        decreases suffix.len() - i,
    {
        if text[start + i] != suffix[i] {
            assert(text@.take(len as int).skip(start as int)[i as int] != suffix@[i as int]);
            return false;
        }
        i += 1;
    }
    assert(text@.take(len as int).skip(start as int) =~= suffix@);
    true
}

/// The length of what is left of the first `len` characters of `text` when
/// the copies of `suffix` at their end are taken away.
fn trimmed_len(text: &Vec<char>, len: usize, suffix: &Vec<char>) -> (kept: usize)
    requires
        len <= text.len(),
        suffix.len() > 0,
    ensures
        kept <= len,
        text@.take(kept as int) == trim_end(text@.take(len as int), suffix@),
{
    let mut kept = len;
    while prefix_ends_with(text, kept, suffix)
        invariant
            kept <= len <= text.len(),
            suffix.len() > 0,
            trim_end(text@.take(kept as int), suffix@) == trim_end(text@.take(len as int), suffix@),
        decreases kept,
    {
        assert(text@.take(kept as int).take(kept - suffix.len()) =~= text@.take(
            kept - suffix.len(),
        ));
        kept = kept - suffix.len();
    }
    kept
}

/// Brings the configured address of the service into the form that the
/// requests use.
pub fn normalize_base_url(raw: &str) -> (url: String)
    ensures
        url@ == normalized_base_url(raw@),
{
    let text = chars_of(raw);
    let mut slash: Vec<char> = Vec::new();
    slash.push('/');
    let mut api: Vec<char> = Vec::new();
    api.push('/');
    api.push('a');
    api.push('p');
    api.push('i');
    assert(slash@ =~= seq!['/']);
    assert(api@ =~= seq!['/', 'a', 'p', 'i']);
    assert(text@.take(text.len() as int) =~= text@);
    let without_slashes = trimmed_len(&text, text.len(), &slash);
    let kept = trimmed_len(&text, without_slashes, &api);
    let mut url: Vec<char> = Vec::new();
    let mut i: usize = 0;
    while i < kept
        invariant
            i <= kept <= text.len(),
            url@ == text@.take(i as int),
        decreases kept - i,
    {
        url.push(text[i]);
        i += 1;
        assert(text@.take(i as int) =~= text@.take(i - 1).push(text@[i - 1]));
    }
    string_from_chars(&url)
}

impl Config {
    /// The settings of a session for the service at `base_url`.
    pub fn build(base_url: &str, ssh_signer: Option<SshSigner>, auth_token: Option<String>) -> (config:
        Self)
        ensures
            config.base_url@ == normalized_base_url(base_url@),
            config.api_version@ == crate::API_VERSION@,
            config.ssh_signer == ssh_signer,
            config.auth_token == auth_token,
    {
        Config {
            base_url: normalize_base_url(base_url),
            api_version: crate::API_VERSION.to_owned(),
            ssh_signer,
            auth_token,
        }
    }

    /// How the session signs: with the SSH signer wherever one was found,
    /// with the shared secret only where none was.
    pub fn signing_mode(&self) -> (mode: SigningMode)
        ensures
            mode == if self.ssh_signer is Some {
                SigningMode::Asymmetric
            } else {
                SigningMode::SharedSecret
            },
    {
        match &self.ssh_signer {
            Some(_) => SigningMode::Asymmetric,
            None => SigningMode::SharedSecret,
        }
    }
}

} // verus!
