//! Objects of the service, the edits made to them, and the answers of the service.

use crate::commit::{
    any_change, attribute, with_added, with_removed, AttributeChange, AttributeValue, Attributes, ChangeModel,
    Changes, Changeset, ChangesetModel, Dataset, IntoAttributeValue,
};
use crate::auth::{
    app_id, calculate_app_id, calculate_security_token, security_token, sign_body, signing_input,
};
use crate::config::Config;
use crate::error::{Error, ErrorKind};
use crate::ssh::{encoded_signature, key_material_of, openssh_line, SshSigner};
use crate::value::{contains_value, models_of, Value, ValueModel};
use vstd::prelude::*;

verus! {

/// The endpoint that answers queries.
pub const QUERY_ENDPOINT: &'static str = "/api/dataset/query";

/// The endpoint that takes commits.
pub const COMMIT_ENDPOINT: &'static str = "/api/dataset/commit";

/// The endpoint that gives the attributes of a new object.
pub const NEW_OBJECT_ENDPOINT: &'static str = "/api/dataset/new_object";

/// One object of the service: its identifier, its attributes as they stand
/// after the local edits, and the log of those edits.
#[derive(Debug)]
pub struct Server<T = Dataset> {
    pub object_id: u64,
    pub attributes: T,
    pub changes: Changeset,
}

/// The mathematical value of a [`Server`].
pub struct ServerModel {
    pub object_id: u64,
    pub attributes: Attributes,
    pub changes: ChangesetModel,
}

/// `changes` after an overwrite of `name` from `old` to `new` is recorded:
/// whatever was recorded for the name before is replaced.
pub open spec fn log_update(
    changes: Changes,
    name: Seq<char>,
    old: ValueModel,
    new: ValueModel,
) -> Changes {
    changes.insert(name, ChangeModel::Update { old, new })
}

/// `changes` after the addition of `value` to `name` is recorded. The first
/// change of a name starts its entry; an entry that records an overwrite is
/// left as it is.
pub open spec fn log_add(changes: Changes, name: Seq<char>, value: ValueModel) -> Changes {
    if !changes.dom().contains(name) {
        changes.insert(name, ChangeModel::Multi { remove: Seq::empty(), add: seq![value] })
    } else {
        match changes[name] {
            ChangeModel::Multi { remove, add } => changes.insert(
                name,
                ChangeModel::Multi { remove, add: add.push(value) },
            ),
            ChangeModel::Update { .. } => changes,
        }
    }
}

/// `changes` after the removal of `value` from `name` is recorded. The first
/// change of a name starts its entry; an entry that records an overwrite is
/// left as it is.
pub open spec fn log_remove(changes: Changes, name: Seq<char>, value: ValueModel) -> Changes {
    if !changes.dom().contains(name) {
        changes.insert(name, ChangeModel::Multi { remove: seq![value], add: Seq::empty() })
    } else {
        match changes[name] {
            ChangeModel::Multi { remove, add } => changes.insert(
                name,
                ChangeModel::Multi { remove: remove.push(value), add },
            ),
            ChangeModel::Update { .. } => changes,
        }
    }
}

impl ServerModel {
    /// Whether the attribute `name` holds an array.
    pub open spec fn is_multi(self, name: Seq<char>) -> bool {
        attribute(self.attributes, name) is Array
    }

    /// Whether the array attribute `name` holds `value`.
    pub open spec fn holds(self, name: Seq<char>, value: ValueModel) -> bool {
        self.is_multi(name) && attribute(self.attributes, name)->Array_0.contains(value)
    }

    /// The object after the scalar attribute `name` is set to `value`.
    pub open spec fn after_set(self, name: Seq<char>, value: ValueModel) -> ServerModel {
        ServerModel {
            object_id: self.object_id,
            attributes: self.attributes.insert(name, value),
            changes: ChangesetModel {
                object_id: self.changes.object_id,
                attributes: log_update(
                    self.changes.attributes,
                    name,
                    attribute(self.attributes, name),
                    value,
                ),
            },
        }
    }

    /// The object after `value` is added to the array attribute `name`:
    /// unchanged where the array holds the value already.
    pub open spec fn after_add(self, name: Seq<char>, value: ValueModel) -> ServerModel {
        if self.holds(name, value) {
            self
        } else {
            ServerModel {
                object_id: self.object_id,
                attributes: with_added(self.attributes, name, value),
                changes: ChangesetModel {
                    object_id: self.changes.object_id,
                    attributes: log_add(self.changes.attributes, name, value),
                },
            }
        }
    }

    /// The object after `value` is removed from the array attribute `name`:
    /// unchanged where the array does not hold the value.
    pub open spec fn after_remove(self, name: Seq<char>, value: ValueModel) -> ServerModel {
        if !self.holds(name, value) {
            self
        } else {
            ServerModel {
                object_id: self.object_id,
                attributes: with_removed(self.attributes, name, value),
                changes: ChangesetModel {
                    object_id: self.changes.object_id,
                    attributes: log_remove(self.changes.attributes, name, value),
                },
            }
        }
    }

    /// The recorded changes under the object's identifier.
    pub open spec fn changeset(self) -> ChangesetModel {
        ChangesetModel { object_id: self.object_id, attributes: self.changes.attributes }
    }

    /// The object after its log is emptied.
    pub open spec fn after_rollback(self) -> ServerModel {
        ServerModel {
            object_id: self.object_id,
            attributes: self.attributes,
            changes: ChangesetModel { object_id: 0, attributes: Changes::empty() },
        }
    }
}

impl View for Server<Dataset> {
    type V = ServerModel;

    open spec fn view(&self) -> ServerModel {
        ServerModel {
            object_id: self.object_id,
            attributes: self.attributes@,
            changes: self.changes@,
        }
    }
}

impl Clone for Server<Dataset> {
    fn clone(&self) -> (copy: Self)
        ensures
            copy@ == self@,
    {
        Server {
            object_id: self.object_id,
            attributes: self.attributes.clone(),
            changes: self.changes.clone(),
        }
    }
}

impl Server<Dataset> {
    /// Empties the attribute `attribute`. Nothing is recorded in the log.
    pub fn clear(&mut self, attribute: &str) -> (res: Result<&mut Self, Error>)
        ensures
            match res {
                Ok(this) => this@ == (ServerModel {
                    attributes: crate::commit::with_cleared(old(self)@.attributes, attribute@),
                    ..old(self)@
                }) && *final(self) == *final(this),
                Err(_) => false,
            },
    {
        self.attributes.clear(attribute);
        Ok(self)
    }

    /// Sets the scalar attribute `attribute` to `value` and records the
    /// overwrite. An attribute that holds an array is refused.
    ///
    /// The recorded `old` is the value that the attribute had just before
    /// this call. After a second `set` of one attribute the log no longer
    /// holds the value that the service knows, so a service that compares
    /// `old` with its own value will refuse the change.
    pub fn set<V: IntoAttributeValue>(&mut self, attribute: &str, value: V) -> (res: Result<
        &mut Self,
        Error,
    >)
        ensures
            match res {
                Ok(this) => !old(self)@.is_multi(attribute@) && this@ == old(self)@.after_set(
                    attribute@,
                    value.as_attribute_value(),
                ) && *final(self) == *final(this),
                Err(error) => old(self)@.is_multi(attribute@) && *final(self) == *old(self)
                    && error.is_unsupported(attribute@, "set"@) && error.kind_spec()
                    == ErrorKind::ProtocolViolation,
            },
    {
        let new = value.into_attribute_value();
        let old = self.attributes.get(attribute);
        if old.is_array() {
            return Err(Error::UnsupportedOperation(attribute.to_owned(), "set"));
        }
        self.attributes.set(attribute, new.clone());
        self.changes.attributes.insert(attribute.to_owned(), AttributeChange::Update { old, new });
        Ok(self)
    }

    /// Adds `value` to the array attribute `attribute` and records the
    /// addition, unless the array holds the value already. An attribute that
    /// holds no array is refused.
    pub fn add<V: IntoAttributeValue>(&mut self, attribute: &str, value: V) -> (res: Result<
        &mut Self,
        Error,
    >)
        ensures
            match res {
                Ok(this) => old(self)@.is_multi(attribute@) && this@ == old(self)@.after_add(
                    attribute@,
                    value.as_attribute_value(),
                ) && *final(self) == *final(this),
                Err(error) => !old(self)@.is_multi(attribute@) && *final(self) == *old(self)
                    && error.is_unsupported(attribute@, "add"@) && error.kind_spec()
                    == ErrorKind::ProtocolViolation,
            },
    {
        let value = value.into_attribute_value();
        let current = self.attributes.get(attribute);
        let found = match &current {
            Value::Array(items) => contains_value(items, &value),
            _ => {
                return Err(Error::UnsupportedOperation(attribute.to_owned(), "add"));
            },
        };
        assert(current@->Array_0 =~= models_of(current->Array_0@));
        if found {
            return Ok(self);
        }
        self.attributes.add(attribute, value.clone());
        let entry = match self.changes.attributes.get(attribute) {
            None => {
                let mut add: Vec<Value> = Vec::new();
                add.push(value);
                let remove: Vec<Value> = Vec::new();
                assert(models_of(add@) =~= seq![value@]);
                assert(models_of(remove@) =~= Seq::<ValueModel>::empty());
                Some(AttributeChange::Multi { remove, add })
            },
            Some(recorded) => match recorded.clone() {
                AttributeChange::Multi { remove, add } => {
                    let ghost before = models_of(add@);
                    let mut add = add;
                    add.push(value);
                    assert(models_of(add@) =~= before.push(value@));
                    Some(AttributeChange::Multi { remove, add })
                },
                AttributeChange::Update { .. } => None,
            },
        };
        match entry {
            Some(change) => {
                assert(change@ == log_add(
                    old(self)@.changes.attributes,
                    attribute@,
                    value@,
                )[attribute@]);
                self.changes.attributes.insert(attribute.to_owned(), change);
            },
            None => {},
        }
        assert(self.changes@.attributes =~= log_add(
            old(self)@.changes.attributes,
            attribute@,
            value@,
        ));
        Ok(self)
    }

    /// Removes `value` from the array attribute `attribute` and records the
    /// removal, unless the array does not hold the value. An attribute that
    /// holds no array is refused.
    pub fn remove<V: IntoAttributeValue>(&mut self, attribute: &str, value: V) -> (res: Result<
        &mut Self,
        Error,
    >)
        ensures
            match res {
                Ok(this) => old(self)@.is_multi(attribute@) && this@ == old(self)@.after_remove(
                    attribute@,
                    value.as_attribute_value(),
                ) && *final(self) == *final(this),
                Err(error) => !old(self)@.is_multi(attribute@) && *final(self) == *old(self)
                    && error.is_unsupported(attribute@, "remove"@) && error.kind_spec()
                    == ErrorKind::ProtocolViolation,
            },
    {
        let value = value.into_attribute_value();
        let current = self.attributes.get(attribute);
        let found = match &current {
            Value::Array(items) => contains_value(items, &value),
            _ => {
                return Err(Error::UnsupportedOperation(attribute.to_owned(), "remove"));
            },
        };
        assert(current@->Array_0 =~= models_of(current->Array_0@));
        if !found {
            return Ok(self);
        }
        self.attributes.remove(attribute, value.clone());
        let entry = match self.changes.attributes.get(attribute) {
            None => {
                let mut remove: Vec<Value> = Vec::new();
                remove.push(value);
                let add: Vec<Value> = Vec::new();
                assert(models_of(remove@) =~= seq![value@]);
                assert(models_of(add@) =~= Seq::<ValueModel>::empty());
                Some(AttributeChange::Multi { remove, add })
            },
            Some(recorded) => match recorded.clone() {
                AttributeChange::Multi { remove, add } => {
                    let ghost before = models_of(remove@);
                    let mut remove = remove;
                    remove.push(value);
                    assert(models_of(remove@) =~= before.push(value@));
                    Some(AttributeChange::Multi { remove, add })
                },
                AttributeChange::Update { .. } => None,
            },
        };
        match entry {
            Some(change) => {
                assert(change@ == log_remove(
                    old(self)@.changes.attributes,
                    attribute@,
                    value@,
                )[attribute@]);
                self.changes.attributes.insert(attribute.to_owned(), change);
            },
            None => {},
        }
        assert(self.changes@.attributes =~= log_remove(
            old(self)@.changes.attributes,
            attribute@,
            value@,
        ));
        Ok(self)
    }

    /// The value of the attribute `name`: null where there is none.
    pub fn get(&self, name: &str) -> (value: AttributeValue)
        ensures
            value@ == attribute(self@.attributes, name@),
    {
        self.attributes.get(name)
    }

    /// Whether an edit is recorded in the log.
    pub fn has_changes(&self) -> (changed: bool)
        ensures
            changed == any_change(self@.changes.attributes),
    {
        self.changes.has_changes()
    }

    /// A copy of the recorded changes under the object's identifier. The
    /// object itself stays as it is.
    pub fn changeset(&self) -> (changeset: Changeset)
        ensures
            changeset@ == self@.changeset(),
    {
        let mut set = self.changes.clone();
        set.object_id = self.object_id;
        set
    }

    /// Empties the log and returns what it held, under the object's
    /// identifier. The attributes stay as the edits left them.
    pub fn rollback(&mut self) -> (discarded: Changeset)
        ensures
            discarded@ == old(self)@.changeset(),
            final(self)@ == old(self)@.after_rollback(),
    {
        let old_changes = self.changeset();
        self.changes = Changeset::default();
        old_changes
    }
}

/// The answer to a query: the objects that matched.
#[derive(Debug)]
pub struct QueryResponse<T = Dataset> {
    pub status: String,
    pub result: Vec<Server<T>>,
}

/// The answer to a request for a new object: the attributes that an object
/// of the asked type starts with.
#[derive(Clone, Debug)]
pub struct NewObjectResponse {
    pub result: Dataset,
}

/// The answer to a commit.
#[derive(Clone, Debug, PartialEq, Eq)]
pub struct CommitResponse {
    pub status: String,
    pub message: Option<String>,
}

impl Clone for QueryResponse<Dataset> {
    fn clone(&self) -> (copy: Self)
        ensures
            copy.status@ == self.status@,
            copy.result@.len() == self.result@.len(),
            forall|i: int| 0 <= i < self.result@.len() ==> copy.result@[i]@ == self.result@[i]@,
    {
        let mut result: Vec<Server> = Vec::new();
        let mut i: usize = 0;
        while i < self.result.len()
            invariant
                i <= self.result.len(),
                result.len() == i,
                forall|j: int| 0 <= j < i ==> result[j]@ == self.result[j]@,
            decreases self.result.len() - i,
        {
            result.push(self.result[i].clone());
            i += 1;
        }
        QueryResponse { status: self.status.clone(), result }
    }
}

impl<T> QueryResponse<T> {
    /// The one object of the answer. An answer with no object or with more
    /// than one is refused.
    pub fn one(self) -> (res: Result<Server<T>, Error>)
        ensures
            match res {
                Ok(server) => self.result@.len() == 1 && server == self.result@[0],
                Err(error) => if self.result@.len() > 1 {
                    error == Error::TooManyItems(self.result@.len() as usize)
                } else {
                    self.result@.len() == 0 && error == Error::NotEnoughItems(1)
                },
            },
    {
        let mut result = self.result;
        if result.len() > 1 {
            return Err(Error::TooManyItems(result.len()));
        }
        match result.pop() {
            Some(server) => Ok(server),
            None => Err(Error::NotEnoughItems(1)),
        }
    }

    /// All objects of the answer, in its order.
    pub fn all(self) -> (servers: Vec<Server<T>>)
        ensures
            servers == self.result,
    {
        self.result
    }
}

/// Whether the HTTP status `status` reports success.
pub open spec fn is_success(status: u16) -> bool {
    200 <= status < 300
}

/// The text of the error that a commit answered with `message` reports.
pub open spec fn commit_failure(message: Option<String>, fallback: Seq<char>) -> Seq<char> {
    match message {
        Some(text) => text@,
        None => fallback,
    }
}

/// Judges the answer to a commit that came with the HTTP status `status`.
///
/// A status outside 200 to 299 is a failure, and so is an answer whose
/// `status` is `error`. The failure carries the answer's message, or a
/// fixed text where it has none.
pub fn check_commit_response(status: u16, body: CommitResponse) -> (res: Result<
    CommitResponse,
    Error,
>)
    ensures
        match res {
            Ok(accepted) => is_success(status) && body.status@ != "error"@ && accepted == body,
            Err(error) => error matches Error::UnknownServerAdminError(text) && if !is_success(
                status,
            ) {
                text@ == commit_failure(body.message, "Unable to process request"@)
            } else {
                body.status@ == "error"@ && text@ == commit_failure(
                    body.message,
                    "Unknown commit error"@,
                )
            },
        },
{
    if status < 200 || status >= 300 {
        let text = match body.message {
            Some(text) => text,
            None => "Unable to process request".to_owned(),
        };
        return Err(Error::UnknownServerAdminError(text));
    }
    if crate::text::same_text(body.status.as_str(), "error") {
        let text = match body.message {
            Some(text) => text,
            None => "Unknown commit error".to_owned(),
        };
        return Err(Error::UnknownServerAdminError(text));
    }
    Ok(body)
}

/// The endpoint that gives the attributes of a new object of the type
/// `servertype`.
pub fn new_object_endpoint(servertype: &str) -> (endpoint: String)
    ensures
        endpoint@ == NEW_OBJECT_ENDPOINT@ + "?servertype="@ + servertype@,
{
    NEW_OBJECT_ENDPOINT.to_owned().concat("?servertype=").concat(servertype)
}

/// A request as it is to be sent: by POST to `url`, with `headers` and `body`.
#[derive(Debug, PartialEq, Eq)]
pub struct Request {
    pub url: String,
    pub headers: Vec<(String, String)>,
    pub body: String,
}

/// A list of headers: names with their values.
pub type Headers = Seq<(Seq<char>, Seq<char>)>;

/// The names and values that `headers` hold.
pub open spec fn header_views(headers: Seq<(String, String)>) -> Headers {
    Seq::new(headers.len(), |i: int| (headers[i].0@, headers[i].1@))
}

/// The headers that every request carries: the content type, the time of
/// the request and the version of the interface.
pub open spec fn common_headers(timestamp: u64, api_version: Seq<char>) -> Headers {
    seq![
        ("Content-Type"@, "application/json"@),
        ("X-Timestamp"@, crate::text::decimal_of(timestamp as nat)),
        ("X-API-Version"@, api_version),
    ]
}

/// The headers that authenticate the message `sign_body` by the shared
/// secret `token`.
pub open spec fn token_headers(token: Seq<char>, sign_body: Seq<char>) -> Headers {
    seq![("X-SecurityToken"@, security_token(token, sign_body)), ("X-Application"@, app_id(token))]
}

/// The headers that authenticate a message by the signature `signature` of
/// the key `public_key`.
pub open spec fn signature_headers(public_key: Seq<char>, signature: Seq<char>) -> Headers {
    seq![("X-PublicKeys"@, public_key), ("X-Signatures"@, signature)]
}

/// The shared secret that a session without a token signs with: the empty
/// text.
pub open spec fn token_of(auth_token: Option<String>) -> Seq<char> {
    match auth_token {
        Some(token) => token@,
        None => Seq::empty(),
    }
}

/// Puts the header `name: value` at the end of `headers`.
fn push_header(headers: &mut Vec<(String, String)>, name: &str, value: String)
    ensures
        header_views(final(headers)@) == header_views(old(headers)@).push((name@, value@)),
{
    headers.push((name.to_owned(), value));
    assert(header_views(headers@) =~= header_views(old(headers)@).push((name@, value@)));
}

/// The headers that authenticate a message by the signature `signature` of
/// the signer `signer`: the key material of the signer's public key and the
/// Base64 text of the signature. Nothing where the signature cannot be
/// encoded or the key has no key material.
pub open spec fn signed_headers(signer: SshSigner, signature: ssh_key::Signature) -> Option<
    Headers,
> {
    match (encoded_signature(signature), key_material_of(signer.public_key_spec())) {
        (Some(text), Some(public_key)) => Some(signature_headers(public_key, text)),
        _ => None,
    }
}

/// Whether `error` is the failure to authenticate by `signature`: that of
/// the first step that fails, of encoding the signature, writing the line
/// of the signer's key, and finding the key material in it.
pub open spec fn is_signed_failure(
    error: Error,
    signer: SshSigner,
    signature: ssh_key::Signature,
) -> bool {
    match encoded_signature(signature) {
        None => error is EncodingError,
        Some(_) => match openssh_line(signer.public_key_spec()) {
            None => error is SshKeyError,
            Some(_) => error is PublicKeyFormatError,
        },
    }
}

/// Whether `request` carries `body` to `endpoint` at the time `now` with
/// the headers `authentication` after the three common ones.
pub open spec fn is_request(
    request: Request,
    endpoint: Seq<char>,
    body: Seq<char>,
    config: Config,
    now: u64,
    authentication: Headers,
) -> bool {
    &&& request.url@ == config.base_url@ + endpoint
    &&& request.body@ == body
    &&& header_views(request.headers@) == common_headers(now, config.api_version@)
        + authentication
}

/// The first three headers of a request.
fn start_headers(config: &Config, now: u64) -> (headers: Vec<(String, String)>)
    ensures
        header_views(headers@) == common_headers(now, config.api_version@),
{
    let mut headers: Vec<(String, String)> = Vec::new();
    assert(header_views(headers@) =~= Seq::empty());
    push_header(&mut headers, "Content-Type", "application/json".to_owned());
    push_header(&mut headers, "X-Timestamp", crate::text::decimal(now));
    push_header(&mut headers, "X-API-Version", config.api_version.clone());
    assert(header_views(headers@) =~= common_headers(now, config.api_version@));
    headers
}

/// The address of `endpoint` at the service.
fn address(config: &Config, endpoint: &str) -> (url: String)
    ensures
        url@ == config.base_url@ + endpoint@,
{
    let mut url = config.base_url.clone();
    url.append(endpoint);
    url
}

/// Assembles the request that carries `body` to `endpoint` at the time
/// `now` and is authenticated by `signature`, the signature of `signer`.
///
/// The request is made exactly where the signature can be encoded and the
/// signer's key has key material. Its last two headers are `X-PublicKeys`
/// with the key material and `X-Signatures` with the Base64 text of the
/// signature.
pub fn signed_request(
    endpoint: &str,
    body: String,
    config: &Config,
    now: u64,
    signer: &SshSigner,
    signature: &ssh_key::Signature,
) -> (res: Result<Request, Error>)
    ensures
        match res {
            Ok(request) => signed_headers(*signer, *signature) is Some && is_request(
                request,
                endpoint@,
                body@,
                *config,
                now,
                signed_headers(*signer, *signature)->0,
            ),
            Err(error) => signed_headers(*signer, *signature) is None && is_signed_failure(
                error,
                *signer,
                *signature,
            ),
        },
{
    let mut headers = start_headers(config, now);
    let text = match crate::ssh::encode_signature(signature) {
        Ok(text) => text,
        Err(error) => {
            return Err(error);
        },
    };
    let public_key = match signer.get_public_key() {
        Ok(public_key) => public_key,
        Err(error) => {
            return Err(error);
        },
    };
    push_header(&mut headers, "X-PublicKeys", public_key);
    push_header(&mut headers, "X-Signatures", text);
    assert(header_views(headers@) =~= common_headers(now, config.api_version@)
        + signature_headers(public_key@, text@));
    Ok(Request { url: address(config, endpoint), headers, body })
}

/// Assembles the request that carries `body` to `endpoint` at the time
/// `now`, in seconds since the epoch.
///
/// The message that is authenticated is `now` in decimal, a colon and
/// `body`. A session with a signer authenticates by the signer's key and
/// its signature of the message, whatever its token; only a session without
/// a signer authenticates by the token, and its request never fails.
///
/// With an identity of the agent the signature is `from_agent`, the one
/// that the agent gave for the message; without it the request fails. With
/// a key the signature is the one that the key gives for the message.
/// Either way the request is the one that [`signed_request`] makes of the
/// signature.
pub fn request_api(
    endpoint: &str,
    body: String,
    config: &Config,
    now: u64,
    from_agent: Option<ssh_key::Signature>,
) -> (res: Result<Request, Error>)
    ensures
        match config.ssh_signer {
            None => res matches Ok(request) && is_request(
                request,
                endpoint@,
                body@,
                *config,
                now,
                token_headers(token_of(config.auth_token), signing_input(now, body@)),
            ),
            Some(SshSigner::Agent(identity)) => match from_agent {
                None => res matches Err(error) && error is SshAgentError,
                Some(signature) => match res {
                    Ok(request) => signed_headers(SshSigner::Agent(identity), signature) is Some
                        && is_request(
                        request,
                        endpoint@,
                        body@,
                        *config,
                        now,
                        signed_headers(SshSigner::Agent(identity), signature)->0,
                    ),
                    Err(error) => signed_headers(SshSigner::Agent(identity), signature) is None
                        && is_signed_failure(error, SshSigner::Agent(identity), signature),
                },
            },
            Some(SshSigner::Key(key)) => match res {
                Ok(request) => exists|signature: ssh_key::Signature|
                    signed_headers(SshSigner::Key(key), signature) is Some && is_request(
                        request,
                        endpoint@,
                        body@,
                        *config,
                        now,
                        #[trigger] signed_headers(SshSigner::Key(key), signature)->0,
                    ),
                Err(error) => error is SignatureError || (exists|signature: ssh_key::Signature|
                    signed_headers(SshSigner::Key(key), signature) is None
                        && #[trigger] is_signed_failure(error, SshSigner::Key(key), signature)),
            },
        },
{
    match &config.ssh_signer {
        Some(signer) => {
            let message = sign_body(now, body.as_str());
            let signature = match signer.try_sign(message.as_str().as_bytes(), from_agent) {
                Ok(signature) => signature,
                Err(error) => {
                    return Err(error);
                },
            };
            signed_request(endpoint, body, config, now, signer, &signature)
        },
        None => {
            let message = sign_body(now, body.as_str());
            let mut headers = start_headers(config, now);
            let token = match &config.auth_token {
                Some(token) => token.clone(),
                None => String::new(),
            };
            push_header(
                &mut headers,
                "X-SecurityToken",
                calculate_security_token(&token, message.as_str()),
            );
            push_header(&mut headers, "X-Application", calculate_app_id(&token));
            assert(header_views(headers@) =~= common_headers(now, config.api_version@)
                + token_headers(token_of(config.auth_token), signing_input(now, body@)));
            Ok(Request { url: address(config, endpoint), headers, body })
        },
    }
}

/// The application identifier that a request carries depends on the token
/// alone: requests of one token at different times and with different
/// bodies carry the same.
pub proof fn lemma_app_id_independent_of_message(
    token: Seq<char>,
    first_time: u64,
    first_body: Seq<char>,
    second_time: u64,
    second_body: Seq<char>,
)
    ensures
        token_headers(token, signing_input(first_time, first_body))[1] == token_headers(
            token,
            signing_input(second_time, second_body),
        )[1],
        token_headers(token, signing_input(first_time, first_body))[1] == ("X-Application"@, app_id(token)),
{
}

/// How often `value` occurs in `items`.
pub open spec fn occurrences(items: Seq<ValueModel>, value: ValueModel) -> nat {
    items.to_multiset().count(value)
}

/// The values that `changes` record as added to `name`: none where nothing
/// or an overwrite is recorded for it.
pub open spec fn added(changes: Changes, name: Seq<char>) -> Seq<ValueModel> {
    if changes.dom().contains(name) {
        match changes[name] {
            ChangeModel::Multi { remove, add } => add,
            ChangeModel::Update { .. } => Seq::empty(),
        }
    } else {
        Seq::empty()
    }
}

/// Adding a value a second time changes nothing: the second call succeeds
/// and leaves the object as the first call left it.
pub proof fn lemma_add_idempotent(server: ServerModel, name: Seq<char>, value: ValueModel)
    requires
        server.is_multi(name),
    ensures
        server.after_add(name, value).is_multi(name),
        server.after_add(name, value).holds(name, value),
        server.after_add(name, value).after_add(name, value) == server.after_add(name, value),
{
    if !server.holds(name, value) {
        let items = server.attributes[name]->Array_0;
        assert(items.push(value)[items.len() as int] == value);
    }
}

/// After a value is added twice it occurs exactly once in the array and
/// exactly once among the recorded additions, provided that it started out
/// in neither and no overwrite is recorded for the attribute, or started
/// out exactly once in both.
pub proof fn lemma_add_twice_leaves_one(server: ServerModel, name: Seq<char>, value: ValueModel)
    requires
        server.is_multi(name),
        if server.holds(name, value) {
            occurrences(server.attributes[name]->Array_0, value) == 1 && occurrences(
                added(server.changes.attributes, name),
                value,
            ) == 1
        } else {
            occurrences(added(server.changes.attributes, name), value) == 0 && !(
            server.changes.attributes.dom().contains(name)
                && server.changes.attributes[name] is Update)
        },
    ensures
        ({
            let twice = server.after_add(name, value).after_add(name, value);
            &&& twice.is_multi(name)
            &&& occurrences(twice.attributes[name]->Array_0, value) == 1
            &&& occurrences(added(twice.changes.attributes, name), value) == 1
        }),
{
    lemma_add_idempotent(server, name, value);
    if !server.holds(name, value) {
        let items = server.attributes[name]->Array_0;
        let list = added(server.changes.attributes, name);
        items.to_multiset_ensures();
        list.to_multiset_ensures();
        assert(added(server.after_add(name, value).changes.attributes, name) =~= list.push(value));
    }
}

/// Of two overwrites of one attribute the log keeps the second alone: its
/// `old` is the value that the first one set, and the value before the
/// first is lost.
pub proof fn lemma_second_set_replaces_first(
    server: ServerModel,
    name: Seq<char>,
    first: ValueModel,
    second: ValueModel,
)
    requires
        !server.is_multi(name),
        !(first is Array),
    ensures
        !server.after_set(name, first).is_multi(name),
        server.after_set(name, first).after_set(name, second).changes.attributes[name]
            == (ChangeModel::Update { old: first, new: second }),
        server.after_set(name, first).after_set(name, second).attributes[name] == second,
{
}

/// An addition and the removal of the same value do not cancel: after
/// both, the log holds the value once among the additions and once among
/// the removals.
pub proof fn lemma_add_then_remove_keeps_both(
    server: ServerModel,
    name: Seq<char>,
    value: ValueModel,
)
    requires
        server.is_multi(name),
        !server.holds(name, value),
        !server.changes.attributes.dom().contains(name),
    ensures
        server.after_add(name, value).holds(name, value),
        server.after_add(name, value).after_remove(name, value).changes.attributes[name]
            == (ChangeModel::Multi { remove: seq![value], add: seq![value] }),
{
    let items = server.attributes[name]->Array_0;
    assert(items.push(value)[items.len() as int] == value);
    assert(Seq::<ValueModel>::empty().push(value) =~= seq![value]);
}

/// An array attribute stays an array whatever is added to it or removed
/// from it, also when its last value is removed: it stays open to `add` and
/// `remove` and closed to `set`.
pub proof fn lemma_array_stays_array(server: ServerModel, name: Seq<char>, value: ValueModel)
    requires
        server.is_multi(name),
    ensures
        server.after_add(name, value).is_multi(name),
        server.after_remove(name, value).is_multi(name),
        server.after_remove(name, value).attributes[name] == ValueModel::Array(
            server.attributes[name]->Array_0.remove_value(value),
        ),
{
    let items = server.attributes[name]->Array_0;
    items.index_of_first_ensures(value);
}

/// Removing a value that the array does not hold changes nothing: the call
/// succeeds, and the array and the log stay as they were.
pub proof fn lemma_remove_absent_is_noop(server: ServerModel, name: Seq<char>, value: ValueModel)
    requires
        server.is_multi(name),
        !server.holds(name, value),
    ensures
        server.after_remove(name, value) == server,
{
}

/// Reading the recorded changes leaves the object as it is, so two
/// readings of one object agree.
pub proof fn lemma_changeset_repeatable(server: Server, first: Changeset, second: Changeset)
    requires
        first@ == server@.changeset(),
        second@ == server@.changeset(),
    ensures
        first@ == second@,
{
}

/// After a rollback the recorded changes are empty, under the identifier
/// that the object had before.
pub proof fn lemma_rollback_empties_changeset(server: ServerModel)
    ensures
        server.after_rollback().changeset() == (ChangesetModel {
            object_id: server.object_id,
            attributes: Changes::empty(),
        }),
        server.after_rollback().attributes == server.attributes,
{
}

} // verus!
