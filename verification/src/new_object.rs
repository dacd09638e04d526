//! Objects that are yet to be created, and the changes that wait for them.

use crate::api::{QueryResponse, Server, ServerModel};
use crate::commit::{
    any_change, attribute, Changes, Changeset, ChangesetModel, Commit, CommitModel, Dataset,
};
use crate::error::Error;
use crate::query::{
    built_restriction, lemma_without_repeats_keeps_distinct, without_repeats, Query, QueryModel,
};
use crate::value::{Value, ValueModel};
use vstd::prelude::*;

verus! {

/// An object that may not exist at the service yet, with changes that are
/// to be made to it once it does.
#[derive(Clone, Debug)]
pub struct NewObject {
    object_id: Option<u64>,
    server: Server,
    deferred_changes: Changeset,
}

/// The mathematical value of a [`NewObject`].
pub struct NewObjectModel {
    /// The identifier of the object at the service, if it exists there.
    pub object_id: Option<u64>,
    /// The object as it is edited.
    pub server: ServerModel,
    /// The changes that wait for the creation of the object.
    pub deferred_changes: ChangesetModel,
}

impl View for NewObject {
    type V = NewObjectModel;

    closed spec fn view(&self) -> NewObjectModel {
        NewObjectModel {
            object_id: self.object_id,
            server: self.server@,
            deferred_changes: self.deferred_changes@,
        }
    }
}

/// The log that holds nothing.
pub open spec fn no_changes() -> ChangesetModel {
    ChangesetModel { object_id: 0, attributes: Changes::empty() }
}

/// The object that a callback of [`NewObject::deferred`] is given: the
/// attributes of the new object, with the deferred changes as its log.
pub open spec fn deferred_view(object: NewObjectModel) -> ServerModel {
    ServerModel {
        object_id: 0,
        attributes: object.server.attributes,
        changes: object.deferred_changes,
    }
}

/// The query that finds the object called `hostname`.
pub open spec fn by_hostname(hostname: Seq<char>, restrict: Seq<Seq<char>>) -> QueryModel {
    QueryModel {
        filters: Map::empty().insert("hostname"@, ValueModel::String(hostname)),
        restrict: built_restriction(restrict),
        order_by: None,
    }
}

/// What is left to do when a new object is committed: send `commit`, ask
/// `query` for the object as the service then holds it, and hand the answer
/// to [`PendingCommit::finish`].
#[derive(Debug)]
pub struct PendingCommit {
    pub commit: Commit,
    pub query: Query,
    pub deferred_changes: Changeset,
}

impl NewObject {
    /// A new object with the attributes `dataset`.
    pub fn from_dataset(dataset: Dataset) -> (object: Self)
        ensures
            object@ == (NewObjectModel {
                object_id: None,
                server: ServerModel { object_id: 0, attributes: dataset@, changes: no_changes() },
                deferred_changes: no_changes(),
            }),
    {
        NewObject {
            object_id: None,
            server: Server { object_id: 0, attributes: dataset, changes: Changeset::default() },
            deferred_changes: Changeset::default(),
        }
    }

    /// The names of the object's attributes, in the order in which it holds
    /// them.
    pub closed spec fn attribute_names(&self) -> Seq<Seq<char>> {
        self.server.attributes.names()
    }

    /// The query that finds out whether an object called `hostname` exists
    /// already: it asks for the attributes that this object has, each once.
    pub fn lookup_query(&self, hostname: &str) -> (query: Query)
        ensures
            query@ == by_hostname(hostname@, self.attribute_names()),
            self.attribute_names().no_duplicates(),
            forall|name: Seq<char>|
                self@.server.attributes.dom().contains(name) <==> self.attribute_names().contains(
                    name,
                ),
    {
        let names = self.server.attributes.keys();
        proof {
            lemma_without_repeats_keeps_distinct(crate::cli::texts_of(names@));
            assert(Seq::new(names@.len(), |i: int| names@[i]@) =~= crate::cli::texts_of(names@));
        }
        Query::builder().filter("hostname", hostname).restrict(names).build()
    }

    /// Takes the answer to [`NewObject::lookup_query`]: where it holds
    /// exactly one object, that object is edited from now on; otherwise the
    /// new object stays as it is.
    pub fn adopt(self, response: QueryResponse) -> (object: Self)
        ensures
            object@ == if response.result@.len() == 1 {
                NewObjectModel {
                    object_id: Some(response.result@[0].object_id),
                    server: response.result@[0]@,
                    deferred_changes: self@.deferred_changes,
                }
            } else {
                self@
            },
    {
        let mut object = self;
        match response.one() {
            Ok(server) => {
                object.object_id = Some(server.object_id);
                object.server = server;
            },
            Err(_) => {},
        }
        object
    }

    /// Whether the object does not exist at the service yet.
    pub fn is_new(&self) -> (new: bool)
        ensures
            new == (self@.object_id is None),
    {
        self.object_id.is_none()
    }

    /// Whether there is anything to commit: always for a new object, else
    /// where an edit is recorded or a change is deferred.
    pub fn has_changes(&self) -> (changed: bool)
        ensures
            changed == (self@.object_id is None || any_change(self@.server.changes.attributes)
                || any_change(self@.deferred_changes.attributes)),
    {
        if self.is_new() {
            return true;
        }
        self.server.has_changes() || self.deferred_changes.has_changes()
    }

    /// Starts the commit of the object.
    ///
    /// An object whose `hostname` is no string is refused before anything
    /// is sent. A new object is created with its attributes; one that
    /// exists is changed as its log says. The object is then asked for by
    /// its `hostname`.
    pub fn prepare_commit(self) -> (res: Result<PendingCommit, Error>)
        ensures
            match res {
                Ok(pending) => {
                    &&& attribute(self@.server.attributes, "hostname"@) matches ValueModel::String(
                        hostname,
                    )
                    &&& pending.query@ == by_hostname(hostname, Seq::empty())
                    &&& pending.deferred_changes@ == self@.deferred_changes
                    &&& pending.commit@ == if self@.object_id is None {
                        CommitModel {
                            created: seq![self@.server.attributes],
                            changed: Seq::empty(),
                            deleted: Seq::empty(),
                        }
                    } else {
                        CommitModel {
                            created: Seq::empty(),
                            changed: seq![self@.server.changeset()],
                            deleted: Seq::empty(),
                        }
                    }
                },
                Err(error) => {
                    &&& !(attribute(self@.server.attributes, "hostname"@) is String)
                    &&& error matches Error::RequiredAttributeMissing(name)
                    &&& name@ == "hostname"@
                },
            },
    {
        let hostname = match self.server.get("hostname") {
            Value::String(hostname) => hostname,
            _ => {
                return Err(Error::RequiredAttributeMissing("hostname".to_owned()));
            },
        };
        let commit = if self.is_new() {
            Commit::new().create(self.server.attributes)
        } else {
            Commit::new().update(self.server.changeset())
        };
        let query = Query::builder().filter("hostname", hostname).build();
        assert(without_repeats(Seq::empty()) =~= Seq::<Seq<char>>::empty());
        Ok(PendingCommit { commit, query, deferred_changes: self.deferred_changes })
    }

    /// The commit that creates the object, and the one that makes the
    /// deferred changes afterwards.
    pub fn get_commit(self) -> (commits: (Commit, Commit))
        ensures
            commits.0@ == (CommitModel {
                created: seq![self@.server.attributes],
                changed: Seq::empty(),
                deleted: Seq::empty(),
            }),
            commits.1@ == (CommitModel {
                created: Seq::empty(),
                changed: seq![self@.deferred_changes],
                deleted: Seq::empty(),
            }),
    {
        (Commit::new().create(self.server.attributes), Commit::new().update(self.deferred_changes))
    }

    /// Runs `callback` on an object that has the attributes of this one and
    /// the deferred changes as its log, and keeps the log of the object
    /// that `callback` gives back as the deferred changes.
    pub fn deferred<R, F: FnOnce(Server) -> (Server, R)>(&mut self, callback: F) -> (output: R)
        requires
            forall|server: Server|
                server@ == deferred_view(old(self)@) ==> callback.requires((server,)),
        ensures
            exists|given: Server, left: Server|
                {
                    &&& given@ == deferred_view(old(self)@)
                    &&& #[trigger] callback.ensures((given,), (left, output))
                    &&& final(self)@ == (NewObjectModel {
                        deferred_changes: left.changes@,
                        ..old(self)@
                    })
                },
    {
        let mut changes = Changeset::default();
        std::mem::swap(&mut changes, &mut self.deferred_changes);
        let server = Server { object_id: 0, attributes: self.server.attributes.clone(), changes };
        let (left, output) = callback(server);
        self.deferred_changes = left.changes;
        output
    }

    /// The object as it is edited, for further edits.
    pub fn server_mut(&mut self) -> (server: &mut Server)
        ensures
            server@ == old(self)@.server,
            final(self)@ == (NewObjectModel { server: final(server)@, ..old(self)@ }),
    {
        &mut self.server
    }
}

impl PendingCommit {
    /// Ends the commit with the answer to the query: its one object, with
    /// the deferred changes as its log.
    pub fn finish(self, response: QueryResponse) -> (res: Result<Server, Error>)
        ensures
            match res {
                Ok(server) => response.result@.len() == 1 && server@ == (ServerModel {
                    changes: self.deferred_changes@,
                    ..response.result@[0]@
                }),
                Err(error) => if response.result@.len() > 1 {
                    error == Error::TooManyItems(response.result@.len() as usize)
                } else {
                    response.result@.len() == 0 && error == Error::NotEnoughItems(1)
                },
            },
    {
        match response.one() {
            Ok(server) => {
                let mut server = server;
                server.changes = self.deferred_changes;
                Ok(server)
            },
            Err(error) => Err(error),
        }
    }
}

impl std::ops::Deref for NewObject {
    type Target = Server;

    fn deref(&self) -> (server: &Server)
        ensures
            server@ == self@.server,
    {
        &self.server
    }
}

} // verus!
