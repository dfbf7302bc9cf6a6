//! Manage extensions and send them messages.
//!
//! The registry owns one command sender per registered extension, keyed by
//! id. The surrounding runtime spawns each instance's message loop and fans
//! its responses into one merged stream; the registry's own job is the
//! bookkeeping verified here: ids stay distinct, registration fails on a
//! duplicate, sending fails on an unknown id, and unregistration removes
//! exactly the named entry.

use vstd::prelude::*;
use vstd::string::StringExecFns;

use crate::error::Error;
use crate::protocol::{Command, Id};
use crate::text::str_eq;

verus! {

broadcast use vstd::std_specs::vec::group_vec_axioms, vstd::seq::group_seq_axioms;

#[verifier::external_type_specification]
#[verifier::external_body]
#[verifier::reject_recursive_types(T)]
pub struct ExUnboundedSender<T>(futures::channel::mpsc::UnboundedSender<T>);

/// Relies on futures' UnboundedSender::unbounded_send: the message is queued
/// unless the receiving end is gone, in which case the very message is
/// handed back inside the error.
#[verifier::external_body]
fn send_unbounded(
    s: &futures::channel::mpsc::UnboundedSender<Command>,
    c: Command,
) -> (r: Result<(), Command>)
    ensures
        r matches Err(c2) ==> c2 == c,
{
    s.unbounded_send(c).map_err(|e| e.into_inner())
}

/// The registered extensions: one command sender per id.
pub struct Registry {
    /// Loaded extensions.
    extensions: Vec<(Id, futures::channel::mpsc::UnboundedSender<Command>)>,
}

impl Registry {
    /// The registered ids, in registration order.
    pub closed spec fn ids(&self) -> Seq<Seq<char>> {
        self.extensions@.map_values(
            |e: (Id, futures::channel::mpsc::UnboundedSender<Command>)| e.0@,
        )
    }

    /// Whether `id` is registered.
    pub open spec fn has_id(&self, id: Seq<char>) -> bool {
        exists|k: int| 0 <= k < self.ids().len() && self.ids()[k] == id
    }

    /// Registered ids are distinct.
    pub open spec fn wf(&self) -> bool {
        forall|i: int, j: int|
            0 <= i < j < self.ids().len() ==> self.ids()[i] != self.ids()[j]
    }

    /// Create a new registry, holding no extensions.
    pub fn new() -> (r: Self)
        ensures
            r.ids() == Seq::<Seq<char>>::empty(),
            r.wf(),
    {
        let r = Registry { extensions: Vec::new() };
        proof {
            assert(r.ids() =~= Seq::<Seq<char>>::empty());
        }
        r
    }

    /// The position of `id` among the registered extensions.
    fn find(&self, id: &str) -> (r: Option<usize>)
        ensures
            match r {
                Some(i) => i < self.ids().len() && self.ids()[i as int] == id@,
                None => !self.has_id(id@),
            },
    {
        let mut i: usize = 0;
        while i < self.extensions.len()
            invariant
                i <= self.extensions@.len(),
                forall|k: int| 0 <= k < i ==> self.ids()[k] != id@,
            decreases self.extensions@.len() - i,
        {
            if str_eq(self.extensions[i].0.as_str(), id) {
                return Some(i);
            }
            i = i + 1;
        }
        None
    }

    /// Register an extension's command sender under `id`: refused when the
    /// id is already taken, in which case the registry is unchanged.
    pub fn register(
        &mut self,
        id: Id,
        sender: futures::channel::mpsc::UnboundedSender<Command>,
    ) -> (r: Result<(), Error>)
        requires
            old(self).wf(),
        ensures
            final(self).wf(),
            old(self).has_id(id@) ==> (r matches Err(e) && e is RegistryAlreadyExists
                && final(self).ids() == old(self).ids()),
            !old(self).has_id(id@) ==> (r is Ok && final(self).ids() == old(self).ids().push(
                id@,
            )),
    {
        let ghost ids0 = self.ids();
        if let Some(_) = self.find(id.as_str()) {
            let mut msg = "Extension ".to_owned();
            msg.append(id.as_str());
            msg.append(" already registered");
            return Err(Error::RegistryAlreadyExists(msg));
        }
        let ghost idv = id@;
        self.extensions.push((id, sender));
        proof {
            assert(self.ids() =~= ids0.push(idv));
        }
        Ok(())
    }

    /// Send a command to the extension registered under `extension_id`:
    /// refused when the id is unknown; otherwise the command is queued, or
    /// handed back as a send failure when the instance has terminated.
    pub fn send_message(&self, extension_id: &Id, message: Command) -> (r: Result<(), Error>)
        ensures
            (r matches Err(e) && e is RegistryNotFound) <==> !self.has_id(extension_id@),
            r matches Err(e) ==> (e is RegistryNotFound || e is SendError),
            r is Ok ==> self.has_id(extension_id@),
            (r matches Err(e) && e is SendError) ==> self.has_id(extension_id@),
    {
        match self.find(extension_id.as_str()) {
            Some(i) => match send_unbounded(&self.extensions[i].1, message) {
                Ok(()) => Ok(()),
                Err(_) => {
                    let mut msg = "Extension ".to_owned();
                    msg.append(extension_id.as_str());
                    msg.append(" is no longer receiving");
                    Err(Error::SendError(msg))
                },
            },
            None => {
                let mut msg = "Extension ".to_owned();
                msg.append(extension_id.as_str());
                msg.append(" not found");
                Err(Error::RegistryNotFound(msg))
            },
        }
    }

    /// Unregister an extension: its sender is dropped, which lets the
    /// instance's loop terminate once its queue drains. Refused when the id
    /// is unknown, in which case the registry is unchanged.
    pub fn unregister(&mut self, extension_id: &Id) -> (r: Result<(), Error>)
        requires
            old(self).wf(),
        ensures
            final(self).wf(),
            !old(self).has_id(extension_id@) ==> (r matches Err(e) && e is RegistryNotFound
                && final(self).ids() == old(self).ids()),
            old(self).has_id(extension_id@) ==> (r is Ok && !final(self).has_id(extension_id@)
                && final(self).ids().len() == old(self).ids().len() - 1 && (forall|x: Seq<char>|
                x != extension_id@ ==> (final(self).has_id(x) <==> old(self).has_id(x)))),
    {
        let ghost ids0 = self.ids();
        match self.find(extension_id.as_str()) {
            Some(i) => {
                self.extensions.remove(i);
                proof {
                    assert(self.ids() =~= ids0.subrange(0, i as int) + ids0.subrange(
                        i + 1,
                        ids0.len() as int,
                    ));
                    assert forall|x: Seq<char>|
                        x != extension_id@ implies (self.has_id(x) <==> (exists|k: int|
                        0 <= k < ids0.len() && ids0[k] == x)) by {
                        if exists|k: int| 0 <= k < ids0.len() && ids0[k] == x {
                            let k = choose|k: int| 0 <= k < ids0.len() && ids0[k] == x;
                            if k < i {
                                assert(self.ids()[k] == x);
                            } else if k > i {
                                assert(self.ids()[k - 1] == x);
                            }
                        } else {
                            assert forall|k: int|
                                0 <= k < self.ids().len() implies self.ids()[k] != x by {
                                if k < i {
                                    assert(self.ids()[k] == ids0[k]);
                                } else {
                                    assert(self.ids()[k] == ids0[k + 1]);
                                }
                            }
                        }
                    }
                    assert forall|k: int|
                        0 <= k < self.ids().len() implies self.ids()[k]
                        != extension_id@ by {
                        if k < i {
                            assert(self.ids()[k] == ids0[k]);
                        } else {
                            assert(self.ids()[k] == ids0[k + 1]);
                        }
                    }
                }
                Ok(())
            },
            None => {
                let mut msg = "Extension ".to_owned();
                msg.append(extension_id.as_str());
                msg.append(" not found");
                Err(Error::RegistryNotFound(msg))
            },
        }
    }

    /// The currently registered ids, as a snapshot.
    pub fn list_extensions(&self) -> (r: Vec<Id>)
        ensures
            r@.map_values(|s: String| s@) == self.ids(),
    {
        let mut out: Vec<Id> = Vec::new();
        let mut i: usize = 0;
        while i < self.extensions.len()
            invariant
                i <= self.extensions@.len(),
                out@.len() == i,
                forall|k: int| 0 <= k < i ==> out@[k]@ == self.ids()[k],
            decreases self.extensions@.len() - i,
        {
            out.push(self.extensions[i].0.clone());
            i = i + 1;
        }
        proof {
            assert(out@.map_values(|s: String| s@) =~= self.ids());
        }
        out
    }
}

} // verus!
