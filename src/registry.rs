//! Registry of protocol objects: which client owns each object, the protocol
//! version it was bound with, whether it is still alive, and the role given
//! to it (for surfaces).

use crate::data_device::{OfferKind, SourceState};
use vstd::prelude::*;

verus! {

/// Handle of a client connection.
pub type ClientId = u32;

/// Handle of a protocol object (surface, data source, data device, offer, keyboard).
pub type ObjectId = u32;

/// What never changes about an object after it was created.
#[derive(Clone, Copy, Debug, PartialEq, Eq, Structural)]
pub struct ObjectInfo {
    pub client: ClientId,
    pub version: u32,
}

/// What the registry keeps about an object besides its owner: the state of
/// a data source, or what a data offer reads from.
#[derive(Debug, PartialEq)]
pub enum UserData {
    Plain,
    Source(SourceState),
    Offer(OfferKind),
}

/// Error of [`Registry::give_role`]: the surface already has a role.
#[derive(Clone, Copy, Debug, PartialEq, Eq, Structural)]
pub struct AlreadyHasRole;

/// Arena of clients and protocol objects. Handles are indices and are never reused.
#[derive(Debug)]
pub struct Registry {
    clients: Vec<bool>,
    objects: Vec<ObjectInfo>,
    alive: Vec<bool>,
    roles: Vec<Option<String>>,
    data: Vec<UserData>,
}

impl Registry {
    /// Liveness of each client, by handle.
    pub closed spec fn clients(&self) -> Seq<bool> {
        self.clients@
    }

    /// Owner and version of each object, by handle.
    pub closed spec fn objects(&self) -> Seq<ObjectInfo> {
        self.objects@
    }

    /// Liveness of each object, by handle.
    pub closed spec fn alive_flags(&self) -> Seq<bool> {
        self.alive@
    }

    /// Role of each object, by handle.
    pub closed spec fn roles(&self) -> Seq<Option<Seq<char>>> {
        self.roles@.map_values(|r: Option<String>| match r {
            Some(s) => Some(s@),
            None => None,
        })
    }

    /// User data of each object, by handle.
    pub closed spec fn data(&self) -> Seq<UserData> {
        self.data@
    }

    pub open spec fn has_object(&self, id: ObjectId) -> bool {
        id < self.objects().len()
    }

    pub open spec fn has_client(&self, c: ClientId) -> bool {
        c < self.clients().len()
    }

    /// The object exists and has not been destroyed.
    pub open spec fn live(&self, id: ObjectId) -> bool {
        self.has_object(id) && self.alive_flags()[id as int]
    }

    /// Owner of an object.
    pub open spec fn owner(&self, id: ObjectId) -> ClientId {
        self.objects()[id as int].client
    }

    pub open spec fn client_live(&self, c: ClientId) -> bool {
        self.has_client(c) && self.clients()[c as int]
    }

    pub closed spec fn wf(&self) -> bool {
        &&& self.objects@.len() == self.alive@.len()
        &&& self.objects@.len() == self.roles@.len()
        &&& self.objects@.len() == self.data@.len()
        &&& self.objects@.len() <= u32::MAX
        &&& self.clients@.len() <= u32::MAX
        &&& forall|i: int|
            0 <= i < self.objects@.len() ==> (#[trigger] self.objects@[i]).client
                < self.clients@.len()
        &&& forall|i: int|
            0 <= i < self.objects@.len() && #[trigger] self.alive@[i]
                ==> self.clients@[self.objects@[i].client as int]
    }

    /// The sizes that a well-formed registry keeps.
    pub proof fn lemma_wf(&self)
        requires
            self.wf(),
        ensures
            self.objects().len() <= u32::MAX,
            self.clients().len() <= u32::MAX,
            self.alive_flags().len() == self.objects().len(),
            self.roles().len() == self.objects().len(),
            self.data().len() == self.objects().len(),
    {
    }

    /// Every live object belongs to a live client.
    pub proof fn lemma_live_owner(&self, id: ObjectId)
        requires
            self.wf(),
            self.live(id),
        ensures
            self.client_live(self.owner(id)),
    {
    }

    /// `self` is `prev` with objects added at the end and nothing else changed.
    pub open spec fn extends(&self, prev: &Registry) -> bool {
        let n = prev.objects().len() as int;
        &&& self.clients() == prev.clients()
        &&& n <= self.objects().len()
        &&& self.objects().len() == self.alive_flags().len()
        &&& self.objects().len() == self.roles().len()
        &&& self.objects().len() == self.data().len()
        &&& self.objects().subrange(0, n) == prev.objects()
        &&& self.alive_flags().subrange(0, n) == prev.alive_flags()
        &&& self.roles().subrange(0, n) == prev.roles()
        &&& self.data().subrange(0, n) == prev.data()
    }

    pub proof fn lemma_extends_refl(&self)
        requires
            self.wf(),
        ensures
            self.extends(self),
    {
        assert(self.objects().subrange(0, self.objects().len() as int) =~= self.objects());
        assert(self.alive_flags().subrange(0, self.objects().len() as int) =~= self.alive_flags());
        assert(self.roles().subrange(0, self.objects().len() as int) =~= self.roles());
        assert(self.data().subrange(0, self.objects().len() as int) =~= self.data());
    }

    pub proof fn lemma_extends_trans(a: &Registry, b: &Registry, c: &Registry)
        requires
            b.extends(a),
            c.extends(b),
        ensures
            c.extends(a),
    {
        let n = a.objects().len() as int;
        let m = b.objects().len() as int;
        assert(c.objects().subrange(0, n) =~= c.objects().subrange(0, m).subrange(0, n));
        assert(c.alive_flags().subrange(0, n) =~= c.alive_flags().subrange(0, m).subrange(0, n));
        assert(c.roles().subrange(0, n) =~= c.roles().subrange(0, m).subrange(0, n));
        assert(c.data().subrange(0, n) =~= c.data().subrange(0, m).subrange(0, n));
    }

    /// Room for one more object.
    pub open spec fn can_create(&self) -> bool {
        self.objects().len() < u32::MAX
    }

    pub fn new() -> (r: Self)
        ensures
            r.wf(),
            r.clients().len() == 0,
            r.objects().len() == 0,
    {
        Registry { clients: Vec::new(), objects: Vec::new(), alive: Vec::new(), roles: Vec::new(), data: Vec::new() }
    }

    /// A new client connects.
    pub fn add_client(&mut self) -> (c: ClientId)
        requires
            old(self).wf(),
            old(self).clients().len() < u32::MAX,
        ensures
            final(self).wf(),
            c == old(self).clients().len(),
            final(self).clients() == old(self).clients().push(true),
            final(self).objects() == old(self).objects(),
            final(self).alive_flags() == old(self).alive_flags(),
            final(self).roles() == old(self).roles(),
            final(self).data() == old(self).data(),
    {
        let c = self.clients.len() as u32;
        self.clients.push(true);
        proof {
            assert(self.roles() =~= old(self).roles());
        }
        c
    }

    /// Creates a live object owned by a live client.
    pub fn create(&mut self, client: ClientId, version: u32, data: UserData) -> (id: ObjectId)
        requires
            old(self).wf(),
            old(self).client_live(client),
            old(self).can_create(),
        ensures
            final(self).wf(),
            id == old(self).objects().len(),
            final(self).objects() == old(self).objects().push(
                ObjectInfo { client, version },
            ),
            final(self).alive_flags() == old(self).alive_flags().push(true),
            final(self).roles() == old(self).roles().push(None),
            final(self).data() == old(self).data().push(data),
            final(self).clients() == old(self).clients(),
            final(self).extends(old(self)),
    {
        let id = self.objects.len() as u32;
        self.objects.push(ObjectInfo { client, version });
        self.alive.push(true);
        self.roles.push(None);
        self.data.push(data);
        proof {
            assert(self.roles() =~= old(self).roles().push(None));
            let n = old(self).objects@.len() as int;
            assert(self.objects@.subrange(0, n) =~= old(self).objects@);
            assert(self.alive@.subrange(0, n) =~= old(self).alive@);
            assert(self.roles().subrange(0, n) =~= old(self).roles());
            assert(self.data@.subrange(0, n) =~= old(self).data@);
            assert forall|i: int| 0 <= i < self.objects@.len() && #[trigger] self.alive@[i]
                implies self.clients@[self.objects@[i].client as int] by {
                if i < id {
                    assert(old(self).alive@[i]);
                }
            }
        }
        id
    }

    /// The object is destroyed (released by its client). Unknown handles are ignored.
    pub fn destroy(&mut self, id: ObjectId)
        requires
            old(self).wf(),
        ensures
            final(self).wf(),
            final(self).alive_flags() == (if old(self).has_object(id) {
                old(self).alive_flags().update(id as int, false)
            } else {
                old(self).alive_flags()
            }),
            final(self).objects() == old(self).objects(),
            final(self).clients() == old(self).clients(),
            final(self).roles() == old(self).roles(),
            final(self).data() == old(self).data(),
    {
        if (id as usize) < self.alive.len() {
            self.alive.set(id as usize, false);
        }
        proof {
            assert(self.roles() =~= old(self).roles());
        }
    }

    /// A client disconnects: it and every object it owns die.
    pub fn disconnect(&mut self, client: ClientId)
        requires
            old(self).wf(),
        ensures
            final(self).wf(),
            final(self).clients() == (if old(self).has_client(client) {
                old(self).clients().update(client as int, false)
            } else {
                old(self).clients()
            }),
            final(self).alive_flags().len() == old(self).alive_flags().len(),
            forall|i: int|
                0 <= i < old(self).alive_flags().len() ==> #[trigger] final(self).alive_flags()[i]
                    == (old(self).alive_flags()[i] && old(self).objects()[i].client != client),
            final(self).objects() == old(self).objects(),
            final(self).roles() == old(self).roles(),
            final(self).data() == old(self).data(),
    {
        let n = self.alive.len();
        let mut i: usize = 0;
        while i < n
            invariant
                n == self.alive@.len(),
                n == old(self).objects@.len(),
                n == old(self).alive@.len(),
                i <= n,
                self.objects@ == old(self).objects@,
                self.clients@ == old(self).clients@,
                self.roles@ == old(self).roles@,
                self.data@ == old(self).data@,
                self.alive@.len() == n,
                forall|j: int|
                    0 <= j < i ==> #[trigger] self.alive@[j] == (old(self).alive@[j]
                        && old(self).objects@[j].client != client),
                forall|j: int| i <= j < n ==> #[trigger] self.alive@[j] == old(self).alive@[j],
            decreases n - i,
        {
            if self.objects[i].client == client {
                self.alive.set(i, false);
            }
            i += 1;
        }
        if (client as usize) < self.clients.len() {
            self.clients.set(client as usize, false);
        }
        proof {
            assert(self.roles() =~= old(self).roles());
            assert forall|j: int| 0 <= j < self.objects@.len() && #[trigger] self.alive@[j]
                implies self.clients@[self.objects@[j].client as int] by {
                assert(old(self).alive@[j]);
            }
        }
    }

    /// Number of objects created so far; the next handle.
    pub fn len(&self) -> (r: u32)
        requires
            self.wf(),
        ensures
            r == self.objects().len(),
    {
        self.objects.len() as u32
    }

    /// Number of clients that connected so far; the next client handle.
    pub fn client_count(&self) -> (r: u32)
        requires
            self.wf(),
        ensures
            r == self.clients().len(),
    {
        self.clients.len() as u32
    }

    /// The object exists and belongs to `c`.
    pub fn is_owned_by(&self, id: ObjectId, c: ClientId) -> (r: bool)
        requires
            self.wf(),
        ensures
            r == (self.has_object(id) && self.owner(id) == c),
    {
        (id as usize) < self.objects.len() && self.objects[id as usize].client == c
    }

    pub fn is_alive(&self, id: ObjectId) -> (r: bool)
        requires
            self.wf(),
        ensures
            r == self.live(id),
    {
        (id as usize) < self.alive.len() && self.alive[id as usize]
    }

    pub fn client_is_alive(&self, c: ClientId) -> (r: bool)
        ensures
            r == self.client_live(c),
    {
        (c as usize) < self.clients.len() && self.clients[c as usize]
    }

    /// Owner of an object; `None` for an unknown handle.
    pub fn client_of(&self, id: ObjectId) -> (r: Option<ClientId>)
        requires
            self.wf(),
        ensures
            r == (if self.has_object(id) {
                Some(self.owner(id))
            } else {
                None::<ClientId>
            }),
    {
        if (id as usize) < self.objects.len() {
            Some(self.objects[id as usize].client)
        } else {
            None
        }
    }

    /// Owner of an object.
    pub fn owner_of(&self, id: ObjectId) -> (r: ClientId)
        requires
            self.wf(),
            self.has_object(id),
        ensures
            r == self.owner(id),
    {
        self.objects[id as usize].client
    }

    /// Both objects exist and belong to the same client.
    pub fn same_client(&self, a: ObjectId, b: ObjectId) -> (r: bool)
        requires
            self.wf(),
        ensures
            r == (self.has_object(a) && self.has_object(b) && self.owner(a) == self.owner(b)),
    {
        (a as usize) < self.objects.len() && (b as usize) < self.objects.len()
            && self.objects[a as usize].client == self.objects[b as usize].client
    }

    /// Protocol version the object was bound with; 0 for an unknown handle.
    pub fn version(&self, id: ObjectId) -> (r: u32)
        requires
            self.wf(),
        ensures
            r == (if self.has_object(id) {
                self.objects()[id as int].version
            } else {
                0
            }),
    {
        if (id as usize) < self.objects.len() {
            self.objects[id as usize].version
        } else {
            0
        }
    }

    /// Gives a role to a surface that has none yet.
    pub fn give_role(&mut self, id: ObjectId, role: &str) -> (r: Result<(), AlreadyHasRole>)
        requires
            old(self).wf(),
            old(self).has_object(id),
        ensures
            final(self).wf(),
            r is Ok <==> old(self).roles()[id as int] is None,
            r is Err ==> *final(self) == *old(self),
            final(self).roles() == (if r is Ok {
                old(self).roles().update(id as int, Some(role@))
            } else {
                old(self).roles()
            }),
            final(self).objects() == old(self).objects(),
            final(self).alive_flags() == old(self).alive_flags(),
            final(self).clients() == old(self).clients(),
            final(self).data() == old(self).data(),
    {
        if self.roles[id as usize].is_some() {
            return Err(AlreadyHasRole);
        }
        self.roles.set(id as usize, Some(role.to_string()));
        proof {
            assert(self.roles() =~= old(self).roles().update(id as int, Some(role@)));
        }
        Ok(())
    }

    /// User data of an object.
    pub fn data_of(&self, id: ObjectId) -> (r: &UserData)
        requires
            self.wf(),
            self.has_object(id),
        ensures
            *r == self.data()[id as int],
    {
        &self.data[id as usize]
    }

    /// Takes the user data of an object out, leaving `Plain` in its place.
    pub fn take_data(&mut self, id: ObjectId) -> (r: UserData)
        requires
            old(self).wf(),
            old(self).has_object(id),
        ensures
            final(self).wf(),
            r == old(self).data()[id as int],
            final(self).data() == old(self).data().update(id as int, UserData::Plain),
            final(self).objects() == old(self).objects(),
            final(self).alive_flags() == old(self).alive_flags(),
            final(self).clients() == old(self).clients(),
            final(self).roles() == old(self).roles(),
    {
        let mut d = UserData::Plain;
        self.data.set_and_swap(id as usize, &mut d);
        proof {
            assert(self.roles() =~= old(self).roles());
        }
        d
    }

    /// Replaces the user data of an object.
    pub fn set_data(&mut self, id: ObjectId, d: UserData)
        requires
            old(self).wf(),
            old(self).has_object(id),
        ensures
            final(self).wf(),
            final(self).data() == old(self).data().update(id as int, d),
            final(self).objects() == old(self).objects(),
            final(self).alive_flags() == old(self).alive_flags(),
            final(self).clients() == old(self).clients(),
            final(self).roles() == old(self).roles(),
    {
        self.data.set(id as usize, d);
        proof {
            assert(self.roles() =~= old(self).roles());
        }
    }
}

} // verus!
