//! Signing of records, and permission checks.
use crate::configuration::SchemaVersion;
use crate::time::Timestamp;
use vstd::prelude::*;
use vstd::string::*;
use vstd::utf8::encode_utf8;

verus! {

/// Identifies the key that made a signature.
#[derive(Clone, Debug)]
pub struct KeyIdentifier(pub String);

/// A signature over a record's stable representation.
#[derive(Clone, Debug)]
pub struct Signature {
    pub identity: KeyIdentifier,
    pub signed_on: Timestamp,
    pub binary: Vec<u8>,
}

/// A user of the store.
#[derive(Clone, Debug)]
pub struct UserId(pub String);

/// A role that users hold and that grants actions.
#[derive(Clone, Debug)]
pub struct RoleId(pub String);

/// What a user may do to a resource.
#[derive(Clone, Copy, Debug, PartialEq, Eq, Hash, Structural)]
pub enum Action {
    Create,
    Read,
    List,
    Modify,
    Reconcile,
    Sign,
    Close,
    Delete,
}

/// The kinds of thing that permissions are granted on.
#[derive(Clone, Copy, Debug, PartialEq, Eq, Hash, Structural)]
pub enum Resource {
    Account,
    Commodity,
    Customer,
    Journal,
    Ledger,
    Supplier,
    Transaction,
    User,
}

/// Answers permission questions. Every convenience check goes through
/// `user_can_perform` with its own action.
pub trait Authenticator {
    /// Whether `user` may perform `action` on `resource`.
    spec fn permits(&self, user: Seq<char>, action: Action, resource: Resource) -> bool;

    fn user_has_role(&self, user: UserId, role: RoleId) -> (r: bool);

    fn role_can_perform(&self, role: RoleId, action: Action, resource: Resource) -> (r: bool);

    fn user_can_perform(&self, user: UserId, action: Action, resource: Resource) -> (r: bool)
        ensures
            r == self.permits(user.0@, action, resource),
    ;

    fn user_can_create(&self, user: UserId, resource: Resource) -> (r: bool)
        ensures
            r == self.permits(user.0@, Action::Create, resource),
    {
        self.user_can_perform(user, Action::Create, resource)
    }

    fn user_can_modify(&self, user: UserId, resource: Resource) -> (r: bool)
        ensures
            r == self.permits(user.0@, Action::Modify, resource),
    {
        self.user_can_perform(user, Action::Modify, resource)
    }

    fn user_can_reconcile(&self, user: UserId, resource: Resource) -> (r: bool)
        ensures
            r == self.permits(user.0@, Action::Reconcile, resource),
    {
        self.user_can_perform(user, Action::Reconcile, resource)
    }

    fn user_can_sign(&self, user: UserId, resource: Resource) -> (r: bool)
        ensures
            r == self.permits(user.0@, Action::Sign, resource),
    {
        self.user_can_perform(user, Action::Sign, resource)
    }

    fn user_can_close(&self, user: UserId, resource: Resource) -> (r: bool)
        ensures
            r == self.permits(user.0@, Action::Close, resource),
    {
        self.user_can_perform(user, Action::Close, resource)
    }

    fn user_can_delete(&self, user: UserId, resource: Resource) -> (r: bool)
        ensures
            r == self.permits(user.0@, Action::Delete, resource),
    {
        self.user_can_perform(user, Action::Delete, resource)
    }
}

/// That role `role` may perform `action` on `resource`.
#[derive(Clone, Debug)]
pub struct Grant {
    pub role: RoleId,
    pub resource: Resource,
    pub action: Action,
}

/// That user `user` holds role `role`.
#[derive(Clone, Debug)]
pub struct Assignment {
    pub user: UserId,
    pub role: RoleId,
}

/// A store's permissions: the actions each role may perform on each resource, and the roles
/// each user holds.
#[derive(Clone, Debug)]
pub struct Permissions {
    pub grants: Vec<Grant>,
    pub assignments: Vec<Assignment>,
}

impl Permissions {
    pub open spec fn has_role(&self, user: Seq<char>, role: Seq<char>) -> bool {
        exists|i: int|
            0 <= i < self.assignments@.len() && (#[trigger] self.assignments@[i]).user.0@ == user
                && self.assignments@[i].role.0@ == role
    }

    pub open spec fn role_grants(&self, role: Seq<char>, action: Action, resource: Resource) -> bool {
        exists|i: int|
            0 <= i < self.grants@.len() && (#[trigger] self.grants@[i]).role.0@ == role
                && self.grants@[i].action == action && self.grants@[i].resource == resource
    }

    fn grants_role(&self, role: &String, action: Action, resource: Resource) -> (r: bool)
        ensures
            r == self.role_grants(role@, action, resource),
    {
        let mut i: usize = 0;
        while i < self.grants.len()
            invariant
                i <= self.grants@.len(),
                forall|j: int|
                    0 <= j < i ==> !((#[trigger] self.grants@[j]).role.0@ == role@ && self.grants@[j].action
                        == action && self.grants@[j].resource == resource),
            decreases self.grants@.len() - i,
        {
            let g = &self.grants[i];
            if g.role.0 == *role && g.action == action && g.resource == resource {
                return true;
            }
            i = i + 1;
        }
        false
    }
}

impl Authenticator for Permissions {
    /// A user may perform an action when one of the roles they hold grants it.
    open spec fn permits(&self, user: Seq<char>, action: Action, resource: Resource) -> bool {
        exists|i: int|
            0 <= i < self.assignments@.len() && (#[trigger] self.assignments@[i]).user.0@ == user
                && self.role_grants(self.assignments@[i].role.0@, action, resource)
    }

    fn user_has_role(&self, user: UserId, role: RoleId) -> (r: bool)
        ensures
            r == self.has_role(user.0@, role.0@),
    {
        let mut i: usize = 0;
        while i < self.assignments.len()
            invariant
                i <= self.assignments@.len(),
                forall|j: int|
                    0 <= j < i ==> !((#[trigger] self.assignments@[j]).user.0@ == user.0@
                        && self.assignments@[j].role.0@ == role.0@),
            decreases self.assignments@.len() - i,
        {
            let a = &self.assignments[i];
            if a.user.0 == user.0 && a.role.0 == role.0 {
                return true;
            }
            i = i + 1;
        }
        false
    }

    fn role_can_perform(&self, role: RoleId, action: Action, resource: Resource) -> (r: bool)
        ensures
            r == self.role_grants(role.0@, action, resource),
    {
        self.grants_role(&role.0, action, resource)
    }

    fn user_can_perform(&self, user: UserId, action: Action, resource: Resource) -> (r: bool) {
        let mut i: usize = 0;
        while i < self.assignments.len()
            invariant
                i <= self.assignments@.len(),
                forall|j: int|
                    0 <= j < i ==> !((#[trigger] self.assignments@[j]).user.0@ == user.0@
                        && self.role_grants(self.assignments@[j].role.0@, action, resource)),
            decreases self.assignments@.len() - i,
        {
            let a = &self.assignments[i];
            if a.user.0 == user.0 && self.grants_role(&a.role.0, action, resource) {
                return true;
            }
            i = i + 1;
        }
        false
    }
}

/// The identity of an audited record: its kind, the version of its representation, and
/// its identifier.
#[derive(Clone, Debug)]
pub struct AuditIdentifier {
    pub kind: String,
    pub version: SchemaVersion,
    pub identifier: String,
}

/// A record that can be signed: it has an identity and a stable representation, a byte
/// string that depends on the record's values alone.
pub trait Audited {
    /// The stable representation of the record.
    spec fn stable(&self) -> Seq<u8>;

    /// The identifier within the record's identity.
    spec fn audit_key(&self) -> Seq<char>;

    fn audit_identifier(&self) -> (r: AuditIdentifier)
        ensures
            r.identifier@ == self.audit_key(),
            r.version.is_release(0, 1, 0),
    ;

    fn stable_representation(&self) -> (r: Vec<u8>)
        ensures
            r@ == self.stable(),
    ;
}

/// Eight bytes, most significant first.
pub open spec fn enc_u64(n: u64) -> Seq<u8> {
    seq![
        (n >> 56u64) as u8,
        (n >> 48u64) as u8,
        (n >> 40u64) as u8,
        (n >> 32u64) as u8,
        (n >> 24u64) as u8,
        (n >> 16u64) as u8,
        (n >> 8u64) as u8,
        n as u8,
    ]
}

/// A signed integer as the eight bytes of its two's complement.
pub open spec fn enc_i64(n: i64) -> Seq<u8> {
    enc_u64(n as u64)
}

/// A text as the length of its UTF-8 encoding, then that encoding.
pub open spec fn enc_text(s: Seq<char>) -> Seq<u8> {
    enc_u64(encode_utf8(s).len() as u64) + encode_utf8(s)
}

/// A choice between two forms, marked by a leading byte.
pub open spec fn enc_tag(t: u8, rest: Seq<u8>) -> Seq<u8> {
    seq![t] + rest
}

pub fn put_u64(out: &mut Vec<u8>, n: u64)
    ensures
        final(out)@ == old(out)@ + enc_u64(n),
{
    out.push((n >> 56u64) as u8);
    out.push((n >> 48u64) as u8);
    out.push((n >> 40u64) as u8);
    out.push((n >> 32u64) as u8);
    out.push((n >> 24u64) as u8);
    out.push((n >> 16u64) as u8);
    out.push((n >> 8u64) as u8);
    out.push(n as u8);
    assert(out@ =~= old(out)@ + enc_u64(n));
}

pub fn put_i64(out: &mut Vec<u8>, n: i64)
    ensures
        final(out)@ == old(out)@ + enc_i64(n),
{
    put_u64(out, n as u64);
}

pub fn put_text(out: &mut Vec<u8>, s: &str)
    ensures
        final(out)@ == old(out)@ + enc_text(s@),
{
    let mut bytes = s.as_bytes_vec();
    put_u64(out, bytes.len() as u64);
    out.append(&mut bytes);
    assert(out@ =~= old(out)@ + enc_text(s@));
}

pub fn put_tag(out: &mut Vec<u8>, t: u8)
    ensures
        final(out)@ == old(out)@ + seq![t],
{
    out.push(t);
}

} // verus!
