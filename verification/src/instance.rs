//! Single-instance coordination.
//!
//! A process acquires a named, systemwide mutual-exclusion object scoped to
//! its release channel. The first process to create the object is the owner
//! and hosts the message listener; every later process of the same channel
//! sees that the object already exists and forwards its invocation instead.
//!
//! The systemwide namespace of created object names is modelled explicitly by
//! [`ObjectNamespace`], so the subsystem can be exercised and reasoned about
//! with several simulated processes and channels in one address space. The
//! embedding binary holds one namespace per machine-wide session and performs
//! the actual object creation through the operating system.

use vstd::prelude::*;
use vstd::string::*;
use crate::channel::{
    identifier_spec, generate_identifier, lemma_identifier_distinct_channels, ReleaseChannel,
};

verus! {

/// The name of the instance mutex of a release channel.
pub open spec fn mutex_identifier(channel: ReleaseChannel) -> Seq<char> {
    identifier_spec(channel, "Instance-Mutex"@)
}

/// One step of name creation in a systemwide namespace: `owner` reports
/// whether the name was new, and afterwards the namespace holds exactly the
/// old names plus `name`.
pub open spec fn acquire_transition(
    before: ObjectNamespace,
    after: ObjectNamespace,
    owner: bool,
    name: Seq<char>,
) -> bool {
    &&& (owner <==> !before.has_name(name))
    &&& forall|n: Seq<char>| after.has_name(n) <==> (before.has_name(n) || n == name)
}

/// The set of named objects that exist systemwide. Creating a named
/// mutual-exclusion object either makes a new name (the caller is first) or
/// opens an existing one.
pub struct ObjectNamespace {
    names: Vec<String>,
}

impl ObjectNamespace {
    /// Whether an object of this name exists.
    pub closed spec fn has_name(self, name: Seq<char>) -> bool {
        exists|i: int| 0 <= i < self.names@.len() && self.names@[i]@ == name
    }

    /// A namespace in which no object exists yet.
    pub fn new() -> (r: ObjectNamespace)
        ensures
            forall|n: Seq<char>| !r.has_name(n),
    {
        ObjectNamespace { names: Vec::new() }
    }

    /// Whether an object of this name exists.
    pub fn contains_object(&self, name: &String) -> (r: bool)
        ensures
            r == self.has_name(name@),
    {
        let mut i: usize = 0;
        while i < self.names.len()
            invariant
                i <= self.names.len(),
                forall|j: int| 0 <= j < i ==> self.names@[j]@ != name@,
            decreases self.names.len() - i,
        {
            if self.names[i].eq(name) {
                return true;
            }
            i = i + 1;
        }
        false
    }

    /// Creates a named object, or opens it if it already exists. Returns
    /// whether the name was newly created.
    pub fn create_named_object(&mut self, name: String) -> (created_new: bool)
        ensures
            acquire_transition(*old(self), *final(self), created_new, name@),
    {
        let existed = self.contains_object(&name);
        let ghost nv = name@;
        let ghost old_names = self.names@;
        self.names.push(name);
        proof {
            assert forall|n: Seq<char>| self.has_name(n) implies (old(self).has_name(n) || n
                == nv) by {
                let i = choose|i: int| 0 <= i < self.names@.len() && self.names@[i]@ == n;
                if i < old_names.len() {
                    assert(old_names[i]@ == n);
                }
            }
            assert forall|n: Seq<char>| (old(self).has_name(n) || n == nv) implies self.has_name(
                n,
            ) by {
                if old(self).has_name(n) {
                    let i = choose|i: int| 0 <= i < old_names.len() && old_names[i]@ == n;
                    assert(self.names@[i]@ == n);
                } else {
                    assert(self.names@[old_names.len() as int]@ == n);
                }
            }
        }
        !existed
    }
}

/// The acquired instance lock. It wraps the name of the mutual-exclusion
/// object this process created or opened, and the one-shot role decision made
/// at creation. The value must be kept alive for the whole process: releasing
/// it early would let a later process spuriously become owner.
pub struct InstanceLock {
    identifier: String,
    is_owner: bool,
}

impl InstanceLock {
    /// The name of the underlying mutual-exclusion object.
    pub closed spec fn spec_identifier(self) -> Seq<char> {
        self.identifier@
    }

    /// Whether this process created the object first.
    pub closed spec fn spec_is_owner(self) -> bool {
        self.is_owner
    }

    /// Creates or opens the instance mutex of the given release channel.
    /// The returned lock reports ownership exactly when the name did not
    /// exist before the call.
    pub fn acquire(namespace: &mut ObjectNamespace, channel: ReleaseChannel) -> (r: InstanceLock)
        ensures
            r.spec_identifier() == mutex_identifier(channel),
            acquire_transition(*old(namespace), *final(namespace), r.spec_is_owner(), mutex_identifier(channel)),
    {
        let identifier = generate_identifier(channel, "Instance-Mutex");
        let is_owner = namespace.create_named_object(identifier.clone());
        InstanceLock { identifier, is_owner }
    }

    /// Whether this process is the first instance of its channel.
    pub fn is_owner(&self) -> (r: bool)
        ensures
            r == self.spec_is_owner(),
    {
        self.is_owner
    }

    /// The name of the underlying mutual-exclusion object.
    pub fn identifier(&self) -> (r: &String)
        ensures
            r@ == self.spec_identifier(),
    {
        &self.identifier
    }
}

/// Decides the role of a newly started process: creates or opens the
/// channel's instance mutex and reports whether this process is the single
/// running instance. The caller keeps the lock alive for the process
/// lifetime; if this returns `true` it starts the listener, otherwise it
/// forwards its invocation to the owner and exits.
pub fn check_single_instance(namespace: &mut ObjectNamespace, channel: ReleaseChannel) -> (r: (
    InstanceLock,
    bool,
))
    ensures
        r.1 == r.0.spec_is_owner(),
        r.0.spec_identifier() == mutex_identifier(channel),
        acquire_transition(*old(namespace), *final(namespace), r.1, mutex_identifier(channel)),
{
    let lock = InstanceLock::acquire(namespace, channel);
    let is_owner = lock.is_owner();
    (lock, is_owner)
}

/// Mutual exclusion: of any two processes that acquire the instance lock of
/// the same channel in sequence, starting from a namespace in which the
/// channel's mutex does not exist yet, exactly the first is owner.
pub proof fn lemma_exactly_one_owner(
    ns0: ObjectNamespace,
    ns1: ObjectNamespace,
    ns2: ObjectNamespace,
    owner1: bool,
    owner2: bool,
    channel: ReleaseChannel,
)
    requires
        !ns0.has_name(mutex_identifier(channel)),
        acquire_transition(ns0, ns1, owner1, mutex_identifier(channel)),
        acquire_transition(ns1, ns2, owner2, mutex_identifier(channel)),
    ensures
        owner1,
        !owner2,
{
}

/// Once some process holds the channel's mutex, no later acquisition of the
/// same channel reports ownership, whatever the namespace held before.
pub proof fn lemma_late_comer_not_owner(
    ns0: ObjectNamespace,
    ns1: ObjectNamespace,
    ns2: ObjectNamespace,
    owner1: bool,
    owner2: bool,
    channel: ReleaseChannel,
)
    requires
        acquire_transition(ns0, ns1, owner1, mutex_identifier(channel)),
        acquire_transition(ns1, ns2, owner2, mutex_identifier(channel)),
    ensures
        !owner2,
{
}

/// Independence of channels: processes of two distinct release channels never
/// contend for the same lock — launched in sequence against a namespace that
/// holds neither mutex, both become owner.
pub proof fn lemma_distinct_channels_both_owner(
    ns0: ObjectNamespace,
    ns1: ObjectNamespace,
    ns2: ObjectNamespace,
    owner1: bool,
    owner2: bool,
    channel1: ReleaseChannel,
    channel2: ReleaseChannel,
)
    requires
        channel1 != channel2,
        !ns0.has_name(mutex_identifier(channel1)),
        !ns0.has_name(mutex_identifier(channel2)),
        acquire_transition(ns0, ns1, owner1, mutex_identifier(channel1)),
        acquire_transition(ns1, ns2, owner2, mutex_identifier(channel2)),
    ensures
        owner1,
        owner2,
{
    lemma_identifier_distinct_channels(channel1, channel2, "Instance-Mutex"@);
}

} // verus!
