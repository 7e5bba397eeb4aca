//! Topology provisioning: topics and subscriptions are ensured before use —
//! queried, created only when absent, and never created twice. The broker
//! round trips (exists, create) are the caller's; this module holds the
//! decision rule and the model under which ensuring a name is idempotent.

use vstd::prelude::*;

verus! {

/// `names` contains `name`.
pub open spec fn has_name(names: Seq<String>, name: Seq<char>) -> bool {
    exists|i: int| 0 <= i < names.len() && names[i]@ == name
}

/// What ensuring a name leaves behind: the names unchanged when the name is
/// already present, the names extended by it otherwise.
pub open spec fn ensure_spec(names: Seq<String>, name: String) -> Seq<String> {
    if has_name(names, name@) {
        names
    } else {
        names.push(name)
    }
}

/// The provisioning decision for one name: create exactly when the
/// existence query came back negative.
pub fn needs_create(exists: bool) -> (b: bool)
    ensures
        b == !exists,
{
    !exists
}

/// The names known on the broker side, as provisioning sees them: a model
/// of the topic store or of the subscription store.
pub struct Topology {
    pub names: Vec<String>,
}

impl Topology {
    /// An empty topology.
    pub fn new() -> (t: Topology)
        ensures
            t.names@ =~= Seq::<String>::empty(),
    {
        Topology { names: Vec::new() }
    }

    /// Whether `name` is already provisioned.
    pub fn contains(&self, name: &String) -> (b: bool)
        ensures
            b == has_name(self.names@, name@),
    {
        let n = self.names.len();
        let mut k: usize = 0;
        while k < n
            invariant
                0 <= k <= n,
                n == self.names@.len(),
                forall|i: int| 0 <= i < k ==> self.names@[i]@ != name@,
            decreases n - k,
        {
            if self.names[k].eq(name) {
                return true;
            }
            k += 1;
        }
        false
    }

    /// Ensures `name` exists: a no-op when it is already present, a single
    /// creation otherwise. Returns whether anything was created, so a
    /// second call with the same name returns `false` and changes nothing.
    pub fn ensure_name(&mut self, name: String) -> (created: bool)
        ensures
            created == !has_name(old(self).names@, name@),
            final(self).names@ == ensure_spec(old(self).names@, name),
            has_name(final(self).names@, name@),
    {
        if self.contains(&name) {
            false
        } else {
            proof {
                let m = self.names@.push(name);
                assert(m[m.len() - 1]@ == name@);
            }
            self.names.push(name);
            true
        }
    }
}

/// Idempotent provisioning: ensuring a name twice leaves exactly what one
/// ensuring leaves — the second call creates nothing and changes nothing.
pub proof fn lemma_ensure_idempotent(names: Seq<String>, name: String)
    ensures
        has_name(ensure_spec(names, name), name@),
        ensure_spec(ensure_spec(names, name), name) == ensure_spec(names, name),
{
    let once = ensure_spec(names, name);
    if !has_name(names, name@) {
        assert(once[once.len() - 1]@ == name@);
    }
}

/// A subscription and the topic it was created on.
#[derive(Debug, PartialEq, Eq)]
pub struct SubscriptionBinding {
    pub name: String,
    pub topic: String,
}

/// `subs` contains a subscription called `name`.
pub open spec fn has_subscription(subs: Seq<SubscriptionBinding>, name: Seq<char>) -> bool {
    exists|i: int| 0 <= i < subs.len() && subs[i].name@ == name
}

/// The subscriptions known on the broker side, as provisioning sees them.
pub struct Subscriptions {
    pub entries: Vec<SubscriptionBinding>,
}

impl Subscriptions {
    /// No subscriptions yet.
    pub fn new() -> (s: Subscriptions)
        ensures
            s.entries@ =~= Seq::<SubscriptionBinding>::empty(),
    {
        Subscriptions { entries: Vec::new() }
    }

    /// Whether a subscription called `name` is already provisioned.
    pub fn contains(&self, name: &String) -> (b: bool)
        ensures
            b == has_subscription(self.entries@, name@),
    {
        let n = self.entries.len();
        let mut k: usize = 0;
        while k < n
            invariant
                0 <= k <= n,
                n == self.entries@.len(),
                forall|i: int| 0 <= i < k ==> self.entries@[i].name@ != name@,
            decreases n - k,
        {
            if self.entries[k].name.eq(name) {
                return true;
            }
            k += 1;
        }
        false
    }

    /// Ensures a subscription called `name` exists on `topic`: a no-op when
    /// the name is already present (whatever topic it was bound to), a
    /// single creation otherwise — the existence query goes by name, as the
    /// broker's does.
    pub fn ensure_subscription(&mut self, name: String, topic: String) -> (created: bool)
        ensures
            created == !has_subscription(old(self).entries@, name@),
            created ==> final(self).entries@ == old(self).entries@.push(
                (SubscriptionBinding { name, topic }),
            ),
            !created ==> final(self).entries@ == old(self).entries@,
            has_subscription(final(self).entries@, name@),
    {
        if self.contains(&name) {
            false
        } else {
            proof {
                let m = self.entries@.push(SubscriptionBinding { name, topic });
                assert(m[m.len() - 1].name@ == name@);
            }
            self.entries.push(SubscriptionBinding { name, topic });
            true
        }
    }
}

} // verus!
