//! Registry of the conditional-disaggregation feature.

use super::features::{invalid, mismatched, FeatureError};
use super::protocol::{
    ConditionalDisaggInstancesResponse, ConditionalDisaggRole, Feature, FeatureKey,
};
use crate::common::InstanceId;
use crate::engine::instance::HandleId;
use crate::identity::uuid_text;
use std::collections::{HashMap, HashSet};
use vstd::prelude::*;

verus! {

broadcast use vstd::std_specs::hash::group_hash_axioms;

/// Which instances take part, in which role, and the queue between them.
pub struct ConditionalDisaggManager {
    prefill: HashSet<u128>,
    decode: HashSet<u128>,
    by_instance: HashMap<u128, ConditionalDisaggRole>,
    queue_capacity: Option<usize>,
    dispatcher: Option<HandleId>,
    velo: Option<HandleId>,
    queue_backend: Option<HandleId>,
}

/// The registry as the contracts see it.
#[verifier::ext_equal]
pub struct ConditionalDisaggView {
    /// Role of every registered instance, by the bits of its id.
    pub roles: Map<u128, ConditionalDisaggRole>,
    /// Bound on the depth of the queue; none if it is unbounded.
    pub queue_capacity: Option<usize>,
    /// Consumer of the queue.
    pub dispatcher: Option<HandleId>,
    /// The hub's messaging node.
    pub velo: Option<HandleId>,
    /// The queue's backend.
    pub queue_backend: Option<HandleId>,
}

impl ConditionalDisaggView {
    /// What registering an instance comes to.
    pub open spec fn registers(
        self,
        id: InstanceId,
        feature: Feature,
        after: Self,
        outcome: Result<(), FeatureError>,
    ) -> bool {
        match feature {
            Feature::ConditionalDisagg(config) => if self.roles.contains_key(id.bits) {
                &&& after == self
                &&& outcome is Ok <==> self.roles[id.bits] == config.role
            } else {
                &&& outcome is Ok
                &&& after == (ConditionalDisaggView {
                    roles: self.roles.insert(id.bits, config.role),
                    ..self
                })
            },
            _ => outcome is Err && after == self,
        }
    }

    /// The registry without an instance.
    pub open spec fn unregistered(self, id: InstanceId) -> Self {
        ConditionalDisaggView { roles: self.roles.remove(id.bits), ..self }
    }

    /// What handing over the hub's messaging node comes to.
    pub open spec fn attaches(
        self,
        velo: Option<HandleId>,
        queue: Result<HandleId, String>,
        after: Self,
        start: Result<Option<HandleId>, FeatureError>,
    ) -> bool {
        match (velo, queue) {
            (None, _) => start == Ok::<Option<HandleId>, FeatureError>(None) && after == self,
            (Some(_), Err(_)) => start is Err && after == self,
            (Some(node), Ok(backend)) => {
                &&& start == Ok::<Option<HandleId>, FeatureError>(self.dispatcher)
                &&& after == (ConditionalDisaggView {
                    velo: if self.velo is Some {
                        self.velo
                    } else {
                        Some(node)
                    },
                    queue_backend: if self.queue_backend is Some {
                        self.queue_backend
                    } else {
                        Some(backend)
                    },
                    ..self
                })
            },
        }
    }
}

/// The instances that hold a role.
pub open spec fn holders(
    roles: Map<u128, ConditionalDisaggRole>,
    role: ConditionalDisaggRole,
) -> Set<u128> {
    Set::new(|bits: u128| roles.dom().contains(bits) && roles[bits] == role)
}

/// Ids in strictly ascending order.
pub open spec fn ascending(ids: Seq<InstanceId>) -> bool {
    forall|i: int, j: int| 0 <= i < j < ids.len() ==> ids[i].bits < ids[j].bits
}

/// The list holds an id.
pub open spec fn listed(ids: Seq<InstanceId>, bits: u128) -> bool {
    exists|i: int| 0 <= i < ids.len() && (#[trigger] ids[i]).bits == bits
}

/// The list holds exactly a set of ids, in ascending order.
pub open spec fn lists(ids: Seq<InstanceId>, members: Set<u128>) -> bool {
    &&& ascending(ids)
    &&& forall|bits: u128| #[trigger] members.contains(bits) <==> listed(ids, bits)
}

/// What a registration with the other role reads as.
pub open spec fn role_switch_text(
    id: InstanceId,
    prior: ConditionalDisaggRole,
    role: ConditionalDisaggRole,
) -> Seq<char> {
    "instance "@ + uuid_text(id.bits) + " already registered as "@ + prior.text()
        + ", cannot switch to "@ + role.text()
}

/// Builds what a registration with the other role reads as.
fn role_switch_message(
    id: InstanceId,
    prior: ConditionalDisaggRole,
    role: ConditionalDisaggRole,
) -> (message: String)
    ensures
        message@ == role_switch_text(id, prior, role),
{
    let mut message = String::from_str("instance ");
    message.append(id.to_text().as_str());
    message.append(" already registered as ");
    message.append(prior.name());
    message.append(", cannot switch to ");
    message.append(role.name());
    message
}

/// Puts an id at its place in an ascending list that does not hold it.
fn insert_ascending(ids: &mut Vec<InstanceId>, id: InstanceId)
    requires
        ascending(old(ids)@),
        !listed(old(ids)@, id.bits),
    ensures
        ascending(final(ids)@),
        forall|bits: u128|
            #[trigger] listed(final(ids)@, bits) <==> bits == id.bits || listed(old(ids)@, bits),
{
    let ghost before = ids@;
    let mut place: usize = 0;
    while place < ids.len() && ids[place].bits < id.bits
        invariant
            place <= ids.len(),
            ids@ == before,
            forall|j: int| 0 <= j < place ==> (#[trigger] before[j]).bits < id.bits,
        decreases ids.len() - place,
    {
        place += 1;
    }
    assert(forall|j: int| place <= j < before.len() ==> id.bits < (#[trigger] before[j]).bits) by {
        if place < before.len() {
            assert(before[place as int].bits != id.bits);
        }
    }
    ids.insert(place, id);
    proof {
        let after = ids@;
        assert(forall|j: int| 0 <= j < place ==> #[trigger] after[j] == before[j]);
        assert(forall|j: int| place < j < after.len() ==> #[trigger] after[j] == before[j - 1]);
        assert forall|bits: u128| #[trigger]
            listed(after, bits) <==> bits == id.bits || listed(before, bits) by {
            if listed(before, bits) {
                let j = choose|j: int| 0 <= j < before.len() && (#[trigger] before[j]).bits == bits;
                if j < place {
                    assert(after[j].bits == bits);
                } else {
                    assert(after[j + 1].bits == bits);
                }
            }
            if bits == id.bits {
                assert(after[place as int].bits == bits);
            }
            if listed(after, bits) {
                let j = choose|j: int| 0 <= j < after.len() && (#[trigger] after[j]).bits == bits;
                if j < place {
                    assert(before[j].bits == bits);
                } else if j > place {
                    assert(before[j - 1].bits == bits);
                }
            }
        }
    }
}

/// A list that holds every key of a set holds exactly the set.
proof fn lemma_keys_cover(keys: Seq<&u128>, ids: Seq<InstanceId>, members: Set<u128>)
    requires
        keys.unref().to_set() == members,
    ensures
        (forall|bits: u128| #[trigger]
            listed(ids, bits) <==> (exists|i: int|
                0 <= i < keys.len() && *(#[trigger] keys[i]) == bits)) ==> forall|bits: u128|
            #[trigger] members.contains(bits) <==> listed(ids, bits),
{
    let plain = keys.unref();
    assert forall|bits: u128| #[trigger] members.contains(bits) <==> (exists|i: int|
        0 <= i < keys.len() && *(#[trigger] keys[i]) == bits) by {
        if members.contains(bits) {
            assert(plain.contains(bits));
            let i = plain.index_of(bits);
            assert(*keys[i] == bits);
        }
        if exists|i: int| 0 <= i < keys.len() && *(#[trigger] keys[i]) == bits {
            let i = choose|i: int| 0 <= i < keys.len() && *(#[trigger] keys[i]) == bits;
            assert(plain[i] == bits);
            assert(plain.contains(bits));
        }
    }
}

/// Lists a set of ids in ascending order.
fn list_ascending(members: &HashSet<u128>) -> (ids: Vec<InstanceId>)
    ensures
        lists(ids@, members@),
{
    let mut ids: Vec<InstanceId> = Vec::new();
    let ghost all = members@;
    proof {
        assert(forall|bits: u128| !#[trigger] listed(ids@, bits));
    }
    for key in iter: members.iter()
        invariant
            all == members@,
            iter.seq().unref().to_set() == all,
            iter.seq().no_duplicates(),
            ascending(ids@),
            forall|bits: u128| #[trigger]
                listed(ids@, bits) <==> (exists|i: int|
                    0 <= i < iter.index() && *(#[trigger] iter.seq()[i]) == bits),
            iter.index() == iter.seq().len() ==> lists(ids@, all),
    {
        let ghost done = iter.index();
        let ghost keys = iter.seq();
        assert(*key == *keys[done]);
        assert(!listed(ids@, *key));
        let ghost before = ids@;
        insert_ascending(&mut ids, InstanceId { bits: *key });
        assert forall|bits: u128| #[trigger] listed(ids@, bits) <==> (exists|i: int|
            0 <= i < done + 1 && *(#[trigger] keys[i]) == bits) by {
            if bits == *key {
                assert(*keys[done] == bits);
            }
            if listed(before, bits) {
                let i = choose|i: int| 0 <= i < done && *(#[trigger] keys[i]) == bits;
                assert(*keys[i] == bits);
            }
        }
        proof {
            lemma_keys_cover(keys, ids@, all);
        }
    }
    ids
}

impl ConditionalDisaggManager {
    /// The registry as the contracts see it.
    pub closed spec fn view(&self) -> ConditionalDisaggView {
        ConditionalDisaggView {
            roles: self.by_instance@,
            queue_capacity: self.queue_capacity,
            dispatcher: self.dispatcher,
            velo: self.velo,
            queue_backend: self.queue_backend,
        }
    }

    /// The two role sets agree with the role of each instance.
    pub closed spec fn wf(&self) -> bool {
        &&& self.prefill@ == holders(self.by_instance@, ConditionalDisaggRole::Prefill)
        &&& self.decode@ == holders(self.by_instance@, ConditionalDisaggRole::Decode)
    }

    /// An empty registry with an unbounded queue.
    pub fn new() -> (manager: Self)
        ensures
            manager.wf(),
            manager@.roles.dom() == Set::<u128>::empty(),
            manager@.queue_capacity is None,
            manager@.dispatcher is None,
            manager@.velo is None,
            manager@.queue_backend is None,
    {
        Self::with_queue_capacity(None)
    }

    /// An empty registry with a bound on the queue.
    pub fn with_queue_capacity(capacity: Option<usize>) -> (manager: Self)
        ensures
            manager.wf(),
            manager@.roles.dom() == Set::<u128>::empty(),
            manager@.queue_capacity == capacity,
            manager@.dispatcher is None,
            manager@.velo is None,
            manager@.queue_backend is None,
    {
        let manager = ConditionalDisaggManager {
            prefill: HashSet::new(),
            decode: HashSet::new(),
            by_instance: HashMap::new(),
            queue_capacity: capacity,
            dispatcher: None,
            velo: None,
            queue_backend: None,
        };
        proof {
            assert(manager.prefill@ =~= holders(
                manager.by_instance@,
                ConditionalDisaggRole::Prefill,
            ));
            assert(manager.decode@ =~= holders(manager.by_instance@, ConditionalDisaggRole::Decode));
        }
        manager
    }

    /// Installs the consumer of the queue.
    pub fn with_dispatcher(self, dispatcher: HandleId) -> (manager: Self)
        requires
            self.wf(),
        ensures
            manager.wf(),
            manager@ == (ConditionalDisaggView { dispatcher: Some(dispatcher), ..self@ }),
    {
        let mut manager = self;
        manager.dispatcher = Some(dispatcher);
        manager
    }

    /// The kind of feature this registry serves.
    pub fn key(&self) -> (key: FeatureKey)
        ensures
            key == FeatureKey::ConditionalDisagg,
    {
        FeatureKey::ConditionalDisagg
    }

    /// The role split, each list in ascending order of id.
    pub fn snapshot(&self) -> (response: ConditionalDisaggInstancesResponse)
        requires
            self.wf(),
        ensures
            lists(response.prefill@, holders(self@.roles, ConditionalDisaggRole::Prefill)),
            lists(response.decode@, holders(self@.roles, ConditionalDisaggRole::Decode)),
    {
        ConditionalDisaggInstancesResponse {
            prefill: list_ascending(&self.prefill),
            decode: list_ascending(&self.decode),
        }
    }

    /// The messaging node stored by `attach`, if any.
    pub fn velo_handle(&self) -> (handle: Option<HandleId>)
        ensures
            handle == self@.velo,
    {
        self.velo
    }

    /// The queue's backend, if the hub has a messaging node.
    pub fn queue_backend(&self) -> (handle: Option<HandleId>)
        ensures
            handle == self@.queue_backend,
    {
        self.queue_backend
    }

    /// Takes over the hub's messaging node and the queue that was opened on
    /// it. `queue` is what opening the queue came to; it is not read where the
    /// hub has no messaging node. Answers with the consumer to start.
    ///
    /// A handle that was stored before stays.
    pub fn attach(
        &mut self,
        velo: Option<HandleId>,
        queue: Result<HandleId, String>,
    ) -> (start: Result<Option<HandleId>, FeatureError>)
        requires
            old(self).wf(),
        ensures
            final(self).wf(),
            old(self)@.attaches(velo, queue, final(self)@, start),
            match (velo, queue) {
                (None, _) => start == Ok::<Option<HandleId>, FeatureError>(None) && final(self)@
                    == old(self)@,
                (Some(_), Err(reason)) => {
                    &&& start matches Err(FeatureError::Other(text)) && text@ == "CD queue init: "@
                        + reason@
                    &&& final(self)@ == old(self)@
                },
                (Some(node), Ok(backend)) => {
                    &&& start == Ok::<Option<HandleId>, FeatureError>(old(self)@.dispatcher)
                    &&& final(self)@ == (ConditionalDisaggView {
                        velo: if old(self)@.velo is Some {
                            old(self)@.velo
                        } else {
                            Some(node)
                        },
                        queue_backend: if old(self)@.queue_backend is Some {
                            old(self)@.queue_backend
                        } else {
                            Some(backend)
                        },
                        ..old(self)@
                    })
                },
            },
    {
        let node = match velo {
            None => {
                return Ok(None);
            },
            Some(node) => node,
        };
        let backend = match queue {
            Err(reason) => {
                let mut text = String::from_str("CD queue init: ");
                text.append(reason.as_str());
                return Err(FeatureError::Other(text));
            },
            Ok(backend) => backend,
        };
        if self.queue_backend.is_none() {
            self.queue_backend = Some(backend);
        }
        if self.velo.is_none() {
            self.velo = Some(node);
        }
        Ok(self.dispatcher)
    }

    /// Registers an instance under the role it declares. The same role again
    /// changes nothing; another role is refused.
    pub fn on_register(&mut self, instance_id: InstanceId, feature: &Feature) -> (outcome: Result<
        (),
        FeatureError,
    >)
        requires
            old(self).wf(),
        ensures
            final(self).wf(),
            old(self)@.registers(instance_id, *feature, final(self)@, outcome),
            match *feature {
                Feature::ConditionalDisagg(config) => if old(self)@.roles.dom().contains(
                    instance_id.bits,
                ) {
                    &&& final(self)@ == old(self)@
                    &&& old(self)@.roles[instance_id.bits] == config.role ==> outcome is Ok
                    &&& old(self)@.roles[instance_id.bits] != config.role ==> invalid(
                        outcome,
                        role_switch_text(
                            instance_id,
                            old(self)@.roles[instance_id.bits],
                            config.role,
                        ),
                    )
                } else {
                    &&& outcome is Ok
                    &&& final(self)@ == (ConditionalDisaggView {
                        roles: old(self)@.roles.insert(instance_id.bits, config.role),
                        ..old(self)@
                    })
                },
                _ => {
                    &&& mismatched(outcome, FeatureKey::ConditionalDisagg, feature.kind())
                    &&& final(self)@ == old(self)@
                },
            },
    {
        let role = match feature {
            Feature::ConditionalDisagg(config) => config.role,
            _ => {
                return Err(
                    FeatureError::KeyMismatch {
                        manager: FeatureKey::ConditionalDisagg,
                        payload: feature.key(),
                    },
                );
            },
        };
        if let Some(prior) = self.by_instance.get(&instance_id.bits) {
            if *prior != role {
                return Err(
                    FeatureError::InvalidConfig(role_switch_message(instance_id, *prior, role)),
                );
            }
            return Ok(());
        }
        self.by_instance.insert(instance_id.bits, role);
        match role {
            ConditionalDisaggRole::Prefill => {
                self.prefill.insert(instance_id.bits);
            },
            ConditionalDisaggRole::Decode => {
                self.decode.insert(instance_id.bits);
            },
        }
        proof {
            assert(self.prefill@ =~= holders(self.by_instance@, ConditionalDisaggRole::Prefill));
            assert(self.decode@ =~= holders(self.by_instance@, ConditionalDisaggRole::Decode));
        }
        Ok(())
    }

    /// Forgets an instance; one that is not registered changes nothing.
    pub fn on_unregister(&mut self, instance_id: InstanceId)
        requires
            old(self).wf(),
        ensures
            final(self).wf(),
            final(self)@ == old(self)@.unregistered(instance_id),
            final(self)@ == (ConditionalDisaggView {
                roles: old(self)@.roles.remove(instance_id.bits),
                ..old(self)@
            }),
    {
        let prior = self.by_instance.remove(&instance_id.bits);
        match prior {
            Some(ConditionalDisaggRole::Prefill) => {
                self.prefill.remove(&instance_id.bits);
            },
            Some(ConditionalDisaggRole::Decode) => {
                self.decode.remove(&instance_id.bits);
            },
            None => {},
        }
        proof {
            assert(self.by_instance@ =~= old(self).by_instance@.remove(instance_id.bits));
            assert(self.prefill@ =~= holders(self.by_instance@, ConditionalDisaggRole::Prefill));
            assert(self.decode@ =~= holders(self.by_instance@, ConditionalDisaggRole::Decode));
        }
    }
}

impl Default for ConditionalDisaggManager {
    fn default() -> (manager: Self)
        ensures
            manager.wf(),
            manager@.roles.dom() == Set::<u128>::empty(),
            manager@.queue_capacity is None,
            manager@.dispatcher is None,
            manager@.velo is None,
            manager@.queue_backend is None,
    {
        Self::new()
    }
}

/// No instance holds both roles, and every registered instance holds one.
pub proof fn law_roles_partition_instances(roles: Map<u128, ConditionalDisaggRole>)
    ensures
        holders(roles, ConditionalDisaggRole::Prefill).disjoint(
            holders(roles, ConditionalDisaggRole::Decode),
        ),
        holders(roles, ConditionalDisaggRole::Prefill).union(
            holders(roles, ConditionalDisaggRole::Decode),
        ) == roles.dom(),
{
    assert(holders(roles, ConditionalDisaggRole::Prefill).union(
        holders(roles, ConditionalDisaggRole::Decode),
    ) =~= roles.dom());
}

/// The listing of a set is unique: two snapshots of one state are equal, in
/// whatever order the instances came.
pub proof fn law_snapshot_is_deterministic(
    first: Seq<InstanceId>,
    second: Seq<InstanceId>,
    members: Set<u128>,
)
    requires
        lists(first, members),
        lists(second, members),
    ensures
        first == second,
    decreases first.len(),
{
    if first.len() == 0 {
        if second.len() > 0 {
            assert(listed(second, second[0].bits));
            assert(members.contains(second[0].bits));
        }
        assert(first =~= second);
    } else {
        let top = first.last();
        assert(first[first.len() - 1].bits == top.bits);
        assert(listed(first, top.bits));
        assert(members.contains(top.bits));
        assert(listed(second, top.bits));
        let at = choose|j: int| 0 <= j < second.len() && (#[trigger] second[j]).bits == top.bits;
        let peak = second.last();
        assert(listed(second, peak.bits));
        assert(members.contains(peak.bits));
        assert(listed(first, peak.bits));
        let there = choose|j: int| 0 <= j < first.len() && (#[trigger] first[j]).bits == peak.bits;
        assert(top.bits <= peak.bits);
        assert(peak.bits <= top.bits);
        assert(top == peak);
        let rest = members.remove(top.bits);
        lemma_lists_drop_last(first, members);
        lemma_lists_drop_last(second, members);
        law_snapshot_is_deterministic(first.drop_last(), second.drop_last(), rest);
        assert(first =~= first.drop_last().push(top));
        assert(second =~= second.drop_last().push(peak));
    }
}

/// Without its last id a list holds all the others.
proof fn lemma_lists_drop_last(ids: Seq<InstanceId>, members: Set<u128>)
    requires
        lists(ids, members),
        ids.len() > 0,
    ensures
        lists(ids.drop_last(), members.remove(ids.last().bits)),
{
    let shorter = ids.drop_last();
    let rest = members.remove(ids.last().bits);
    assert forall|bits: u128| #[trigger] rest.contains(bits) <==> listed(shorter, bits) by {
        if rest.contains(bits) {
            assert(members.contains(bits));
            let j = choose|j: int| 0 <= j < ids.len() && (#[trigger] ids[j]).bits == bits;
            assert(shorter[j].bits == bits);
        }
        if listed(shorter, bits) {
            let j = choose|j: int| 0 <= j < shorter.len() && (#[trigger] shorter[j]).bits == bits;
            assert(ids[j].bits == bits);
            assert(ids[j].bits < ids[ids.len() - 1].bits);
            assert(listed(ids, bits));
            assert(members.contains(bits));
        }
    }
}

/// Leaving twice is the same as leaving once.
pub proof fn law_unregister_is_idempotent(roles: Map<u128, ConditionalDisaggRole>, id: InstanceId)
    ensures
        roles.remove(id.bits).remove(id.bits) == roles.remove(id.bits),
        !roles.dom().contains(id.bits) ==> roles.remove(id.bits) == roles,
{
    assert(roles.remove(id.bits).remove(id.bits) =~= roles.remove(id.bits));
    if !roles.dom().contains(id.bits) {
        assert(roles.remove(id.bits) =~= roles);
    }
}

/// An instance that registers and leaves again leaves no trace.
pub proof fn law_unregister_undoes_register(
    roles: Map<u128, ConditionalDisaggRole>,
    id: InstanceId,
    role: ConditionalDisaggRole,
)
    requires
        !roles.dom().contains(id.bits),
    ensures
        roles.insert(id.bits, role).remove(id.bits) == roles,
{
    assert(roles.insert(id.bits, role).remove(id.bits) =~= roles);
}

/// An instance holds the role it registered with and keeps it: it registers
/// exactly if it holds no role or the same one, a refusal changes nothing, and
/// nobody else is touched. Other features are not registered here.
pub proof fn law_registration_sticks(
    before: ConditionalDisaggView,
    id: InstanceId,
    feature: Feature,
    after: ConditionalDisaggView,
    outcome: Result<(), FeatureError>,
    other: u128,
)
    requires
        before.registers(id, feature, after, outcome),
    ensures
        feature matches Feature::ConditionalDisagg(config) ==> {
            &&& outcome is Ok <==> !before.roles.contains_key(id.bits) || before.roles[id.bits]
                == config.role
            &&& outcome is Ok ==> after.roles.contains_pair(id.bits, config.role)
        },
        feature is P2P ==> outcome is Err,
        outcome is Err ==> after == before,
        other != id.bits ==> after.roles.contains_key(other) == before.roles.contains_key(other)
            && (before.roles.contains_key(other) ==> after.roles[other] == before.roles[other]),
        after.velo == before.velo,
        after.queue_backend == before.queue_backend,
        after.dispatcher == before.dispatcher,
{
}

/// An instance that leaves holds no role any more, may come back in any role,
/// and takes nobody with it.
pub proof fn law_leaving_frees_the_role(
    before: ConditionalDisaggView,
    id: InstanceId,
    role: ConditionalDisaggRole,
    after: ConditionalDisaggView,
    outcome: Result<(), FeatureError>,
    other: u128,
)
    requires
        before.unregistered(id).registers(
            id,
            Feature::ConditionalDisagg(super::protocol::ConditionalDisaggConfig { role }),
            after,
            outcome,
        ),
    ensures
        !before.unregistered(id).roles.contains_key(id.bits),
        outcome is Ok,
        after.roles.contains_pair(id.bits, role),
        other != id.bits ==> before.unregistered(id).roles.contains_key(other)
            == before.roles.contains_key(other) && (before.roles.contains_key(other)
            ==> before.unregistered(id).roles[other] == before.roles[other]),
        before.unregistered(id).unregistered(id) == before.unregistered(id),
        after.unregistered(id) == before.unregistered(id),
{
    assert(before.unregistered(id).unregistered(id) =~= before.unregistered(id));
    assert(after.unregistered(id) =~= before.unregistered(id));
}

/// A role's holders are the instances registered with it; a listing of them
/// names each once, in ascending order.
pub proof fn law_listing_names_each_holder_once(
    roles: Map<u128, ConditionalDisaggRole>,
    role: ConditionalDisaggRole,
    ids: Seq<InstanceId>,
    bits: u128,
)
    requires
        lists(ids, holders(roles, role)),
    ensures
        holders(roles, role).contains(bits) <==> roles.contains_key(bits) && roles[bits] == role,
        (exists|i: int| 0 <= i < ids.len() && (#[trigger] ids[i]).bits == bits)
            <==> roles.contains_key(bits) && roles[bits] == role,
        forall|i: int, j: int|
            0 <= i < j < ids.len() ==> (#[trigger] ids[i]).bits < (#[trigger] ids[j]).bits,
{
    assert(holders(roles, role).contains(bits) <==> listed(ids, bits));
}

/// A hub with a messaging node starts the installed consumer once the queue is
/// open, and keeps the first node and queue it was given. A queue that does not
/// open is an error and leaves everything as it was; without a node there is
/// nothing to start.
pub proof fn law_attached_handles_stay(
    before: ConditionalDisaggView,
    velo: Option<HandleId>,
    queue: Result<HandleId, String>,
    after: ConditionalDisaggView,
    start: Result<Option<HandleId>, FeatureError>,
)
    requires
        before.attaches(velo, queue, after, start),
    ensures
        start is Err <==> velo is Some && queue is Err,
        velo is None ==> start == Ok::<Option<HandleId>, FeatureError>(None) && after == before,
        start is Err ==> after == before,
        velo is Some && queue is Ok ==> start == Ok::<Option<HandleId>, FeatureError>(
            before.dispatcher,
        ) && after.velo is Some && after.queue_backend is Some,
        before.velo is Some ==> after.velo == before.velo,
        before.queue_backend is Some ==> after.queue_backend == before.queue_backend,
        before.velo is None && velo is Some && queue is Ok ==> after.velo == velo,
        before.queue_backend is None && velo is Some ==> (queue matches Ok(backend)
            ==> after.queue_backend == Some(backend)),
        after.roles == before.roles,
        after.dispatcher == before.dispatcher,
        after.queue_capacity == before.queue_capacity,
{
}

} // verus!
