//! Registry of the peer-to-peer feature.

use super::features::{invalid, mismatched, FeatureError};
use super::protocol::{Feature, FeatureKey, LayoutCompatPayload};
use crate::common::InstanceId;
use crate::identity::uuid_text;
use std::collections::HashSet;
use vstd::prelude::*;

verus! {

broadcast use vstd::std_specs::hash::group_hash_axioms;

/// Which instances take part, and the layout they agreed on.
///
/// The first payload that is consistent in itself becomes the baseline; later
/// ones are compared with it. The baseline goes with the last instance, so
/// that a new group can choose another layout.
pub struct P2pManager {
    instances: HashSet<u128>,
    layout_baseline: Option<LayoutCompatPayload>,
}

/// The registry as the contracts see it.
#[verifier::ext_equal]
pub struct P2pView {
    /// Registered instances, by the bits of their ids.
    pub instances: Set<u128>,
    /// The layout every registered instance agrees with.
    pub baseline: Option<LayoutCompatPayload>,
}

/// The comparison that decides a registration.
#[derive(Debug)]
pub enum LayoutCheck {
    /// Nothing is compared: the instance was accepted before.
    Accepted,
    /// The payload has to be consistent in itself.
    WithItself,
    /// The payload has to agree with the baseline.
    WithBaseline(LayoutCompatPayload),
}

impl P2pView {
    /// What registering an instance comes to, if `verdict` is what the
    /// comparison that the registry asked for came to.
    pub open spec fn registers(
        self,
        id: InstanceId,
        feature: Feature,
        verdict: Result<(), String>,
        after: Self,
        outcome: Result<(), FeatureError>,
    ) -> bool {
        match feature {
            Feature::P2P(config) => if self.instances.contains(id.bits) {
                outcome is Ok && after == self
            } else if verdict is Err {
                outcome is Err && after == self
            } else {
                &&& outcome is Ok
                &&& after.instances == self.instances.insert(id.bits)
                &&& after.baseline == (if self.baseline is Some {
                    self.baseline
                } else {
                    Some(config.layout_compat)
                })
            },
            _ => outcome is Err && after == self,
        }
    }

    /// What judging a pushed description comes to, if `verdict` is what comparing
    /// it with the baseline came to.
    pub open spec fn judges(
        self,
        verdict: Result<(), String>,
        outcome: Result<(), FeatureError>,
    ) -> bool {
        outcome is Ok <==> self.baseline is Some && verdict is Ok
    }

    /// What the departure of an instance comes to.
    pub open spec fn leaves(self, id: InstanceId, after: Self) -> bool {
        &&& after.instances == self.instances.remove(id.bits)
        &&& after.baseline == (if after.instances.len() == 0 {
            None
        } else {
            self.baseline
        })
    }
}

/// The comparison that a state asks for.
pub open spec fn required_check(state: P2pView, id: InstanceId) -> LayoutCheck {
    if state.instances.contains(id.bits) {
        LayoutCheck::Accepted
    } else {
        match state.baseline {
            None => LayoutCheck::WithItself,
            Some(baseline) => LayoutCheck::WithBaseline(baseline),
        }
    }
}

/// What a payload that contradicts itself reads as.
pub open spec fn inconsistent_text(id: InstanceId, reason: Seq<char>) -> Seq<char> {
    "P2P layout_compat payload from instance "@ + uuid_text(id.bits)
        + " is internally inconsistent: "@ + reason
}

/// What a payload that contradicts the baseline reads as.
pub open spec fn incompatible_text(id: InstanceId, reason: Seq<char>) -> Seq<char> {
    "P2P layout_compat incompatibility for instance "@ + uuid_text(id.bits) + ": "@ + reason
}

/// What a description without a baseline reads as.
pub open spec fn no_baseline_text(id: InstanceId) -> Seq<char> {
    "describe for instance "@ + uuid_text(id.bits)
        + " carries layout_compat but this instance has no P2P baseline (describe before register, or hub restarted without re-register?)"@
}

/// What a description that contradicts the baseline reads as.
pub open spec fn diverging_text(id: InstanceId, reason: Seq<char>) -> Seq<char> {
    "describe-push layout_compat for "@ + uuid_text(id.bits) + " diverges from P2P baseline: "@
        + reason
}

/// Joins a refusal about an instance from its parts.
fn refusal(head: &str, id: InstanceId, middle: &str, reason: &str) -> (error: FeatureError)
    ensures
        error matches FeatureError::InvalidConfig(text) && text@ == head@ + uuid_text(id.bits)
            + middle@ + reason@,
{
    let mut text = String::from_str(head);
    text.append(id.to_text().as_str());
    text.append(middle);
    text.append(reason);
    FeatureError::InvalidConfig(text)
}

impl P2pManager {
    /// The registry as the contracts see it.
    pub closed spec fn view(&self) -> P2pView {
        P2pView { instances: self.instances@, baseline: self.layout_baseline }
    }

    /// A baseline stands exactly as long as an instance is registered.
    pub open spec fn wf(&self) -> bool {
        &&& self@.instances.finite()
        &&& self@.baseline is Some <==> self@.instances.len() > 0
    }

    /// An empty registry without a baseline.
    pub fn new() -> (manager: Self)
        ensures
            manager.wf(),
            manager@.instances == Set::<u128>::empty(),
            manager@.baseline is None,
    {
        P2pManager { instances: HashSet::new(), layout_baseline: None }
    }

    /// The kind of feature this registry serves.
    pub fn key(&self) -> (key: FeatureKey)
        ensures
            key == FeatureKey::P2P,
    {
        FeatureKey::P2P
    }

    /// Number of registered instances.
    pub fn instance_count(&self) -> (count: usize)
        ensures
            count == self@.instances.len(),
    {
        self.instances.len()
    }

    /// Whether a baseline stands.
    pub fn has_baseline(&self) -> (present: bool)
        ensures
            present == (self@.baseline is Some),
    {
        self.layout_baseline.is_some()
    }

    /// The comparison that decides a registration of the instance.
    pub fn layout_check(&self, instance_id: InstanceId) -> (check: LayoutCheck)
        ensures
            check == required_check(self@, instance_id),
    {
        if self.instances.contains(&instance_id.bits) {
            return LayoutCheck::Accepted;
        }
        match self.layout_baseline {
            None => LayoutCheck::WithItself,
            Some(baseline) => LayoutCheck::WithBaseline(baseline),
        }
    }

    /// The layout that a pushed description is compared with.
    pub fn describe_baseline(&self) -> (baseline: Option<LayoutCompatPayload>)
        ensures
            baseline == self@.baseline,
    {
        self.layout_baseline
    }

    /// Judges a pushed description. `verdict` is what comparing its layout
    /// with `describe_baseline` came to; it is not read where no baseline stands.
    pub fn check_describe_layout(
        &self,
        instance_id: InstanceId,
        verdict: Result<(), String>,
    ) -> (outcome: Result<(), FeatureError>)
        ensures
            self@.judges(verdict, outcome),
            self@.baseline is None ==> invalid(outcome, no_baseline_text(instance_id)),
            self@.baseline is Some ==> match verdict {
                Ok(_) => outcome is Ok,
                Err(reason) => invalid(outcome, diverging_text(instance_id, reason@)),
            },
    {
        if self.layout_baseline.is_none() {
            let error = refusal(
                "describe for instance ",
                instance_id,
                " carries layout_compat but this instance has no P2P baseline (describe before register, or hub restarted without re-register?)",
                "",
            );
            proof {
                reveal_strlit("");
                assert(no_baseline_text(instance_id) + ""@ =~= no_baseline_text(instance_id));
            }
            return Err(error);
        }
        match verdict {
            Ok(_) => Ok(()),
            Err(reason) => Err(
                refusal(
                    "describe-push layout_compat for ",
                    instance_id,
                    " diverges from P2P baseline: ",
                    reason.as_str(),
                ),
            ),
        }
    }

    /// Registers an instance. `verdict` is what the comparison named by
    /// `layout_check` came to; it is not read for an instance that was
    /// accepted before.
    pub fn on_register(
        &mut self,
        instance_id: InstanceId,
        feature: &Feature,
        verdict: Result<(), String>,
    ) -> (outcome: Result<(), FeatureError>)
        requires
            old(self).wf(),
        ensures
            final(self).wf(),
            old(self)@.registers(instance_id, *feature, verdict, final(self)@, outcome),
            match *feature {
                Feature::P2P(config) => match (required_check(old(self)@, instance_id), verdict) {
                    (LayoutCheck::Accepted, _) => outcome is Ok && final(self)@ == old(self)@,
                    (LayoutCheck::WithItself, Ok(_)) => outcome is Ok && final(self)@ == (P2pView {
                        instances: old(self)@.instances.insert(instance_id.bits),
                        baseline: Some(config.layout_compat),
                    }),
                    (LayoutCheck::WithItself, Err(reason)) => invalid(
                        outcome,
                        inconsistent_text(instance_id, reason@),
                    ) && final(self)@ == old(self)@,
                    (LayoutCheck::WithBaseline(_), Ok(_)) => outcome is Ok && final(self)@ == (
                    P2pView {
                        instances: old(self)@.instances.insert(instance_id.bits),
                        ..old(self)@
                    }),
                    (LayoutCheck::WithBaseline(_), Err(reason)) => invalid(
                        outcome,
                        incompatible_text(instance_id, reason@),
                    ) && final(self)@ == old(self)@,
                },
                _ => mismatched(outcome, FeatureKey::P2P, feature.kind()) && final(self)@ == old(
                    self,
                )@,
            },
    {
        let candidate = match feature {
            Feature::P2P(config) => config.layout_compat,
            _ => {
                return Err(
                    FeatureError::KeyMismatch {
                        manager: FeatureKey::P2P,
                        payload: feature.key(),
                    },
                );
            },
        };
        match self.layout_check(instance_id) {
            LayoutCheck::Accepted => {
                return Ok(());
            },
            LayoutCheck::WithItself => {
                if let Err(reason) = verdict {
                    return Err(
                        refusal(
                            "P2P layout_compat payload from instance ",
                            instance_id,
                            " is internally inconsistent: ",
                            reason.as_str(),
                        ),
                    );
                }
                self.layout_baseline = Some(candidate);
            },
            LayoutCheck::WithBaseline(_) => {
                if let Err(reason) = verdict {
                    return Err(
                        refusal(
                            "P2P layout_compat incompatibility for instance ",
                            instance_id,
                            ": ",
                            reason.as_str(),
                        ),
                    );
                }
            },
        }
        self.instances.insert(instance_id.bits);
        Ok(())
    }

    /// Forgets an instance, and the baseline with the last one.
    pub fn on_unregister(&mut self, instance_id: InstanceId)
        requires
            old(self).wf(),
        ensures
            final(self).wf(),
            old(self)@.leaves(instance_id, final(self)@),
            final(self)@.instances == old(self)@.instances.remove(instance_id.bits),
            final(self)@.baseline == if final(self)@.instances.len() == 0 {
                None
            } else {
                old(self)@.baseline
            },
    {
        self.instances.remove(&instance_id.bits);
        proof {
            assert(self.instances@ =~= old(self)@.instances.remove(instance_id.bits));
        }
        if self.instances.is_empty() {
            self.layout_baseline = None;
        }
    }
}

impl Default for P2pManager {
    fn default() -> (manager: Self)
        ensures
            manager.wf(),
            manager@.instances == Set::<u128>::empty(),
            manager@.baseline is None,
    {
        Self::new()
    }
}

/// When the only instance of a group leaves, the next payload is judged by
/// itself again: a new group may choose another layout.
pub proof fn law_baseline_leaves_with_last(
    before: P2pManager,
    after: P2pManager,
    leaving: InstanceId,
    next: InstanceId,
)
    requires
        before.wf(),
        after.wf(),
        before@.instances == set![leaving.bits],
        after@.instances == before@.instances.remove(leaving.bits),
    ensures
        after@.baseline is None,
        required_check(after@, next) is WithItself,
{
    assert(after@.instances =~= Set::<u128>::empty());
}

/// While any instance stays, the baseline a newcomer is compared with stays.
pub proof fn law_baseline_outlives_departures(
    before: P2pManager,
    after: P2pManager,
    leaving: InstanceId,
    staying: InstanceId,
    next: InstanceId,
)
    requires
        before.wf(),
        before@.instances.contains(staying.bits),
        staying != leaving,
        !before@.instances.contains(next.bits),
        after@.instances == before@.instances.remove(leaving.bits),
        after@.baseline == if after@.instances.len() == 0 {
            None
        } else {
            before@.baseline
        },
    ensures
        required_check(after@, next) == required_check(before@, next),
{
    assert(after@.instances.contains(staying.bits));
    vstd::set_lib::lemma_set_empty_equivalency_len(after@.instances);
}

/// The first layout that is accepted becomes the baseline and stays it: a
/// newcomer registers exactly if the comparison found nothing wrong, an
/// instance that is known registers in any case, and a refusal changes nothing.
pub proof fn law_first_layout_is_the_baseline(
    before: P2pView,
    id: InstanceId,
    feature: Feature,
    verdict: Result<(), String>,
    after: P2pView,
    outcome: Result<(), FeatureError>,
    other: u128,
)
    requires
        before.registers(id, feature, verdict, after, outcome),
    ensures
        feature is P2P ==> (outcome is Ok <==> before.instances.contains(id.bits)
            || verdict is Ok),
        !(feature is P2P) ==> outcome is Err,
        outcome is Err ==> after == before,
        outcome is Ok ==> after.instances.contains(id.bits),
        before.instances.contains(id.bits) ==> after == before,
        before.baseline is Some ==> after.baseline == before.baseline,
        outcome is Ok && before.baseline is None && !before.instances.contains(id.bits) ==> (
        feature matches Feature::P2P(config) && after.baseline == Some(config.layout_compat)),
        other != id.bits ==> after.instances.contains(other) == before.instances.contains(other),
{
}

/// A departure takes one instance, and the baseline exactly with the last.
pub proof fn law_departure_takes_one(
    before: P2pView,
    id: InstanceId,
    after: P2pView,
    other: u128,
)
    requires
        before.instances.finite(),
        before.leaves(id, after),
    ensures
        !after.instances.contains(id.bits),
        other != id.bits ==> after.instances.contains(other) == before.instances.contains(other),
        after.instances.contains(other) ==> after.baseline == before.baseline,
        (forall|bits: u128| !#[trigger] after.instances.contains(bits)) ==> after.baseline is None,
{
    vstd::set_lib::lemma_set_empty_equivalency_len(after.instances);
    if forall|bits: u128| !#[trigger] after.instances.contains(bits) {
        assert(after.instances =~= Set::<u128>::empty());
    }
}

/// A known instance is compared with nothing, the first of a group with itself,
/// and everybody else with the baseline that stands.
pub proof fn law_newcomers_meet_the_baseline(state: P2pView, id: InstanceId)
    ensures
        state.instances.contains(id.bits) <==> required_check(state, id) is Accepted,
        !state.instances.contains(id.bits) && state.baseline is None <==> required_check(
            state,
            id,
        ) is WithItself,
        !state.instances.contains(id.bits) ==> (state.baseline matches Some(baseline)
            ==> required_check(state, id) == LayoutCheck::WithBaseline(baseline)),
{
}

/// A pushed description is accepted exactly if a baseline stands and the
/// description agrees with it.
pub proof fn law_description_needs_an_agreeing_baseline(
    state: P2pView,
    verdict: Result<(), String>,
    outcome: Result<(), FeatureError>,
)
    requires
        state.judges(verdict, outcome),
    ensures
        state.baseline is None ==> outcome is Err,
        verdict is Err ==> outcome is Err,
        state.baseline is Some && verdict is Ok ==> outcome is Ok,
{
}

} // verus!
