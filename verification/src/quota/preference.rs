//! Which of two quota observations tells more.
use vstd::prelude::*;

use crate::models::codex::{opt_quota, with_normal_slots, CodexQuota, QuotaModel};
use crate::numbers::{clamp_percent, first_some, later_of, max_time, or_i64, within_percent};
use crate::quota::direct::{
    opt_observation, opt_observation_ref, DirectQuotaObservation, ObservationModel,
};

verus! {

/// When the later of a quota's windows resets.
pub open spec fn quota_reset(quota: QuotaModel) -> Option<i64> {
    later_of(quota.hourly_reset_time, quota.weekly_reset_time)
}

/// When the later of a quota's windows resets.
pub fn quota_reset_time_for_preservation(quota: &CodexQuota) -> (reset_time: Option<i64>)
    ensures
        reset_time == quota_reset(quota@),
{
    max_time(quota.hourly_reset_time, quota.weekly_reset_time)
}

/// What is left of a quota: the smaller of the percentages of its windows that are not absent,
/// each window being in the slot of its length.
pub open spec fn quota_remaining(quota: QuotaModel) -> Option<i32> {
    let normal = with_normal_slots(quota);
    let hourly = within_percent(normal.hourly_percentage);
    let weekly = within_percent(normal.weekly_percentage);
    match (normal.hourly_window_present != Some(false), normal.weekly_window_present != Some(false)) {
        (true, true) => Some(
            if hourly <= weekly {
                hourly
            } else {
                weekly
            },
        ),
        (true, false) => Some(hourly),
        (false, true) => Some(weekly),
        (false, false) => None,
    }
}

/// What is left of an optional quota.
pub open spec fn remaining_in(quota: Option<QuotaModel>) -> Option<i32> {
    match quota {
        Some(quota) => quota_remaining(quota),
        None => None,
    }
}

/// What is left of a quota.
pub fn quota_remaining_for_direct_observation(quota: &CodexQuota) -> (remaining: Option<i32>)
    ensures
        remaining == quota_remaining(quota@),
        remaining matches Some(remaining) ==> 0 <= remaining <= 100,
{
    let mut normal = quota.clone();
    normal.normalize_window_slots();
    let hourly = clamp_percent(normal.hourly_percentage);
    let weekly = clamp_percent(normal.weekly_percentage);
    let hourly_present = match normal.hourly_window_present {
        Some(present) => present,
        None => true,
    };
    let weekly_present = match normal.weekly_window_present {
        Some(present) => present,
        None => true,
    };
    if hourly_present && weekly_present {
        if hourly <= weekly {
            Some(hourly)
        } else {
            Some(weekly)
        }
    } else if hourly_present {
        Some(hourly)
    } else if weekly_present {
        Some(weekly)
    } else {
        None
    }
}

/// What is left of an optional quota.
pub fn remaining_of_optional_quota(quota: &Option<CodexQuota>) -> (remaining: Option<i32>)
    ensures
        remaining == remaining_in(opt_quota(*quota)),
{
    match quota {
        Some(quota) => quota_remaining_for_direct_observation(quota),
        None => None,
    }
}

/// An observation tells more than another: one of a used-up quota than one of a quota that is
/// not; else one of less left than one of more, or of an unknown rest; else the later one. What
/// is left plays no part where the quota is used up.
pub open spec fn tells_more(candidate: ObservationModel, current: ObservationModel) -> bool {
    if candidate.exhausted != current.exhausted {
        candidate.exhausted
    } else if candidate.exhausted {
        candidate.observed_at > current.observed_at
    } else {
        match (remaining_in(candidate.quota), remaining_in(current.quota)) {
            (Some(left), Some(right)) if left != right => left < right,
            (Some(_), None) => true,
            (None, Some(_)) => false,
            _ => candidate.observed_at > current.observed_at,
        }
    }
}

/// An observation is to replace the one at hand.
pub open spec fn is_better(candidate: ObservationModel, current: Option<ObservationModel>) -> bool {
    match current {
        Some(current) => tells_more(candidate, current),
        None => true,
    }
}

/// Whether an observation is to replace the one at hand.
pub fn is_better_direct_quota_observation(
    candidate: &DirectQuotaObservation,
    current: Option<&DirectQuotaObservation>,
) -> (better: bool)
    ensures
        better == is_better(candidate@, opt_observation_ref(current)),
{
    let current = match current {
        Some(current) => current,
        None => {
            return true;
        },
    };
    if candidate.exhausted != current.exhausted {
        return candidate.exhausted;
    }
    if candidate.exhausted {
        return candidate.observed_at > current.observed_at;
    }
    let candidate_remaining = remaining_of_optional_quota(&candidate.quota);
    let current_remaining = remaining_of_optional_quota(&current.quota);
    match candidate_remaining {
        Some(left) => match current_remaining {
            Some(right) => if left != right {
                left < right
            } else {
                candidate.observed_at > current.observed_at
            },
            None => true,
        },
        None => match current_remaining {
            Some(_) => false,
            None => candidate.observed_at > current.observed_at,
        },
    }
}

/// No observation tells more than itself.
pub proof fn preference_is_irreflexive(observation: ObservationModel)
    ensures
        !tells_more(observation, observation),
{
}

/// Of two observations at most one tells more than the other.
pub proof fn preference_is_asymmetric(first: ObservationModel, second: ObservationModel)
    requires
        tells_more(first, second),
    ensures
        !tells_more(second, first),
{
}

/// What tells more than something that tells more than a third tells more than the third.
pub proof fn preference_is_transitive(
    first: ObservationModel,
    second: ObservationModel,
    third: ObservationModel,
)
    requires
        tells_more(first, second),
        tells_more(second, third),
    ensures
        tells_more(first, third),
{
}

/// What does not tell more than something does not tell more than what that does not tell more
/// than either: observations of equal rank are interchangeable.
pub proof fn preference_ranks(
    first: ObservationModel,
    second: ObservationModel,
    third: ObservationModel,
)
    requires
        !tells_more(first, second),
        !tells_more(second, third),
    ensures
        !tells_more(first, third),
{
}

/// The observation that stands after going through all of them in order: each that is better than
/// the one at hand replaces it.
pub open spec fn best_of(observations: Seq<ObservationModel>) -> Option<ObservationModel>
    decreases observations.len(),
{
    if observations.len() == 0 {
        None
    } else {
        let best = best_of(observations.drop_last());
        if is_better(observations.last(), best) {
            Some(observations.last())
        } else {
            best
        }
    }
}

/// The observation that stands in the end is one of those gone through, and none of them is better
/// than it.
pub proof fn best_is_unbeaten(observations: Seq<ObservationModel>)
    requires
        observations.len() > 0,
    ensures
        best_of(observations) matches Some(best) && observations.contains(best) && forall|i: int|
            0 <= i < observations.len() ==> !tells_more(#[trigger] observations[i], best),
    decreases observations.len(),
{
    let last = observations.last();
    let rest = observations.drop_last();
    if rest.len() == 0 {
        assert(best_of(rest) is None);
        assert(observations[0] == last);
    } else {
        best_is_unbeaten(rest);
        let before = best_of(rest)->0;
        let at = choose|i: int| 0 <= i < rest.len() && rest[i] == before;
        assert(observations[at] == before);
        assert(observations[observations.len() - 1] == last);
        assert forall|i: int| 0 <= i < observations.len() implies !tells_more(
            #[trigger] observations[i],
            best_of(observations)->0,
        ) by {
            if i < rest.len() {
                assert(observations[i] == rest[i]);
                if tells_more(last, before) {
                    preference_is_asymmetric(last, before);
                    preference_ranks(rest[i], before, last);
                }
            }
        }
    }
}

/// Goes on with the next observation: keeps it if it is better than the one at hand.
pub fn keep_better(best: &mut Option<DirectQuotaObservation>, candidate: DirectQuotaObservation)
    ensures
        opt_observation(*final(best)) == (if is_better(candidate@, opt_observation(*old(best))) {
            Some(candidate@)
        } else {
            opt_observation(*old(best))
        }),
{
    let better = match best {
        Some(current) => is_better_direct_quota_observation(&candidate, Some(current)),
        None => true,
    };
    if better {
        *best = Some(candidate);
    }
}

/// When an observation says that the quota resets: the later of its quota's windows, or else what
/// it says itself.
pub open spec fn observation_reset(observation: ObservationModel) -> Option<i64> {
    let of_quota = match observation.quota {
        Some(quota) => quota_reset(quota),
        None => None,
    };
    first_some(of_quota, observation.reset_at)
}

/// When an observation says that the quota resets.
pub fn direct_observation_quota_reset_hint(observation: &DirectQuotaObservation) -> (reset_at: Option<
    i64,
>)
    ensures
        reset_at == observation_reset(observation@),
{
    let of_quota = match &observation.quota {
        Some(quota) => quota_reset_time_for_preservation(quota),
        None => None,
    };
    or_i64(of_quota, observation.reset_at)
}

} // verus!
