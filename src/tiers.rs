//! Tier requirements: a raid with a tier is open to members holding any of
//! the Discord roles mapped to that tier; a raid without one is open to all.

use vstd::prelude::*;
use crate::models::{Raid, TierMapping, to_unsigned, unsigned_of};

verus! {

/// Some mapping of tier `tier` names a role that the member holds.
pub open spec fn holds_tier(tier: i32, mappings: Seq<TierMapping>, roles: Seq<u64>) -> bool {
    exists|i: int, j: int|
        0 <= i < mappings.len() && 0 <= j < roles.len() && mappings[i].tier_id == tier
            && roles[j] == unsigned_of(#[trigger] mappings[i].discord_role_id) && #[trigger] roles[j] == roles[j]
}

/// A member with `roles` may join a raid with tier requirement `tier`.
pub open spec fn eligible(tier: Option<i32>, mappings: Seq<TierMapping>, roles: Seq<u64>) -> bool {
    match tier {
        None => true,
        Some(t) => holds_tier(t, mappings, roles),
    }
}

/// The raids among the first `n` that the member may join, in order.
pub open spec fn eligible_only(raids: Seq<Raid>, mappings: Seq<TierMapping>, roles: Seq<u64>, n: int) -> Seq<Raid>
    decreases n,
{
    if n <= 0 {
        Seq::<Raid>::empty()
    } else if eligible(raids[n - 1].tier_id, mappings, roles) {
        eligible_only(raids, mappings, roles, n - 1).push(raids[n - 1])
    } else {
        eligible_only(raids, mappings, roles, n - 1)
    }
}

fn holds_role(roles: &Vec<u64>, role: u64) -> (r: bool)
    ensures
        r == exists|j: int| 0 <= j < roles@.len() && roles@[j] == role,
{
    let mut j: usize = 0;
    while j < roles.len()
        invariant
            j <= roles@.len(),
            forall|k: int| 0 <= k < j ==> roles@[k] != role,
        decreases roles@.len() - j,
    {
        if roles[j] == role {
            return true;
        }
        j = j + 1;
    }
    false
}

/// Whether the member holds tier `tier`.
pub fn holds_tier_exec(tier: i32, mappings: &Vec<TierMapping>, roles: &Vec<u64>) -> (r: bool)
    ensures
        r == holds_tier(tier, mappings@, roles@),
{
    let mut i: usize = 0;
    while i < mappings.len()
        invariant
            i <= mappings@.len(),
            forall|a: int, b: int|
                0 <= a < i && 0 <= b < roles@.len() && mappings@[a].tier_id == tier
                    ==> roles@[b] != unsigned_of(mappings@[a].discord_role_id),
        decreases mappings@.len() - i,
    {
        let m = mappings[i];
        if m.tier_id == tier {
            let role = to_unsigned(m.discord_role_id);
            if holds_role(roles, role) {
                let ghost j = choose|j: int| 0 <= j < roles@.len() && roles@[j] == role;
                assert(roles@[j] == roles@[j]);
                return true;
            }
        }
        i = i + 1;
    }
    false
}

/// Whether the member may join the raid: it has no tier, or the member holds
/// a role mapped to its tier. `mappings` are the tier's role mappings.
pub fn verify_tier(raid: &Raid, mappings: &Vec<TierMapping>, roles: &Vec<u64>) -> (r: bool)
    ensures
        r == eligible(raid.tier_id, mappings@, roles@),
{
    match raid.tier_id {
        None => true,
        Some(t) => holds_tier_exec(t, mappings, roles),
    }
}

/// Keeps the raids that the member may join, in their order. `mappings` are
/// the role mappings of all tiers.
pub fn filter_trainings(trainings: Vec<Raid>, mappings: &Vec<TierMapping>, roles: &Vec<u64>) -> (r: Vec<Raid>)
    ensures
        r@ == eligible_only(trainings@, mappings@, roles@, trainings@.len() as int),
{
    let ghost all = trainings@;
    let n = trainings.len();
    let mut rest = trainings;
    let mut kept: Vec<Raid> = Vec::new();
    let mut i: usize = 0;
    while i < n
        invariant
            n == all.len(),
            i <= n,
            rest@ == all.subrange(i as int, n as int),
            kept@ == eligible_only(all, mappings@, roles@, i as int),
        decreases n - i,
    {
        let t = rest.remove(0);
        assert(t == all[i as int]);
        if verify_tier(&t, mappings, roles) {
            kept.push(t);
        }
        i = i + 1;
        assert(rest@ =~= all.subrange(i as int, n as int));
    }
    kept
}

} // verus!
