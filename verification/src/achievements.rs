//! Achievements, which the launcher does not keep.

use vstd::prelude::*;

verus! {

/// The answer to a game that asks for achievements: there are none.
pub struct QueryAchievementsResponse<Achievement> {
    pub achievement: Vec<Achievement>,
}

/// Answers a game that asks for the achievements of a user in an offer.
pub fn handle_query_achievements_request<Achievement>(_user_id: &str, _offer_id: &str) -> (r:
    QueryAchievementsResponse<Achievement>)
    ensures
        r.achievement@ == Seq::<Achievement>::empty(),
{
    QueryAchievementsResponse { achievement: Vec::new() }
}

} // verus!
