use vstd::prelude::*;

use crate::render::decimal_string;
use crate::render::spec_decimal;

verus! {

/// The upstream endpoint for a team's schedule, templated by the team's
/// numeric identifier.
pub open spec fn spec_schedule_url(id: nat) -> Seq<char> {
    "https://site.api.espn.com/apis/site/v2/sports/football/nfl/teams/"@ + spec_decimal(id)
        + "/schedule"@
}

/// Builds the schedule endpoint's URL for a team identifier.
pub fn schedule_url(id: u32) -> (r: String)
    ensures
        r@ == spec_schedule_url(id as nat),
{
    let mut s = "https://site.api.espn.com/apis/site/v2/sports/football/nfl/teams/".to_owned();
    let digits = decimal_string(id as u64);
    s.append(digits.as_str());
    s.append("/schedule");
    proof {
        assert(s@ =~= spec_schedule_url(id as nat));
    }
    s
}

} // verus!
