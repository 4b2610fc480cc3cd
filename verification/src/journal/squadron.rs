//! Squadron related journal events.

use vstd::prelude::*;

verus! {

#[derive(Debug, Clone, PartialEq)]
pub enum Squadron {
    AppliedToSquadron,
    DisbandedSquadron,
    InvitedToSquadron,
    JoinedSquadron,
    KickedFromSquadron,
    LeftSquadron,
    SharedBookmarkToSquadron,
    SquadronCreated,
    SquadronDemotion,
    SquadronPromotion,
    SquadronStartup,
    WonATrophyForSquadron,
}

} // verus!
