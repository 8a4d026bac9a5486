//! The rules that decide a game: who is voted out, who has won, and who
//! is dealt the wolf.

use crate::game::player::Player;
use crate::random::sample_indices;
use crate::text::{text_before, text_less, text_less_transitive};
use crate::types::{PlayerId, Role};
use vstd::prelude::*;

verus! {

/// One vote: `voter` thinks that `target` is the wolf.
#[derive(Debug)]
pub struct Vote {
    pub voter: PlayerId,
    pub target: PlayerId,
}

impl Clone for Vote {
    fn clone(&self) -> (v: Vote)
        ensures
            v == *self,
    {
        Vote { voter: self.voter.clone(), target: self.target.clone() }
    }
}

/// How many votes one player received.
#[derive(Debug)]
pub struct TargetCount {
    pub target: PlayerId,
    pub count: usize,
}

/// The outcome of a vote.
#[derive(Debug)]
pub struct VoteResult {
    /// The player voted out.
    pub eliminated_player: PlayerId,
    /// The number of votes against them.
    pub vote_count: usize,
    /// Every player who received a vote, in the order in which they were
    /// first named, with the number of votes against them.
    pub vote_breakdown: Vec<TargetCount>,
}

/// The number of votes in `votes` that name `target`.
pub open spec fn votes_for(votes: Seq<Vote>, target: Seq<char>) -> nat
    decreases votes.len(),
{
    if votes.len() == 0 {
        0
    } else {
        votes_for(votes.drop_last(), target) + if votes.last().target@ == target {
            1nat
        } else {
            0nat
        }
    }
}

/// Whether `winner` is the player to vote out: somebody named them, no
/// one was named more often, and among those named as often none has an
/// id that comes earlier in dictionary order.
pub open spec fn voted_out(votes: Seq<Vote>, winner: Seq<char>) -> bool {
    &&& exists|i: int| 0 <= i < votes.len() && (#[trigger] votes[i]).target@ == winner
    &&& forall|i: int|
        0 <= i < votes.len() ==> {
            let other = (#[trigger] votes[i]).target@;
            votes_for(votes, other) < votes_for(votes, winner) || (votes_for(votes, other)
                == votes_for(votes, winner) && !text_less(other, winner))
        }
}

/// Whether `breakdown` lists exactly the players named in `votes`, each
/// once, with the number of votes against them.
pub open spec fn breakdown_of(votes: Seq<Vote>, breakdown: Seq<TargetCount>) -> bool {
    &&& forall|k: int|
        0 <= k < breakdown.len() ==> (#[trigger] breakdown[k]).count == votes_for(
            votes,
            breakdown[k].target@,
        ) && breakdown[k].count > 0
    &&& forall|k: int, l: int|
        0 <= k < l < breakdown.len() ==> (#[trigger] breakdown[k]).target@ != (
        #[trigger] breakdown[l]).target@
    &&& forall|i: int|
        0 <= i < votes.len() ==> exists|k: int|
            0 <= k < breakdown.len() && (#[trigger] breakdown[k]).target@ == (
            #[trigger] votes[i]).target@
}

/// A target is named at most as often as there are votes.
pub proof fn votes_for_bounded(votes: Seq<Vote>, target: Seq<char>)
    ensures
        votes_for(votes, target) <= votes.len(),
    decreases votes.len(),
{
    if votes.len() > 0 {
        votes_for_bounded(votes.drop_last(), target);
    }
}

/// A target that nobody names has no votes, and one that somebody names
/// has at least one.
pub proof fn votes_for_zero_iff_unnamed(votes: Seq<Vote>, target: Seq<char>)
    ensures
        votes_for(votes, target) == 0 <==> forall|i: int|
            0 <= i < votes.len() ==> (#[trigger] votes[i]).target@ != target,
    decreases votes.len(),
{
    if votes.len() > 0 {
        votes_for_zero_iff_unnamed(votes.drop_last(), target);
        if votes_for(votes, target) == 0 {
            assert forall|i: int| 0 <= i < votes.len() implies (#[trigger] votes[i]).target@
                != target by {
                if i < votes.len() - 1 {
                    assert(votes.drop_last()[i] == votes[i]);
                }
            }
        } else {
            if votes.last().target@ != target {
                let i = choose|i: int|
                    0 <= i < votes.drop_last().len() && (#[trigger] votes.drop_last()[i]).target@
                        == target;
                assert(votes[i] == votes.drop_last()[i]);
            }
        }
    }
}

fn find_target(breakdown: &Vec<TargetCount>, target: &PlayerId) -> (r: Option<usize>)
    ensures
        match r {
            Some(k) => k < breakdown.len() && breakdown[k as int].target@ == target@,
            None => forall|k: int| 0 <= k < breakdown.len() ==> (#[trigger] breakdown[k]).target@
                != target@,
        },
{
    let mut k: usize = 0;
    while k < breakdown.len()
        invariant
            k <= breakdown.len(),
            forall|j: int| 0 <= j < k ==> (#[trigger] breakdown[j]).target@ != target@,
        decreases breakdown.len() - k,
    {
        if breakdown[k].target == *target {
            return Some(k);
        }
        k = k + 1;
    }
    None
}

/// Counts the votes against every player named in `votes`.
pub fn count_votes(votes: &[Vote]) -> (breakdown: Vec<TargetCount>)
    ensures
        breakdown_of(votes@, breakdown@),
{
    let mut breakdown: Vec<TargetCount> = Vec::new();
    let mut i: usize = 0;
    while i < votes.len()
        invariant
            i <= votes.len(),
            breakdown_of(votes@.take(i as int), breakdown@),
        decreases votes.len() - i,
    {
        let ghost seen = votes@.take(i as int);
        let ghost next = votes@.take(i + 1);
        let ghost old_breakdown = breakdown@;
        let target = &votes[i].target;
        proof {
            assert(next.drop_last() == seen);
            assert(next.last() == votes@[i as int]);
            assert forall|t: Seq<char>|
                votes_for(next, t) == votes_for(seen, t) + if t == target@ {
                    1nat
                } else {
                    0nat
                } by {}
        }
        match find_target(&breakdown, target) {
            Some(k) => {
                let count = breakdown[k].count;
                proof {
                    votes_for_bounded(seen, target@);
                }
                breakdown.set(k, TargetCount { target: target.clone(), count: count + 1 });
                proof {
                    assert forall|j: int| 0 <= j < next.len() implies exists|m: int|
                        0 <= m < breakdown@.len() && (#[trigger] breakdown@[m]).target@ == (
                        #[trigger] next[j]).target@ by {
                        if j < i {
                            assert(seen[j] == next[j]);
                            let m = choose|m: int|
                                0 <= m < old_breakdown.len() && (#[trigger] old_breakdown[m]).target@
                                    == seen[j].target@;
                            assert(breakdown@[m].target@ == next[j].target@);
                        } else {
                            assert(breakdown@[k as int].target@ == next[j].target@);
                        }
                    }
                }
            },
            None => {
                proof {
                    votes_for_zero_iff_unnamed(seen, target@);
                    if votes_for(seen, target@) != 0 {
                        let j = choose|j: int|
                            0 <= j < seen.len() && (#[trigger] seen[j]).target@ == target@;
                        let m = choose|m: int|
                            0 <= m < old_breakdown.len() && (#[trigger] old_breakdown[m]).target@
                                == seen[j].target@;
                        assert(false);
                    }
                }
                breakdown.push(TargetCount { target: target.clone(), count: 1 });
                proof {
                    assert forall|j: int| 0 <= j < next.len() implies exists|m: int|
                        0 <= m < breakdown@.len() && (#[trigger] breakdown@[m]).target@ == (
                        #[trigger] next[j]).target@ by {
                        if j < i {
                            assert(seen[j] == next[j]);
                            let m = choose|m: int|
                                0 <= m < old_breakdown.len() && (#[trigger] old_breakdown[m]).target@
                                    == seen[j].target@;
                            assert(breakdown@[m].target@ == next[j].target@);
                        } else {
                            assert(breakdown@[old_breakdown.len() as int].target@
                                == next[j].target@);
                        }
                    }
                }
            },
        }
        i = i + 1;
    }
    assert(votes@.take(votes.len() as int) == votes@);
    breakdown
}

/// Counts the votes and names the player to vote out: the one named most
/// often, and among several named equally often the one whose id comes
/// first in dictionary order.  Without votes nobody is voted out.
pub fn tally_votes(votes: &[Vote]) -> (r: Option<VoteResult>)
    ensures
        r is None <==> votes@.len() == 0,
        r is Some ==> {
            let result = r->Some_0;
            &&& voted_out(votes@, result.eliminated_player@)
            &&& result.vote_count == votes_for(votes@, result.eliminated_player@)
            &&& breakdown_of(votes@, result.vote_breakdown@)
        },
{
    if votes.len() == 0 {
        return None;
    }
    let breakdown = count_votes(votes);
    proof {
        // The first vote names somebody, so the breakdown is not empty.
        let first = votes@[0];
        assert(exists|k: int|
            0 <= k < breakdown@.len() && (#[trigger] breakdown@[k]).target@ == first.target@);
        crate::text::text_less_irreflexive(breakdown@[0].target@);
    }
    let mut best: usize = 0;
    let mut k: usize = 1;
    while k < breakdown.len()
        invariant
            0 <= best < k <= breakdown.len(),
            breakdown_of(votes@, breakdown@),
            forall|j: int|
                0 <= j < k ==> (#[trigger] breakdown@[j]).count < breakdown@[best as int].count || (
                breakdown@[j].count == breakdown@[best as int].count && !text_less(
                    breakdown@[j].target@,
                    breakdown@[best as int].target@,
                )),
        decreases breakdown.len() - k,
    {
        let ghost old_best = best;
        let better = breakdown[k].count > breakdown[best].count || (breakdown[k].count
            == breakdown[best].count && text_before(
            breakdown[k].target.as_str(),
            breakdown[best].target.as_str(),
        ));
        if better {
            best = k;
            proof {
                crate::text::text_less_irreflexive(breakdown@[k as int].target@);
                assert forall|j: int| 0 <= j < k + 1 implies (#[trigger] breakdown@[j]).count
                    < breakdown@[best as int].count || (breakdown@[j].count
                    == breakdown@[best as int].count && !text_less(
                    breakdown@[j].target@,
                    breakdown@[best as int].target@,
                )) by {
                    if j < k && breakdown@[j].count == breakdown@[best as int].count
                        && text_less(breakdown@[j].target@, breakdown@[best as int].target@) {
                        text_less_transitive(
                            breakdown@[j].target@,
                            breakdown@[best as int].target@,
                            breakdown@[old_best as int].target@,
                        );
                    }
                }
            }
        }
        k = k + 1;
    }
    let eliminated_player = breakdown[best].target.clone();
    let vote_count = breakdown[best].count;
    proof {
        let winner = eliminated_player@;
        votes_for_zero_iff_unnamed(votes@, winner);
        assert forall|i: int| 0 <= i < votes@.len() implies {
            let other = (#[trigger] votes@[i]).target@;
            votes_for(votes@, other) < votes_for(votes@, winner) || (votes_for(votes@, other)
                == votes_for(votes@, winner) && !text_less(other, winner))
        } by {
            let m = choose|m: int|
                0 <= m < breakdown@.len() && (#[trigger] breakdown@[m]).target@
                    == votes@[i].target@;
            assert(breakdown@[m].count == votes_for(votes@, breakdown@[m].target@));
        }
    }
    Some(VoteResult { eliminated_player, vote_count, vote_breakdown: breakdown })
}

/// A vote has one outcome: two players that both qualify as voted out
/// are the same player.
pub proof fn voted_out_is_unique(votes: Seq<Vote>, a: Seq<char>, b: Seq<char>)
    requires
        voted_out(votes, a),
        voted_out(votes, b),
    ensures
        a == b,
{
    let i = choose|i: int| 0 <= i < votes.len() && (#[trigger] votes[i]).target@ == a;
    let j = choose|j: int| 0 <= j < votes.len() && (#[trigger] votes[j]).target@ == b;
    // Each is named at least as often as the other, and neither comes first.
    assert(votes_for(votes, votes[i].target@) <= votes_for(votes, b));
    assert(votes_for(votes, votes[j].target@) <= votes_for(votes, a));
    crate::text::text_less_total(a, b);
}

/// The number of players in `players` that hold `role` and are still in
/// the game.
pub open spec fn active_with_role(players: Seq<Player>, role: Role) -> nat
    decreases players.len(),
{
    if players.len() == 0 {
        0
    } else {
        active_with_role(players.drop_last(), role) + if players.last()@.role == Some(role)
            && players.last()@.active {
            1nat
        } else {
            0nat
        }
    }
}

/// The number of players in `players` that hold `role`.
pub open spec fn with_role(players: Seq<Player>, role: Role) -> nat
    decreases players.len(),
{
    if players.len() == 0 {
        0
    } else {
        with_role(players.drop_last(), role) + if players.last()@.role == Some(role) {
            1nat
        } else {
            0nat
        }
    }
}

/// The citizens have won when no wolf is left in the game.
pub open spec fn citizens_have_won(players: Seq<Player>) -> bool {
    forall|i: int|
        0 <= i < players.len() && (#[trigger] players[i])@.role == Some(Role::Wolf)
            ==> !players[i]@.active
}

/// The wolves have won when at least one is left and they are no fewer
/// than the citizens left.
pub open spec fn wolves_have_won(players: Seq<Player>) -> bool {
    active_with_role(players, Role::Wolf) > 0 && active_with_role(players, Role::Wolf)
        >= active_with_role(players, Role::Citizen)
}

proof fn active_with_role_bounded(players: Seq<Player>, role: Role)
    ensures
        active_with_role(players, role) <= players.len(),
    decreases players.len(),
{
    if players.len() > 0 {
        active_with_role_bounded(players.drop_last(), role);
    }
}

fn count_active(players: &[Player], role: Role) -> (n: usize)
    ensures
        n == active_with_role(players@, role),
{
    let mut n: usize = 0;
    let mut i: usize = 0;
    while i < players.len()
        invariant
            i <= players.len(),
            n == active_with_role(players@.take(i as int), role),
            n <= i,
        decreases players.len() - i,
    {
        proof {
            assert(players@.take(i + 1).drop_last() == players@.take(i as int));
            assert(players@.take(i + 1).last() == players@[i as int]);
        }
        let p = &players[i];
        let holds = match role {
            Role::Wolf => p.is_wolf(),
            Role::Citizen => p.is_citizen(),
        };
        if holds && p.is_active() {
            n = n + 1;
        }
        i = i + 1;
    }
    assert(players@.take(players.len() as int) == players@);
    n
}

/// Whether the citizens have won: every wolf is out of the game.
pub fn check_citizen_victory(players: &[Player]) -> (won: bool)
    ensures
        won == citizens_have_won(players@),
{
    let mut i: usize = 0;
    while i < players.len()
        invariant
            i <= players.len(),
            forall|j: int|
                0 <= j < i && (#[trigger] players@[j])@.role == Some(Role::Wolf)
                    ==> !players@[j]@.active,
        decreases players.len() - i,
    {
        if players[i].is_wolf() && players[i].is_active() {
            return false;
        }
        i = i + 1;
    }
    true
}

/// Whether the wolves have won: some wolf is left, and the wolves left
/// are no fewer than the citizens left.
pub fn check_wolf_victory(players: &[Player]) -> (won: bool)
    ensures
        won == wolves_have_won(players@),
{
    let active_citizens = count_active(players, Role::Citizen);
    let active_wolves = count_active(players, Role::Wolf);
    active_wolves > 0 && active_wolves >= active_citizens
}

/// Whether the game is decided: `Some(true)` when the citizens have won,
/// `Some(false)` when they have not and the wolves have, `None` while it
/// goes on.
pub fn is_game_over(players: &[Player]) -> (r: Option<bool>)
    ensures
        r == (if citizens_have_won(players@) {
            Some(true)
        } else if wolves_have_won(players@) {
            Some(false)
        } else {
            None
        }),
{
    if check_citizen_victory(players) {
        Some(true)
    } else if check_wolf_victory(players) {
        Some(false)
    } else {
        None
    }
}

/// The ids of the players in `players` that hold `role`, in the order of
/// `players`.
pub open spec fn ids_with_role(players: Seq<Player>, role: Role) -> Seq<Seq<char>>
    decreases players.len(),
{
    if players.len() == 0 {
        Seq::empty()
    } else if players.last()@.role == Some(role) {
        ids_with_role(players.drop_last(), role).push(players.last()@.id)
    } else {
        ids_with_role(players.drop_last(), role)
    }
}

/// Whether `after` is `before` with roles dealt: the players at the
/// positions in `wolves` are wolves, all others citizens, and nothing
/// else about any player has changed.
pub open spec fn roles_dealt(before: Seq<Player>, after: Seq<Player>, wolves: Set<int>) -> bool {
    &&& after.len() == before.len()
    &&& forall|i: int|
        0 <= i < after.len() ==> (#[trigger] after[i])@ == (crate::game::player::PlayerView {
            role: Some(
                if wolves.contains(i) {
                    Role::Wolf
                } else {
                    Role::Citizen
                },
            ),
            ..before[i]@
        })
}

/// When the wolves are exactly the players at the positions in `wolves`,
/// there are as many wolves as positions.
pub proof fn wolves_counted(players: Seq<Player>, wolves: Set<int>)
    requires
        wolves.finite(),
        forall|x: int| wolves.contains(x) ==> 0 <= x < players.len(),
        forall|i: int|
            0 <= i < players.len() ==> ((#[trigger] players[i])@.role == Some(Role::Wolf))
                == wolves.contains(i),
    ensures
        with_role(players, Role::Wolf) == wolves.len(),
    decreases players.len(),
{
    if players.len() == 0 {
        assert(wolves =~= Set::<int>::empty());
    } else {
        let last = players.len() - 1;
        let rest = wolves.remove(last);
        assert forall|i: int| 0 <= i < players.drop_last().len() implies ((
        #[trigger] players.drop_last()[i])@.role == Some(Role::Wolf)) == rest.contains(i) by {
            assert(players.drop_last()[i] == players[i]);
        }
        wolves_counted(players.drop_last(), rest);
        assert(players.last() == players[last]);
    }
}

/// Among players who all hold a role, those who are not wolves are
/// citizens.
pub proof fn citizens_are_the_rest(players: Seq<Player>)
    requires
        forall|i: int| 0 <= i < players.len() ==> (#[trigger] players[i])@.role is Some,
    ensures
        with_role(players, Role::Wolf) + with_role(players, Role::Citizen) == players.len(),
    decreases players.len(),
{
    if players.len() > 0 {
        assert forall|i: int| 0 <= i < players.drop_last().len() implies (
        #[trigger] players.drop_last()[i])@.role is Some by {
            assert(players.drop_last()[i] == players[i]);
        }
        citizens_are_the_rest(players.drop_last());
        let last = players[players.len() - 1];
        assert(players.last() == last);
        assert(last@.role is Some);
        assert(last@.role == Some(Role::Wolf) || last@.role == Some(Role::Citizen));
    }
}

fn position_in(positions: &Vec<usize>, i: usize) -> (found: bool)
    ensures
        found == positions@.contains(i),
{
    let mut k: usize = 0;
    while k < positions.len()
        invariant
            k <= positions.len(),
            forall|j: int| 0 <= j < k ==> positions@[j] != i,
        decreases positions.len() - k,
    {
        if positions[k] == i {
            return true;
        }
        k = k + 1;
    }
    false
}

/// The positions in `positions`, as a set.
pub open spec fn position_set(positions: Seq<usize>) -> Set<int> {
    positions.map_values(|x: usize| x as int).to_set()
}

/// Deals the roles: the players at the positions listed in
/// `wolf_positions` become wolves, all others citizens.  Returns the ids
/// of the wolves in the order of `players`.
pub fn assign_roles_at(players: &mut Vec<Player>, wolf_positions: &Vec<usize>) -> (wolf_ids: Vec<
    PlayerId,
>)
    ensures
        roles_dealt(old(players)@, final(players)@, position_set(wolf_positions@)),
        wolf_ids@.map_values(|id: PlayerId| id@) == ids_with_role(final(players)@, Role::Wolf),
{
    let mut wolf_ids: Vec<PlayerId> = Vec::new();
    let n = players.len();
    let mut i: usize = 0;
    while i < n
        invariant
            i <= n,
            n == players@.len(),
            n == old(players)@.len(),
            roles_dealt(
                old(players)@.take(i as int),
                players@.take(i as int),
                position_set(wolf_positions@),
            ),
            players@.skip(i as int) == old(players)@.skip(i as int),
            wolf_ids@.map_values(|id: PlayerId| id@) == ids_with_role(
                players@.take(i as int),
                Role::Wolf,
            ),
        decreases n - i,
    {
        let ghost before = players@;
        let ghost ids_before = wolf_ids@;
        let is_wolf = position_in(wolf_positions, i);
        proof {
            let ints = wolf_positions@.map_values(|x: usize| x as int);
            if is_wolf {
                let k = choose|k: int| 0 <= k < wolf_positions@.len() && wolf_positions@[k] == i;
                assert(ints[k] == i as int);
            }
            if position_set(wolf_positions@).contains(i as int) {
                let k = choose|k: int| 0 <= k < ints.len() && ints[k] == i as int;
                assert(wolf_positions@[k] == i);
            }
            assert(is_wolf == position_set(wolf_positions@).contains(i as int));
        }
        let mut player = players[i].clone();
        assert(player == old(players)@[i as int]) by {
            assert(before.skip(i as int)[0] == old(players)@.skip(i as int)[0]);
        }
        if is_wolf {
            player.assign_role(Role::Wolf);
            wolf_ids.push(player.id().clone());
        } else {
            player.assign_role(Role::Citizen);
        }
        players.set(i, player);
        proof {
            let now = players@;
            assert(now.take(i + 1).drop_last() == before.take(i as int));
            assert(now.take(i + 1).last() == now[i as int]);
            assert(now.skip(i + 1) == old(players)@.skip(i + 1)) by {
                assert forall|j: int| 0 <= j < now.skip(i + 1).len() implies (
                #[trigger] now.skip(i + 1)[j]) == old(players)@.skip(i + 1)[j] by {
                    assert(before.skip(i as int)[j + 1] == old(players)@.skip(i as int)[j + 1]);
                }
            }
            assert forall|j: int| 0 <= j < i + 1 implies (#[trigger] now.take(i + 1)[j])@ == (
            crate::game::player::PlayerView {
                role: Some(
                    if position_set(wolf_positions@).contains(j) {
                        Role::Wolf
                    } else {
                        Role::Citizen
                    },
                ),
                ..old(players)@.take(i + 1)[j]@
            }) by {
                if j < i {
                    assert(now.take(i + 1)[j] == before.take(i as int)[j]);
                    assert(old(players)@.take(i + 1)[j] == old(players)@.take(i as int)[j]);
                }
            }
            if is_wolf {
                assert(wolf_ids@.map_values(|id: PlayerId| id@) == ids_before.map_values(
                    |id: PlayerId| id@,
                ).push(now[i as int]@.id));
            }
        }
        i = i + 1;
    }
    proof {
        assert(players@.take(n as int) == players@);
        assert(old(players)@.take(n as int) == old(players)@);
    }
    wolf_ids
}

/// Deals the roles at random: `wolf_count` players, drawn without
/// repetition, become wolves and all others citizens.  Returns the ids of
/// the wolves in the order of `players`.
pub fn assign_roles(players: &mut Vec<Player>, wolf_count: usize) -> (wolf_ids: Vec<PlayerId>)
    requires
        wolf_count < old(players)@.len(),
    ensures
        exists|wolves: Set<int>| #[trigger]
            roles_dealt(old(players)@, final(players)@, wolves) && wolves.finite() && wolves.len()
                == wolf_count,
        with_role(final(players)@, Role::Wolf) == wolf_count,
        with_role(final(players)@, Role::Citizen) == final(players)@.len() - wolf_count,
        wolf_ids@.map_values(|id: PlayerId| id@) == ids_with_role(final(players)@, Role::Wolf),
{
    let positions = sample_indices(players.len(), wolf_count);
    let wolf_ids = assign_roles_at(players, &positions);
    proof {
        let ints = positions@.map_values(|x: usize| x as int);
        let wolves = position_set(positions@);
        assert(ints.no_duplicates()) by {
            assert forall|k: int, l: int| 0 <= k < ints.len() && 0 <= l < ints.len() && k != l
                implies ints[k] != ints[l] by {
                assert(positions@[k] != positions@[l]);
            }
        }
        ints.unique_seq_to_set();
        assert forall|x: int| wolves.contains(x) implies 0 <= x < players@.len() by {
            let k = choose|k: int| 0 <= k < ints.len() && ints[k] == x;
            assert(positions@[k] < players@.len());
        }
        wolves_counted(players@, wolves);
        citizens_are_the_rest(players@);
    }
    wolf_ids
}

/// Counting the holders of a role looks at the roles only: two lists of
/// players with the same roles, place by place, have as many holders.
pub proof fn with_role_same_roles(a: Seq<Player>, b: Seq<Player>, role: Role)
    requires
        a.len() == b.len(),
        forall|i: int| 0 <= i < a.len() ==> (#[trigger] a[i])@.role == b[i]@.role,
    ensures
        with_role(a, role) == with_role(b, role),
        ids_with_role(a, role).len() == ids_with_role(b, role).len(),
    decreases a.len(),
{
    if a.len() > 0 {
        assert forall|i: int| 0 <= i < a.drop_last().len() implies (#[trigger] a.drop_last()[i])@.role
            == b.drop_last()[i]@.role by {
            assert(a.drop_last()[i] == a[i]);
            assert(b.drop_last()[i] == b[i]);
        }
        with_role_same_roles(a.drop_last(), b.drop_last(), role);
        assert(a.last() == a[a.len() - 1]);
        assert(b.last() == b[b.len() - 1]);
    }
}

/// Whether `after` is `before` with words dealt: every wolf holds
/// `wolf_theme`, everybody else `citizen_theme`, and nothing else about
/// any player has changed.
pub open spec fn themes_dealt(
    before: Seq<Player>,
    after: Seq<Player>,
    citizen_theme: Seq<char>,
    wolf_theme: Seq<char>,
) -> bool {
    &&& after.len() == before.len()
    &&& forall|i: int|
        0 <= i < after.len() ==> (#[trigger] after[i])@ == (crate::game::player::PlayerView {
            theme: Some(
                if before[i]@.role == Some(Role::Wolf) {
                    wolf_theme
                } else {
                    citizen_theme
                },
            ),
            ..before[i]@
        })
}

/// Deals the words: every wolf gets `wolf_theme`, everybody else
/// `citizen_theme`.
pub fn assign_themes(players: &mut Vec<Player>, citizen_theme: &str, wolf_theme: &str)
    ensures
        themes_dealt(old(players)@, final(players)@, citizen_theme@, wolf_theme@),
{
    let n = players.len();
    let mut i: usize = 0;
    while i < n
        invariant
            i <= n,
            n == players@.len(),
            n == old(players)@.len(),
            themes_dealt(
                old(players)@.take(i as int),
                players@.take(i as int),
                citizen_theme@,
                wolf_theme@,
            ),
            players@.skip(i as int) == old(players)@.skip(i as int),
        decreases n - i,
    {
        let ghost before = players@;
        let mut player = players[i].clone();
        assert(player == old(players)@[i as int]) by {
            assert(before.skip(i as int)[0] == old(players)@.skip(i as int)[0]);
        }
        if player.is_wolf() {
            player.assign_theme(wolf_theme.to_string());
        } else {
            player.assign_theme(citizen_theme.to_string());
        }
        players.set(i, player);
        proof {
            let now = players@;
            assert(now.skip(i + 1) == old(players)@.skip(i + 1)) by {
                assert forall|j: int| 0 <= j < now.skip(i + 1).len() implies (
                #[trigger] now.skip(i + 1)[j]) == old(players)@.skip(i + 1)[j] by {
                    assert(before.skip(i as int)[j + 1] == old(players)@.skip(i as int)[j + 1]);
                }
            }
            assert forall|j: int| 0 <= j < i + 1 implies (#[trigger] now.take(i + 1)[j])@ == (
            crate::game::player::PlayerView {
                theme: Some(
                    if old(players)@.take(i + 1)[j]@.role == Some(Role::Wolf) {
                        wolf_theme@
                    } else {
                        citizen_theme@
                    },
                ),
                ..old(players)@.take(i + 1)[j]@
            }) by {
                if j < i {
                    assert(now.take(i + 1)[j] == before.take(i as int)[j]);
                    assert(old(players)@.take(i + 1)[j] == old(players)@.take(i as int)[j]);
                }
            }
        }
        i = i + 1;
    }
    proof {
        assert(players@.take(n as int) == players@);
        assert(old(players)@.take(n as int) == old(players)@);
    }
}

/// The ids of the wolves among `players`, in the order of `players`.
pub fn wolves_of(players: &[Player]) -> (wolf_ids: Vec<PlayerId>)
    ensures
        wolf_ids@.map_values(|id: PlayerId| id@) == ids_with_role(players@, Role::Wolf),
{
    let mut wolf_ids: Vec<PlayerId> = Vec::new();
    let mut i: usize = 0;
    while i < players.len()
        invariant
            i <= players.len(),
            wolf_ids@.map_values(|id: PlayerId| id@) == ids_with_role(
                players@.take(i as int),
                Role::Wolf,
            ),
        decreases players.len() - i,
    {
        let ghost ids_before = wolf_ids@;
        proof {
            assert(players@.take(i + 1).drop_last() == players@.take(i as int));
            assert(players@.take(i + 1).last() == players@[i as int]);
        }
        if players[i].is_wolf() {
            wolf_ids.push(players[i].id().clone());
            assert(wolf_ids@.map_values(|id: PlayerId| id@) == ids_before.map_values(
                |id: PlayerId| id@,
            ).push(players@[i as int]@.id));
        }
        i = i + 1;
    }
    assert(players@.take(players.len() as int) == players@);
    wolf_ids
}

} // verus!
