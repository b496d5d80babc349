//! Turns.
use vstd::prelude::*;

verus! {

/// Number of the turn being played.
#[derive(Copy, Clone, PartialEq, Eq, Structural, Debug, Hash)]
pub struct CurrentTurn(pub u16);

/// A new turn started.
#[derive(Copy, Clone, PartialEq, Eq, Structural, Debug, Hash)]
pub struct TurnStarted {
    pub turn_num: u16,
}

/// The current turn after turn-started events: the turn of the last event,
/// or the current turn where there was none.
pub open spec fn spec_turn_after(current: Option<CurrentTurn>, events: Seq<TurnStarted>) -> Option<
    CurrentTurn,
> {
    if events.len() == 0 {
        current
    } else {
        Some(CurrentTurn(events.last().turn_num))
    }
}

/// Handles turn-started events: the current turn becomes the turn of the
/// last event. Returns the current turn, and the events that the host
/// passes on to the other players (all of them, when hosting).
#[verifier::spinoff_prover]
pub fn handle_turn_started(
    current_turn: Option<CurrentTurn>,
    hosting: bool,
    turn_started_events: &Vec<TurnStarted>,
) -> (r: (Option<CurrentTurn>, Vec<TurnStarted>))
    ensures
        r.0 == spec_turn_after(current_turn, turn_started_events@),
        r.1@ == if hosting {
            turn_started_events@
        } else {
            Seq::<TurnStarted>::empty()
        },
{
    let mut current = current_turn;
    let mut new_current_turn: Option<CurrentTurn> = None;
    let mut updated = false;
    let mut broadcasts: Vec<TurnStarted> = Vec::new();
    let mut i: usize = 0;
    while i < turn_started_events.len()
        invariant
            i <= turn_started_events@.len(),
            current_turn is Some ==> current == spec_turn_after(
                current_turn,
                turn_started_events@.subrange(0, i as int),
            ) && (updated <==> i > 0) && new_current_turn is None,
            current_turn is None ==> current is None && !updated && new_current_turn
                == spec_turn_after(None, turn_started_events@.subrange(0, i as int)),
            broadcasts@ == if hosting {
                turn_started_events@.subrange(0, i as int)
            } else {
                Seq::<TurnStarted>::empty()
            },
        decreases turn_started_events@.len() - i,
    {
        let turn_started = turn_started_events[i];
        if current.is_some() {
            current = Some(CurrentTurn(turn_started.turn_num));
            updated = true;
        } else {
            new_current_turn = Some(CurrentTurn(turn_started.turn_num));
        }
        if hosting {
            broadcasts.push(turn_started);
        }
        proof {
            assert(turn_started_events@.subrange(0, i as int + 1).last() == turn_started);
            assert(turn_started_events@.subrange(0, i as int + 1) =~= turn_started_events@.subrange(
                0,
                i as int,
            ).push(turn_started));
        }
        i += 1;
    }
    proof {
        assert(turn_started_events@.subrange(0, i as int) =~= turn_started_events@);
    }
    if !updated {
        if let Some(t) = new_current_turn {
            current = Some(t);
        }
    }
    (current, broadcasts)
}

/// Replaying the same events from either result gives the same turn: the
/// current turn after events depends only on the last event.
pub proof fn lemma_turn_after_last(
    a: Option<CurrentTurn>,
    b: Option<CurrentTurn>,
    events: Seq<TurnStarted>,
)
    requires
        events.len() > 0,
    ensures
        spec_turn_after(a, events) == spec_turn_after(b, events),
        spec_turn_after(a, events) == Some(CurrentTurn(events.last().turn_num)),
{
}

} // verus!
