use vstd::prelude::*;
use crate::events::Event;
use crate::resources::{EventQueue, Gameplay, GameplayState};
use crate::store::{EntityStore, StoreModel};

verus! {

/// Whether box entity `j` satisfies spot entity `i`: the box is placed
/// at the spot's cell (the stacking layer does not matter) and carries
/// the spot's colour.
pub open spec fn box_matches_spot(m: StoreModel, j: int, i: int) -> bool {
    &&& 0 <= j < m.len()
    &&& m.boxes[j] is Some
    &&& m.positions[j] is Some
    &&& m.positions[j]->0.x == m.positions[i]->0.x
    &&& m.positions[j]->0.y == m.positions[i]->0.y
    &&& m.boxes[j] == m.box_spots[i]
}

/// Entity `i` is a target spot standing on the grid.
pub open spec fn is_placed_spot(m: StoreModel, i: int) -> bool {
    0 <= i < m.len() && m.box_spots[i] is Some && m.positions[i] is Some
}

/// Some box of the right colour stands on spot `i`.
pub open spec fn spot_satisfied(m: StoreModel, i: int) -> bool {
    exists|j: int| box_matches_spot(m, j, i)
}

/// The win condition: every placed spot holds a box of its colour.
/// A level without spots is vacuously won.
pub open spec fn is_won(m: StoreModel) -> bool {
    forall|i: int| #[trigger] is_placed_spot(m, i) ==> spot_satisfied(m, i)
}

/// The gameplay state after one evaluator tick over an entity store:
/// won exactly when every spot is satisfied, playing otherwise — an
/// unmatched or wrongly coloured spot always yields `Playing`.
pub open spec fn next_state(m: StoreModel) -> GameplayState {
    if is_won(m) {
        GameplayState::Won
    } else {
        GameplayState::Playing
    }
}

/// The events one evaluator tick appends: a single win event when the
/// store is winning and the state was not already `Won`, else nothing.
pub open spec fn emitted(m: StoreModel, prior: GameplayState) -> Seq<Event> {
    if is_won(m) && prior != GameplayState::Won {
        seq![Event::PlayerWon]
    } else {
        Seq::<Event>::empty()
    }
}

/// The gameplay evaluator: decides Playing against Won once per tick.
#[derive(Clone, Copy, Debug, PartialEq, Eq, Structural, Default)]
pub struct GameplayStateSystem {}

impl GameplayStateSystem {
    /// One evaluator tick: reads the box and spot components, updates
    /// the gameplay state, and appends the win event on the single tick
    /// that wins the level.
    ///
    /// The state afterwards is `Won` exactly when every spot holds a box
    /// of its colour; the move counter and level index are untouched;
    /// the event queue grows by exactly the emitted events, behind what
    /// it already held.
    pub fn run(
        &mut self,
        store: &EntityStore,
        gameplay: &mut Gameplay,
        events: &mut EventQueue,
    )
        requires
            store.wf(),
        ensures
            final(gameplay).state == next_state(store.model()),
            final(gameplay).moves_count == old(gameplay).moves_count,
            final(gameplay).level == old(gameplay).level,
            final(events).events@ == old(events).events@ + emitted(
                store.model(),
                old(gameplay).state,
            ),
    {
        let ghost m = store.model();
        let n = store.entity_count();
        let mut i: usize = 0;
        while i < n
            invariant
                store.wf(),
                m == store.model(),
                n == m.len(),
                i <= n,
                *gameplay == *old(gameplay),
                *events == *old(events),
                forall|k: int|
                    0 <= k < i && #[trigger] is_placed_spot(m, k) ==> spot_satisfied(m, k),
            decreases n - i,
        {
            let spot = store.spot_colour(i);
            let pos = store.position(i);
            if spot.is_some() && pos.is_some() {
                let sc = spot.unwrap();
                let sp = pos.unwrap();
                let mut matched = false;
                let mut j: usize = 0;
                while j < n
                    invariant
                        store.wf(),
                        m == store.model(),
                        n == m.len(),
                        i < n,
                        j <= n,
                        m.box_spots[i as int] == Some(sc),
                        m.positions[i as int] == Some(sp),
                        matched ==> spot_satisfied(m, i as int),
                        !matched ==> forall|k: int|
                            0 <= k < j ==> !box_matches_spot(m, k, i as int),
                    decreases n - j,
                {
                    if !matched {
                        let bc = store.box_colour(j);
                        let bp = store.position(j);
                        if bc.is_some() && bp.is_some() {
                            let bcv = bc.unwrap();
                            let bpv = bp.unwrap();
                            if bpv.x == sp.x && bpv.y == sp.y && bcv == sc {
                                matched = true;
                                proof {
                                    assert(box_matches_spot(m, j as int, i as int));
                                }
                            }
                        }
                    }
                    j = j + 1;
                }
                if !matched {
                    // One unsatisfied spot settles the tick: the level is
                    // not won, whatever the remaining spots hold.
                    gameplay.state = GameplayState::Playing;
                    proof {
                        assert(is_placed_spot(m, i as int));
                        assert(!spot_satisfied(m, i as int));
                        assert(!is_won(m));
                        assert(events.events@ =~= old(events).events@ + emitted(
                            m,
                            old(gameplay).state,
                        ));
                    }
                    return;
                }
            }
            i = i + 1;
        }
        proof {
            assert(is_won(m));
        }
        // The guarded transition: the win event fires exactly once per
        // win, a tick on an already won level changes nothing.
        if gameplay.state != GameplayState::Won {
            gameplay.state = GameplayState::Won;
            events.events.push(Event::PlayerWon);
            proof {
                assert(events.events@ =~= old(events).events@ + emitted(
                    m,
                    old(gameplay).state,
                ));
            }
        } else {
            proof {
                assert(events.events@ =~= old(events).events@ + emitted(
                    m,
                    old(gameplay).state,
                ));
            }
        }
    }
}

/// The gameplay state after `n` consecutive evaluator ticks over an
/// unchanging store, starting from state `s0`.
pub open spec fn state_after_ticks(m: StoreModel, s0: GameplayState, n: nat) -> GameplayState {
    if n == 0 {
        s0
    } else {
        next_state(m)
    }
}

/// Every event emitted across `n` consecutive evaluator ticks over an
/// unchanging store, starting from state `s0`, in order.
pub open spec fn events_after_ticks(m: StoreModel, s0: GameplayState, n: nat) -> Seq<Event>
    decreases n,
{
    if n == 0 {
        Seq::<Event>::empty()
    } else {
        events_after_ticks(m, s0, (n - 1) as nat) + emitted(
            m,
            state_after_ticks(m, s0, (n - 1) as nat),
        )
    }
}

/// Win event idempotence: across any number of consecutive evaluator
/// ticks on an unchanging, winning store, exactly one win event is
/// emitted in total — on the first tick — when play did not start in the
/// won state, and none at all when it did.
pub proof fn lemma_win_event_once(m: StoreModel, s0: GameplayState, n: nat)
    requires
        is_won(m),
        n >= 1,
    ensures
        events_after_ticks(m, s0, n) =~= (if s0 != GameplayState::Won {
            seq![Event::PlayerWon]
        } else {
            Seq::<Event>::empty()
        }),
    decreases n,
{
    if n == 1 {
        assert(events_after_ticks(m, s0, 0) =~= Seq::<Event>::empty());
        assert(Seq::<Event>::empty() + emitted(m, s0) =~= emitted(m, s0));
    } else {
        lemma_win_event_once(m, s0, (n - 1) as nat);
        assert(state_after_ticks(m, s0, (n - 1) as nat) == GameplayState::Won);
        assert(emitted(m, GameplayState::Won) =~= Seq::<Event>::empty());
    }
}

/// A tick on a store that is not winning emits nothing, however often it
/// is repeated.
pub proof fn lemma_not_won_no_event(m: StoreModel, s0: GameplayState, n: nat)
    requires
        !is_won(m),
    ensures
        events_after_ticks(m, s0, n) =~= Seq::<Event>::empty(),
    decreases n,
{
    if n > 0 {
        lemma_not_won_no_event(m, s0, (n - 1) as nat);
    }
}

} // verus!
