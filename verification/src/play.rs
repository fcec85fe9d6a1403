//! The playhead: a clock that can be started, paused, sought and stepped. Nothing else plays.

use crate::numeric::{answers, computes, encoded, zero, Answer, Calc, Real};
use crate::text::{cat2, same};
use vstd::prelude::*;

verus! {

#[derive(Clone, Copy, Debug, PartialEq, Eq, Structural)]
pub struct PlayState {
    pub playing: bool,
    pub paused: bool,
    pub time: Real,
    pub duration: Real,
}

impl Default for PlayState {
    fn default() -> (r: Self)
        ensures
            r == (PlayState {
                playing: false,
                paused: false,
                time: zero(),
                duration: encoded(0x4120_0000),
            }),
            r.seekable(),
    {
        PlayState { playing: false, paused: false, time: zero(), duration: encoded(0x4120_0000) }
    }
}

impl PlayState {
    /// There is a time from zero to the duration.
    pub open spec fn seekable(self) -> bool {
        zero().at_most(self.duration)
    }
}

pub fn snapshot(state: &PlayState) -> (r: PlayState)
    ensures
        r == *state,
{
    *state
}

/// The state after an action, or why there is none.
pub open spec fn played(
    s: PlayState,
    action: Seq<char>,
    time: Option<Real>,
    g: spec_fn(Calc) -> Answer,
) -> Result<PlayState, Seq<char>> {
    if action == "enter"@ || action == "play"@ {
        Ok(PlayState { playing: true, paused: false, ..s })
    } else if action == "stop"@ {
        Ok(PlayState { playing: false, paused: false, time: zero(), ..s })
    } else if action == "pause"@ {
        if s.playing {
            Ok(PlayState { playing: false, paused: true, ..s })
        } else {
            Ok(s)
        }
    } else if action == "seek"@ {
        match time {
            None => Err("seek_needs_time"@),
            Some(t) => Ok(PlayState { time: t.held_within(zero(), s.duration), ..s }),
        }
    } else if action == "step"@ {
        Ok(
            PlayState {
                time: g(Calc::Add(s.time, encoded(0x3d2a_aaab))).value.smaller_of(s.duration),
                playing: false,
                paused: true,
                ..s
            },
        )
    } else {
        Err("unknown_play_action:"@ + action)
    }
}

/// Carries out one of `enter`, `play`, `stop`, `pause`, `seek` and `step`; a step is one
/// twenty-fourth of a second.
pub fn apply<F: Fn(Calc) -> Answer>(
    state: &mut PlayState,
    action: &str,
    time: Option<Real>,
    calc: &F,
) -> (r: Result<PlayState, String>)
    requires
        answers(*calc),
        old(state).seekable(),
    ensures
        final(state).seekable(),
        r matches Ok(s) ==> s == *final(state),
        r is Err ==> *final(state) == *old(state),
        forall|g: spec_fn(Calc) -> Answer| #[trigger]
            computes(*calc, g) ==> played(*old(state), action@, time, g) == (match r {
                Ok(s) => Ok::<PlayState, Seq<char>>(s),
                Err(e) => Err::<PlayState, Seq<char>>(e@),
            }),
{
    if same(action, "enter") || same(action, "play") {
        state.playing = true;
        state.paused = false;
    } else if same(action, "stop") {
        state.playing = false;
        state.paused = false;
        state.time = zero();
    } else if same(action, "pause") {
        if state.playing {
            state.paused = true;
            state.playing = false;
        }
    } else if same(action, "seek") {
        match time {
            None => return Err("seek_needs_time".to_owned()),
            Some(t) => {
                state.time = t.clamp(zero(), state.duration);
            },
        }
    } else if same(action, "step") {
        let t = calc(Calc::Add(state.time, encoded(0x3d2a_aaab))).value;
        state.time = t.min(state.duration);
        state.playing = false;
        state.paused = true;
    } else {
        return Err(cat2("unknown_play_action:", action));
    }
    Ok(*state)
}

/// The playhead never passes the end: not by seeking to a number, nor by stepping.
pub proof fn playhead_stays_before_the_end(
    s: PlayState,
    action: Seq<char>,
    time: Option<Real>,
    g: spec_fn(Calc) -> Answer,
)
    requires
        s.seekable(),
        s.time.at_most(s.duration),
        time matches Some(t) ==> !t.is_nan(),
    ensures
        played(s, action, time, g) matches Ok(n) ==> n.time.at_most(n.duration),
{
}

/// Stopping puts the playhead back to zero and stops it, whatever it did before.
pub proof fn stop_resets(s: PlayState, time: Option<Real>, g: spec_fn(Calc) -> Answer)
    ensures
        played(s, "stop"@, time, g) matches Ok(n) && !n.playing && !n.paused && n.time == zero(),
{
    reveal_strlit("stop");
    reveal_strlit("enter");
    reveal_strlit("play");
    assert("stop"@[0] == 's');
    assert("play"@[0] == 'p');
    assert("enter"@[0] == 'e');
}

/// What can be said of a clock at any time: it does not play and pause at once, and the
/// playhead stands between zero and the end, ten seconds in.
pub open spec fn sound(s: PlayState) -> bool {
    &&& !(s.playing && s.paused)
    &&& zero().at_most(s.time)
    &&& s.time.at_most(s.duration)
    &&& s.duration == encoded(0x4120_0000)
}

/// Numbers that are not negative do not add up to a negative one.
pub open spec fn adds_upward(g: spec_fn(Calc) -> Answer) -> bool {
    forall|a: Real, b: Real|
        zero().at_most(a) && zero().at_most(b) ==> zero().at_most(
            (#[trigger] g(Calc::Add(a, b))).value,
        )
}

/// A sound clock stays sound, whatever it is told; it starts out as one.
pub proof fn clock_stays_sound(
    s: PlayState,
    action: Seq<char>,
    time: Option<Real>,
    g: spec_fn(Calc) -> Answer,
)
    requires
        sound(s),
        adds_upward(g),
        time matches Some(t) ==> !t.is_nan(),
    ensures
        played(s, action, time, g) matches Ok(n) ==> sound(n),
        sound(
            PlayState {
                playing: false,
                paused: false,
                time: zero(),
                duration: encoded(0x4120_0000),
            },
        ),
{
}

/// The clock after some actions; one that fails changes nothing.
pub open spec fn played_through(
    s: PlayState,
    actions: Seq<(Seq<char>, Option<Real>)>,
    g: spec_fn(Calc) -> Answer,
) -> PlayState
    decreases actions.len(),
{
    if actions.len() == 0 {
        s
    } else {
        let before = played_through(s, actions.drop_last(), g);
        match played(before, actions.last().0, actions.last().1, g) {
            Ok(n) => n,
            Err(_) => before,
        }
    }
}

/// After any actions, none of which seeks to a NaN, a clock that was sound is sound.
pub proof fn clock_stays_sound_throughout(
    s: PlayState,
    actions: Seq<(Seq<char>, Option<Real>)>,
    g: spec_fn(Calc) -> Answer,
)
    requires
        sound(s),
        adds_upward(g),
        forall|i: int|
            0 <= i < actions.len() ==> ((#[trigger] actions[i]).1 matches Some(t) ==> !t.is_nan()),
    ensures
        sound(played_through(s, actions, g)),
    decreases actions.len(),
{
    if actions.len() > 0 {
        clock_stays_sound_throughout(s, actions.drop_last(), g);
        clock_stays_sound(
            played_through(s, actions.drop_last(), g),
            actions.last().0,
            actions.last().1,
            g,
        );
    }
}

/// An action fails exactly if there is none of its name, or if it seeks without a time.
pub proof fn only_unknown_actions_and_bare_seeks_fail(
    s: PlayState,
    action: Seq<char>,
    time: Option<Real>,
    g: spec_fn(Calc) -> Answer,
)
    ensures
        played(s, action, time, g) is Err <==> (action == "seek"@ && time is None) || !(action
            == "enter"@ || action == "play"@ || action == "stop"@ || action == "pause"@ || action
            == "seek"@ || action == "step"@),
{
    reveal_strlit("seek");
    reveal_strlit("enter");
    reveal_strlit("play");
    reveal_strlit("stop");
    reveal_strlit("pause");
    assert("seek"@[1] == 'e');
    assert("stop"@[1] == 't');
    assert("play"@[0] == 'p');
    assert("pause"@[0] == 'p');
    assert("enter"@[0] == 'e');
    assert("seek"@[0] == 's');
}

} // verus!
