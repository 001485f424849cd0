//! One chat session: the session state plus the typing-timer manager behind
//! a single serialized entry point, as inbound frames, user intents and timer
//! expiries must never mutate the state concurrently. The current user's name
//! is an explicit construction parameter.

use crate::codec::{
    decode, encode_register, envelope_text_of, names_has, spec_decode, strs_view, tag_of,
    DecodeError, MsgTypes, SpecWire, WireEnvelope,
};
use crate::session::{
    reduces, roster_has, trimmed_of, user_reset, Effect, SessionState, UserProfile,
};
use crate::timers::{
    armed, due, has_timer, retained, retained_at, swept, TimerManager, TYPING_TIMEOUT,
};
use vstd::pervasive::VecAdditionalExecFns;
use vstd::prelude::*;

verus! {

/// An intent handed to [`Chat::update`]: an inbound raw frame, a submit of
/// the current input, or a change of the local typing flag.
pub enum Msg {
    HandleMsg(String),
    SubmitMessage(String),
    SetTyping(bool),
}

/// What one update decided: whether to re-render, a frame to send out, and
/// the decode error to surface, if any. A decode error discards the frame
/// and nothing else: the session keeps going.
pub struct UpdateOutcome {
    pub rerender: bool,
    pub send: Option<String>,
    pub error: Option<DecodeError>,
}

/// One chat session.
pub struct Chat {
    /// The name this session registers as; fixed at construction.
    pub username: String,
    pub state: SessionState,
    pub timers: TimerManager,
}

/// How the timer manager moves under one inbound event: a roster snapshot
/// prunes to the new roster, a `typing` event for a present user re-arms
/// that user's timer, everything else leaves the timers alone.
pub open spec fn timers_step(pre: Chat, post: Chat, ev: SpecWire, now: int) -> bool {
    match ev {
        SpecWire::Users(names) => retained(pre.timers, post.timers, names),
        SpecWire::Typing(u) => if roster_has(pre.state.users@, u) {
            armed(pre.timers, post.timers, u, now + TYPING_TIMEOUT)
        } else {
            post.timers == pre.timers
        },
        _ => post.timers == pre.timers,
    }
}

/// Whether one inbound event calls for a re-render: roster and history
/// changes do, a `typing` event only when the user is on the roster, and a
/// stray `register` never does.
pub open spec fn rerender_of(pre: Chat, ev: SpecWire) -> bool {
    match ev {
        SpecWire::Users(_) => true,
        SpecWire::Message(_) => true,
        SpecWire::Typing(u) => roster_has(pre.state.users@, u),
        SpecWire::Register(_) => false,
    }
}

/// `post[i]` is `pre[i]` with the typing flag cleared when that user's timer
/// was due, and untouched otherwise.
pub open spec fn cleared_at(
    pre: Seq<UserProfile>,
    post: Seq<UserProfile>,
    tm: TimerManager,
    now: int,
    i: int,
) -> bool {
    &&& post[i].name == pre[i].name
    &&& post[i].avatar == pre[i].avatar
    &&& post[i].last_seen == pre[i].last_seen
    &&& post[i].is_typing == (pre[i].is_typing && !due(tm, pre[i].name@, now))
}

/// The names whose typing indicator flips off at `now`, in roster order.
pub open spec fn cleared_names(users: Seq<UserProfile>, tm: TimerManager, now: int) -> Seq<
    Seq<char>,
>
    decreases users.len(),
{
    if users.len() == 0 {
        Seq::empty()
    } else {
        let rest = cleared_names(users.drop_last(), tm, now);
        if users.last().is_typing && due(tm, users.last().name@, now) {
            rest.push(users.last().name@)
        } else {
            rest
        }
    }
}

impl Chat {
    /// The session is well-formed when no user has two pending timers.
    pub open spec fn wf(self) -> bool {
        self.timers.wf()
    }

    /// Start a session for the given user: empty roster and history, no
    /// typing anywhere.
    pub fn new(username: String) -> (c: Chat)
        ensures
            c.wf(),
            c.username == username,
            c.state.users@.len() == 0,
            c.state.messages@.len() == 0,
            c.state.local_typing == false,
            forall|v: Seq<char>| !has_timer(c.timers, v),
    {
        Chat { username, state: SessionState::new(), timers: TimerManager::new() }
    }

    /// The `register` frame sent exactly once, immediately after the
    /// transport connects and before any other outbound traffic.
    pub fn register_frame(&self) -> (r: String)
        ensures
            r@ == envelope_text_of(tag_of(MsgTypes::Register), self.username@),
    {
        encode_register(self.username.as_str())
    }

    /// The single serialized entry point: fold one intent into the session.
    /// An inbound frame is decoded, reduced into the state, and its timer
    /// side effects are performed; a frame that does not decode is discarded
    /// with its error surfaced and the state untouched.
    pub fn update(&mut self, msg: Msg, now: u64) -> (out: UpdateOutcome)
        requires
            old(self).wf(),
            msg is HandleMsg ==> now + TYPING_TIMEOUT <= u64::MAX,
        ensures
            final(self).wf(),
            final(self).username == old(self).username,
            match msg {
                Msg::HandleMsg(frame) => {
                    &&& out.send is None
                    &&& match spec_decode(frame@) {
                        Err(e) => {
                            &&& out.error == Some(e)
                            &&& out.rerender == false
                            &&& *final(self) == *old(self)
                        },
                        Ok(ev) => {
                            &&& out.error is None
                            &&& reduces(old(self).state, final(self).state, ev, now as int)
                            &&& timers_step(*old(self), *final(self), ev, now as int)
                            &&& out.rerender == rerender_of(*old(self), ev)
                        },
                    }
                },
                Msg::SubmitMessage(input) => {
                    &&& out.error is None
                    &&& out.rerender == false
                    &&& final(self).timers == old(self).timers
                    &&& final(self).state.users == old(self).state.users
                    &&& final(self).state.messages == old(self).state.messages
                    &&& trimmed_of(input@).len() == 0 ==> out.send is None
                        && final(self).state.local_typing == old(self).state.local_typing
                    &&& trimmed_of(input@).len() > 0 ==> (out.send matches Some(f) && f@
                        == envelope_text_of(tag_of(MsgTypes::Message), input@))
                        && final(self).state.local_typing == false
                },
                Msg::SetTyping(t) => {
                    &&& out.error is None
                    &&& out.send is None
                    &&& out.rerender == true
                    &&& final(self).timers == old(self).timers
                    &&& final(self).state.users == old(self).state.users
                    &&& final(self).state.messages == old(self).state.messages
                    &&& final(self).state.local_typing == t
                },
            },
    {
        match msg {
            Msg::HandleMsg(frame) => {
                let env = match decode(frame.as_str()) {
                    Err(e) => {
                        return UpdateOutcome { rerender: false, send: None, error: Some(e) };
                    },
                    Ok(env) => env,
                };
                let plain_rerender = match &env {
                    WireEnvelope::Users(_) => true,
                    WireEnvelope::Message(_) => true,
                    WireEnvelope::Register(_) => false,
                    WireEnvelope::Typing(_) => false,
                };
                let mut effects: Vec<Effect> = self.state.apply(&env, now);
                let found_typing = effects.len() > 0;
                match effects.pop() {
                    None => {},
                    Some(Effect::ArmTyping(u)) => self.timers.arm(u.as_str(), now),
                    Some(Effect::RetainRoster(r)) => self.timers.retain(&r),
                }
                let rerender = match &env {
                    WireEnvelope::Typing(_) => found_typing,
                    _ => plain_rerender,
                };
                UpdateOutcome { rerender, send: None, error: None }
            },
            Msg::SubmitMessage(input) => {
                let send = self.state.build_send_message(input.as_str());
                UpdateOutcome { rerender: false, send, error: None }
            },
            Msg::SetTyping(t) => {
                self.state.set_local_typing(t);
                UpdateOutcome { rerender: true, send: None, error: None }
            },
        }
    }

    /// Advance the clock: clear the typing flag of every user whose timer is
    /// due, drop those timers, and return the names whose indicator flipped
    /// off (each at most once, since the fired timer is gone).
    pub fn tick(&mut self, now: u64) -> (cleared: Vec<String>)
        requires
            old(self).wf(),
        ensures
            final(self).wf(),
            final(self).username == old(self).username,
            final(self).state.messages == old(self).state.messages,
            final(self).state.local_typing == old(self).state.local_typing,
            final(self).state.users@.len() == old(self).state.users@.len(),
            forall|i: int|
                0 <= i < old(self).state.users@.len() ==> cleared_at(
                    old(self).state.users@,
                    final(self).state.users@,
                    old(self).timers,
                    now as int,
                    i,
                ),
            swept(old(self).timers, final(self).timers, now as int),
            strs_view(cleared@) == cleared_names(
                old(self).state.users@,
                old(self).timers,
                now as int,
            ),
    {
        let mut cleared: Vec<String> = Vec::new();
        let mut i: usize = 0;
        while i < self.state.users.len()
            invariant
                i <= self.state.users@.len(),
                self.username == old(self).username,
                self.timers == old(self).timers,
                self.timers.wf(),
                self.state.messages == old(self).state.messages,
                self.state.local_typing == old(self).state.local_typing,
                self.state.users@.len() == old(self).state.users@.len(),
                forall|j: int|
                    0 <= j < i ==> cleared_at(
                        old(self).state.users@,
                        self.state.users@,
                        old(self).timers,
                        now as int,
                        j,
                    ),
                forall|j: int|
                    i <= j < self.state.users@.len() ==> self.state.users@[j] == old(
                        self,
                    ).state.users@[j],
                strs_view(cleared@) == cleared_names(
                    old(self).state.users@.take(i as int),
                    old(self).timers,
                    now as int,
                ),
            decreases self.state.users@.len() - i,
        {
            let ghost u0 = self.state.users@;
            let was_typing = self.state.users[i].is_typing;
            let is_due = self.timers.expires_by(self.state.users[i].name.as_str(), now);
            if was_typing && is_due {
                let ghost old_cleared = cleared@;
                let nm = self.state.users[i].name.clone();
                let updated = UserProfile {
                    name: self.state.users[i].name.clone(),
                    avatar: self.state.users[i].avatar.clone(),
                    is_typing: false,
                    last_seen: self.state.users[i].last_seen,
                };
                self.state.users.set(i, updated);
                cleared.push(nm);
                proof {
                    assert(strs_view(cleared@) =~= strs_view(old_cleared).push(nm@));
                    assert forall|j: int| 0 <= j < i + 1 implies cleared_at(
                        old(self).state.users@,
                        self.state.users@,
                        old(self).timers,
                        now as int,
                        j,
                    ) by {
                        if j < i {
                            assert(cleared_at(
                                old(self).state.users@,
                                u0,
                                old(self).timers,
                                now as int,
                                j,
                            ));
                            assert(self.state.users@[j] == u0[j]);
                        } else {
                            assert(self.state.users@[j] == updated);
                        }
                    }
                }
            }
            proof {
                assert(old(self).state.users@.take(i + 1).drop_last() =~= old(
                    self,
                ).state.users@.take(i as int));
                assert(old(self).state.users@.take(i + 1).last() == old(
                    self,
                ).state.users@[i as int]);
            }
            i = i + 1;
        }
        proof {
            assert(old(self).state.users@.take(old(self).state.users@.len() as int) =~= old(
                self,
            ).state.users@);
        }
        self.timers.remove_expired(now);
        cleared
    }
}

/// Whether the room may be entered under this name, as the entry form
/// decides it: any non-empty name.
pub fn login_enabled(username: &str) -> (r: bool)
    ensures
        r == (username@.len() >= 1),
{
    !username.is_empty()
}

/// Law: a `users` snapshot replaces the roster entirely. A user absent from
/// the new snapshot is gone from the roster, and no typing timer of theirs
/// is left pending to fire later.
pub proof fn lemma_snapshot_replacement(
    pre: Chat,
    post: Chat,
    names: Seq<Seq<char>>,
    now: int,
    v: Seq<char>,
)
    requires
        reduces(pre.state, post.state, SpecWire::Users(names), now),
        timers_step(pre, post, SpecWire::Users(names), now),
        !names_has(names, v),
    ensures
        !roster_has(post.state.users@, v),
        !has_timer(post.timers, v),
{
    if roster_has(post.state.users@, v) {
        let i = choose|i: int|
            0 <= i < post.state.users@.len() && #[trigger] post.state.users@[i].name@ == v;
        assert(user_reset(post.state.users@[i], names[i]));
        assert(names[i] == v);
    }
    assert(retained_at(pre.timers, post.timers, names, v));
}

} // verus!
