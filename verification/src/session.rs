//! Session state: the roster of user profiles, the append-only message
//! history and the local typing flag, folded over decoded wire events by a
//! single reducer. Timer side effects are requested, not performed, so the
//! reducer stays pure and testable without real time.

use crate::codec::{
    encode_send_message, envelope_text_of, str_eq, strs_view, tag_of, MsgTypes, SpecMessageBody,
    SpecWire, WireEnvelope,
};
use vstd::pervasive::VecAdditionalExecFns;
use vstd::prelude::*;
use vstd::string::StringExecFns;

verus! {

/// One entry of the roster: a user as the client displays it.
pub struct UserProfile {
    pub name: String,
    pub avatar: String,
    pub is_typing: bool,
    pub last_seen: Option<i64>,
}

/// One received chat message, immutable once appended.
pub struct ChatMessage {
    pub from: String,
    pub message: String,
    /// The sender-side stamp carried on the wire, if any.
    pub timestamp: Option<i64>,
    /// The local clock value when the frame was applied.
    pub received_at: u64,
}

/// The authoritative client view of the chat room.
pub struct SessionState {
    /// Order and content of the last `users` snapshot.
    pub users: Vec<UserProfile>,
    /// Append-only history, in arrival order.
    pub messages: Vec<ChatMessage>,
    /// Whether the local input holds text; never sent on the wire.
    pub local_typing: bool,
}

/// A side effect the reducer asks for instead of performing.
pub enum Effect {
    /// Arm (or re-arm) the typing-expiry timer of the named user.
    ArmTyping(String),
    /// Keep only the timers of users in the given roster; cancel the rest.
    RetainRoster(Vec<String>),
}

/// The identicon URL derived from a name: a fixed prefix, the name as the
/// seed, and fixed rendering options.
pub open spec fn avatar_url_of(name: Seq<char>) -> Seq<char> {
    "https://api.dicebear.com/7.x/identicon/svg?seed="@ + name
        + "&backgroundType=gradientLinear&backgroundColor=b6e3f4,c0aede,d1d4f9"@
}

/// Derive the avatar URL shown for a name.
pub fn derive_avatar(name: &str) -> (r: String)
    ensures
        r@ == avatar_url_of(name@),
{
    let mut s: String = "https://api.dicebear.com/7.x/identicon/svg?seed=".to_owned();
    s.append(name);
    s.append("&backgroundType=gradientLinear&backgroundColor=b6e3f4,c0aede,d1d4f9");
    s
}

/// A profile as a `users` snapshot creates it: typing off, nothing seen yet,
/// avatar derived from the name.
pub open spec fn user_reset(u: UserProfile, name: Seq<char>) -> bool {
    &&& u.name@ == name
    &&& u.avatar@ == avatar_url_of(name)
    &&& u.is_typing == false
    &&& u.last_seen is None
}

/// The roster is exactly the given names, in order, each a fresh profile.
pub open spec fn fresh_roster(users: Seq<UserProfile>, names: Seq<Seq<char>>) -> bool {
    &&& users.len() == names.len()
    &&& forall|i: int| 0 <= i < names.len() ==> user_reset(#[trigger] users[i], names[i])
}

/// Whether some roster entry carries this name.
pub open spec fn roster_has(users: Seq<UserProfile>, name: Seq<char>) -> bool {
    exists|i: int| 0 <= i < users.len() && #[trigger] users[i].name@ == name
}

/// `i` is the first roster index carrying this name.
pub open spec fn first_match(users: Seq<UserProfile>, name: Seq<char>, i: int) -> bool {
    &&& 0 <= i < users.len()
    &&& users[i].name@ == name
    &&& forall|j: int| 0 <= j < i ==> #[trigger] users[j].name@ != name
}

/// `post` is `pre` with entry `i` marked typing and nothing else changed.
pub open spec fn marked_typing(pre: Seq<UserProfile>, post: Seq<UserProfile>, i: int) -> bool {
    &&& post.len() == pre.len()
    &&& forall|j: int| 0 <= j < pre.len() && j != i ==> #[trigger] post[j] == pre[j]
    &&& post[i].name == pre[i].name
    &&& post[i].avatar == pre[i].avatar
    &&& post[i].last_seen == pre[i].last_seen
    &&& post[i].is_typing == true
}

/// The roster after a `typing` event: the first entry with the name marked
/// typing when present, everything unchanged when absent.
pub open spec fn typing_applied(pre: Seq<UserProfile>, post: Seq<UserProfile>, name: Seq<char>) -> bool {
    if roster_has(pre, name) {
        exists|i: int| #[trigger] first_match(pre, name, i) && marked_typing(pre, post, i)
    } else {
        post == pre
    }
}

/// The appended message matches the decoded record and the clock.
pub open spec fn msg_matches(c: ChatMessage, m: SpecMessageBody, now: int) -> bool {
    &&& c.from@ == m.from
    &&& c.message@ == m.message
    &&& (match c.timestamp {
        Some(t) => Some(t as int),
        None => None,
    }) == m.timestamp
    &&& c.received_at == now
}

/// The whole reducer, one event: how `post` relates to `pre`.
pub open spec fn reduces(pre: SessionState, post: SessionState, ev: SpecWire, now: int) -> bool {
    match ev {
        SpecWire::Users(names) => {
            &&& fresh_roster(post.users@, names)
            &&& post.messages == pre.messages
            &&& post.local_typing == pre.local_typing
        },
        SpecWire::Register(_) => post == pre,
        SpecWire::Message(m) => {
            &&& post.users == pre.users
            &&& post.local_typing == pre.local_typing
            &&& post.messages@.len() == pre.messages@.len() + 1
            &&& post.messages@.drop_last() == pre.messages@
            &&& msg_matches(post.messages@.last(), m, now)
        },
        SpecWire::Typing(name) => {
            &&& typing_applied(pre.users@, post.users@, name)
            &&& post.messages == pre.messages
            &&& post.local_typing == pre.local_typing
        },
    }
}

/// The side effects the reducer requests for one event.
pub open spec fn effects_for(pre: SessionState, effects: Seq<Effect>, ev: SpecWire) -> bool {
    match ev {
        SpecWire::Users(names) => {
            &&& effects.len() == 1
            &&& effects[0] matches Effect::RetainRoster(v) && strs_view(v@) == names
        },
        SpecWire::Typing(name) => if roster_has(pre.users@, name) {
            &&& effects.len() == 1
            &&& effects[0] matches Effect::ArmTyping(s) && s@ == name
        } else {
            effects.len() == 0
        },
        _ => effects.len() == 0,
    }
}

/// What trimming leading and trailing whitespace leaves of the text: a
/// function of the characters alone.
pub uninterp spec fn trimmed_of(s: Seq<char>) -> Seq<char>;

/// Relies on `str::trim`: strips leading and trailing whitespace; the result
/// depends on the characters alone, and trimming empty text leaves it empty.
#[verifier::external_body]
fn trim_str(s: &str) -> (r: &str)
    ensures
        r@ == trimmed_of(s@),
        s@.len() == 0 ==> r@.len() == 0,
{
    s.trim()
}

/// The two profiles agree in every displayed field.
pub open spec fn profile_equiv(a: UserProfile, b: UserProfile) -> bool {
    &&& a.name@ == b.name@
    &&& a.avatar@ == b.avatar@
    &&& a.is_typing == b.is_typing
    &&& a.last_seen == b.last_seen
}

impl SessionState {
    /// The empty session: nobody connected, no history, input empty.
    pub fn new() -> (s: SessionState)
        ensures
            s.users@.len() == 0,
            s.messages@.len() == 0,
            s.local_typing == false,
    {
        SessionState { users: Vec::new(), messages: Vec::new(), local_typing: false }
    }

    /// Fold one decoded event into the state and return the timer side
    /// effects it asks for. `now` is the local clock reading stamped on an
    /// appended message.
    pub fn apply(&mut self, env: &WireEnvelope, now: u64) -> (effects: Vec<Effect>)
        ensures
            reduces(*old(self), *final(self), crate::codec::wire_view(*env), now as int),
            effects_for(*old(self), effects@, crate::codec::wire_view(*env)),
    {
        match env {
            WireEnvelope::Users(names) => {
                let mut new_users: Vec<UserProfile> = Vec::new();
                let mut roster: Vec<String> = Vec::new();
                let mut i: usize = 0;
                while i < names.len()
                    invariant
                        i <= names@.len(),
                        new_users@.len() == i,
                        forall|j: int|
                            0 <= j < i ==> user_reset(#[trigger] new_users@[j], names@[j]@),
                        roster@ == names@.take(i as int),
                    decreases names@.len() - i,
                {
                    let n = names[i].clone();
                    let av = derive_avatar(names[i].as_str());
                    new_users.push(UserProfile { name: n, avatar: av, is_typing: false, last_seen: None });
                    roster.push(names[i].clone());
                    proof {
                        assert(names@.take(i + 1 as int) =~= names@.take(i as int).push(
                            names@[i as int],
                        ));
                    }
                    i = i + 1;
                }
                proof {
                    assert(roster@ =~= names@);
                    assert forall|j: int| 0 <= j < names@.len() implies user_reset(
                        #[trigger] new_users@[j],
                        strs_view(names@)[j],
                    ) by {
                        assert(strs_view(names@)[j] == names@[j]@);
                    }
                }
                self.users = new_users;
                let mut effects: Vec<Effect> = Vec::new();
                effects.push(Effect::RetainRoster(roster));
                effects
            },
            WireEnvelope::Register(_) => Vec::new(),
            WireEnvelope::Message(m) => {
                let c = ChatMessage {
                    from: m.from.clone(),
                    message: m.message.clone(),
                    timestamp: m.timestamp,
                    received_at: now,
                };
                self.messages.push(c);
                proof {
                    assert(self.messages@.drop_last() =~= old(self).messages@);
                }
                Vec::new()
            },
            WireEnvelope::Typing(name) => {
                let mut i: usize = 0;
                let mut effects: Vec<Effect> = Vec::new();
                while i < self.users.len()
                    invariant
                        i <= self.users@.len(),
                        *self == *old(self),
                        effects@.len() == 0,
                        crate::codec::wire_view(*env) == SpecWire::Typing(name@),
                        forall|j: int| 0 <= j < i ==> #[trigger] self.users@[j].name@ != name@,
                    decreases self.users@.len() - i,
                {
                    if str_eq(self.users[i].name.as_str(), name.as_str()) {
                        let updated = UserProfile {
                            name: self.users[i].name.clone(),
                            avatar: self.users[i].avatar.clone(),
                            is_typing: true,
                            last_seen: self.users[i].last_seen,
                        };
                        proof {
                            assert(first_match(old(self).users@, name@, i as int));
                        }
                        self.users.set(i, updated);
                        effects.push(Effect::ArmTyping(name.clone()));
                        proof {
                            assert(marked_typing(old(self).users@, self.users@, i as int));
                        }
                        return effects;
                    }
                    i = i + 1;
                }
                proof {
                    assert(!roster_has(self.users@, name@));
                }
                effects
            },
        }
    }

    /// Record whether the local input currently holds text.
    pub fn input_changed(&mut self, text: &str)
        ensures
            final(self).users == old(self).users,
            final(self).messages == old(self).messages,
            final(self).local_typing == (text@.len() > 0),
    {
        self.local_typing = !text.is_empty();
    }

    /// Set the local typing flag directly.
    pub fn set_local_typing(&mut self, typing: bool)
        ensures
            final(self).users == old(self).users,
            final(self).messages == old(self).messages,
            final(self).local_typing == typing,
    {
        self.local_typing = typing;
    }

    /// Build the outbound `message` frame for the given body, or nothing when
    /// the body is blank after trimming. Emitting a frame clears the local
    /// typing flag.
    pub fn build_send_message(&mut self, body: &str) -> (r: Option<String>)
        ensures
            final(self).users == old(self).users,
            final(self).messages == old(self).messages,
            trimmed_of(body@).len() == 0 ==> r is None && final(self).local_typing == old(
                self,
            ).local_typing,
            trimmed_of(body@).len() > 0 ==> (r matches Some(f) && f@ == envelope_text_of(
                tag_of(MsgTypes::Message),
                body@,
            )) && final(self).local_typing == false,
    {
        let t = trim_str(body);
        if t.is_empty() {
            None
        } else {
            self.local_typing = false;
            Some(encode_send_message(body))
        }
    }

    /// The profile to display for a sender: the first roster entry with the
    /// name when present, else a transient profile derived from the name
    /// alone, not inserted into the roster.
    pub fn display_profile(&self, name: &str) -> (r: UserProfile)
        ensures
            roster_has(self.users@, name@) ==> exists|i: int|
                #[trigger] first_match(self.users@, name@, i) && profile_equiv(r, self.users@[i]),
            !roster_has(self.users@, name@) ==> user_reset(r, name@),
    {
        let mut i: usize = 0;
        while i < self.users.len()
            invariant
                i <= self.users@.len(),
                forall|j: int| 0 <= j < i ==> #[trigger] self.users@[j].name@ != name@,
            decreases self.users@.len() - i,
        {
            if str_eq(self.users[i].name.as_str(), name) {
                let r = UserProfile {
                    name: self.users[i].name.clone(),
                    avatar: self.users[i].avatar.clone(),
                    is_typing: self.users[i].is_typing,
                    last_seen: self.users[i].last_seen,
                };
                proof {
                    assert(first_match(self.users@, name@, i as int));
                }
                return r;
            }
            i = i + 1;
        }
        UserProfile {
            name: name.to_owned(),
            avatar: derive_avatar(name),
            is_typing: false,
            last_seen: None,
        }
    }
}

/// The two rosters agree entry by entry in every displayed field.
pub open spec fn users_equiv(a: Seq<UserProfile>, b: Seq<UserProfile>) -> bool {
    &&& a.len() == b.len()
    &&& forall|i: int| 0 <= i < a.len() ==> profile_equiv(#[trigger] a[i], #[trigger] b[i])
}

/// Law: message events append in arrival order. Applying one message and
/// then another leaves the earlier history untouched and puts the two new
/// records at the end, in that order.
pub proof fn lemma_message_append_order(
    s0: SessionState,
    s1: SessionState,
    s2: SessionState,
    m1: SpecMessageBody,
    m2: SpecMessageBody,
    t1: int,
    t2: int,
)
    requires
        reduces(s0, s1, SpecWire::Message(m1), t1),
        reduces(s1, s2, SpecWire::Message(m2), t2),
    ensures
        s2.messages@.len() == s0.messages@.len() + 2,
        forall|i: int|
            0 <= i < s0.messages@.len() ==> #[trigger] s2.messages@[i] == s0.messages@[i],
        msg_matches(s2.messages@[s0.messages@.len() as int], m1, t1),
        msg_matches(s2.messages@[s0.messages@.len() as int + 1], m2, t2),
{
    assert forall|i: int| 0 <= i < s0.messages@.len() implies #[trigger] s2.messages@[i]
        == s0.messages@[i] by {
        assert(s2.messages@.drop_last()[i] == s2.messages@[i]);
        assert(s1.messages@.drop_last()[i] == s1.messages@[i]);
    }
    assert(s2.messages@.drop_last()[s0.messages@.len() as int] == s2.messages@[s0.messages@.len() as int]);
    assert(s1.messages@.last() == s1.messages@[s0.messages@.len() as int]);
}

/// Law: applying the same `users` snapshot twice in a row leaves the roster
/// unchanged in order and content, and touches neither the history nor the
/// local typing flag.
pub proof fn lemma_users_snapshot_idempotent(
    s0: SessionState,
    s1: SessionState,
    s2: SessionState,
    names: Seq<Seq<char>>,
    t1: int,
    t2: int,
)
    requires
        reduces(s0, s1, SpecWire::Users(names), t1),
        reduces(s1, s2, SpecWire::Users(names), t2),
    ensures
        users_equiv(s1.users@, s2.users@),
        s2.messages == s1.messages,
        s2.local_typing == s1.local_typing,
{
    assert forall|i: int| 0 <= i < s1.users@.len() implies profile_equiv(
        #[trigger] s1.users@[i],
        #[trigger] s2.users@[i],
    ) by {
        assert(user_reset(s1.users@[i], names[i]));
        assert(user_reset(s2.users@[i], names[i]));
    }
}

} // verus!
