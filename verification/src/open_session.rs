//! The session on screen, and the conversations kept for the others.

use crate::keyed::{is_first_key, TextMap};
use crate::words::{copy_text, maybe_str, maybe_text};
use vstd::prelude::*;

verus! {

/// How many sessions' worth of messages to keep while the user is elsewhere.
pub const PARKED_LIMIT: usize = 8;

/// State for the session the user is looking at. A conversation of type `C` is kept for
/// it and for the sessions that were left.
pub struct OpenSession<C> {
    /// The session that this connection is subscribed to.
    pub live_id: Option<String>,
    /// The session's key on the backend.
    pub stored_id: Option<String>,
    /// The conversation on screen.
    pub conversation: C,
    /// Conversations for sessions that are not on screen. Switching away and back must
    /// not lose what was drawn.
    pub parked: TextMap<C>,
}

pub struct OpenView<C> {
    pub live_id: Option<Seq<char>>,
    pub stored_id: Option<Seq<char>>,
    pub conversation: C,
    pub parked: Map<Seq<char>, C>,
}

impl<C> View for OpenSession<C> {
    type V = OpenView<C>;

    open spec fn view(&self) -> OpenView<C> {
        OpenView {
            live_id: maybe_text(self.live_id),
            stored_id: maybe_text(self.stored_id),
            conversation: self.conversation,
            parked: self.parked@,
        }
    }
}

impl<C> OpenView<C> {
    /// The key a conversation is filed under: whichever id is known.
    pub open spec fn key(self) -> Option<Seq<char>> {
        if self.stored_id is Some {
            self.stored_id
        } else {
            self.live_id
        }
    }

    /// Whether what arrives belongs to the messages on screen.
    pub open spec fn accepts_turn_events(self) -> bool {
        self.live_id is Some || self.stored_id is None
    }

    /// The kept conversations with the one on screen among them.
    pub open spec fn filed(self) -> Map<Seq<char>, C> {
        match self.key() {
            Some(key) => self.parked.insert(key, self.conversation),
            None => self.parked,
        }
    }

    /// The kept conversations once the one for `id` is on screen.
    pub open spec fn left_behind(self, id: Option<Seq<char>>) -> Map<Seq<char>, C> {
        match id {
            Some(id) => self.filed().remove(id),
            None => self.filed(),
        }
    }

    /// What a switch to `id` leads to. The conversation on screen is put away and the
    /// one for `id` is brought back, or `fresh` where there is none. Where one too many
    /// is kept, the first in order goes; never the one just left.
    pub open spec fn switched(self, id: Option<Seq<char>>, fresh: C, after: OpenView<C>) -> bool {
        let rest = self.left_behind(id);
        &&& after.live_id == self.live_id
        &&& after.stored_id == self.stored_id
        &&& after.conversation == (match id {
            Some(id) => if self.filed().contains_key(id) {
                self.filed()[id]
            } else {
                fresh
            },
            None => fresh,
        })
        &&& if rest.dom().len() <= PARKED_LIMIT {
            after.parked == rest
        } else {
            exists|gone: Seq<char>|
                #[trigger] is_first_key(rest.dom().remove(self.key()->0), gone) && after.parked
                    == rest.remove(gone)
        }
    }
}

impl<C> OpenSession<C> {
    /// The kept conversations have keys of their own and are not too many.
    pub open spec fn wf(&self) -> bool {
        &&& self.parked.wf()
        &&& self.parked@.dom().finite()
        &&& self.parked@.dom().len() <= PARKED_LIMIT
    }

    /// No session on screen.
    pub fn new(conversation: C) -> (open: OpenSession<C>)
        ensures
            open@ == (OpenView {
                live_id: None,
                stored_id: None,
                conversation,
                parked: Map::empty(),
            }),
            open.wf(),
    {
        OpenSession { live_id: None, stored_id: None, conversation, parked: TextMap::new() }
    }

    /// The key a conversation is filed under.
    pub fn key(&self) -> (key: Option<String>)
        ensures
            maybe_text(key) == self@.key(),
    {
        if self.stored_id.is_some() {
            copy_text(&self.stored_id)
        } else {
            copy_text(&self.live_id)
        }
    }

    /// Whether an event that belongs to a turn may be folded into the messages on
    /// screen. While a session is being opened there is no live connection yet, and
    /// anything that arrives in that window was produced by the session the user just
    /// left.
    pub fn accepts_turn_events(&self) -> (accepts: bool)
        ensures
            accepts == self@.accepts_turn_events(),
    {
        self.live_id.is_some() || self.stored_id.is_none()
    }

    /// Put the conversation on screen away and bring back the one for `id`, if this
    /// client has seen it before.
    pub fn switch_to(&mut self, id: Option<&str>, fresh: C)
        requires
            old(self).wf(),
        ensures
            old(self)@.switched(maybe_str(id), fresh, final(self)@),
            final(self).wf(),
    {
        let ghost before = self@;
        let mut left: C = fresh;
        core::mem::swap(&mut self.conversation, &mut left);
        let key: Option<String> = self.key();
        match &key {
            Some(key) => {
                self.parked.insert(key.clone(), left);
            },
            None => {},
        }
        assert(self.parked@ == before.filed());
        match id {
            Some(id) => {
                match self.parked.remove(id) {
                    Some(found) => {
                        self.conversation = found;
                    },
                    None => {},
                }
            },
            None => {},
        }
        let ghost rest = self.parked@;
        assert(rest == before.left_behind(maybe_str(id)));
        proof {
            assert(before.filed().dom().len() <= PARKED_LIMIT + 1);
            assert(rest.dom().len() <= before.filed().dom().len());
        }
        if self.parked.len() > PARKED_LIMIT {
            match &key {
                Some(kept) => {
                    let gone: Option<String> = self.parked.first_key_but(kept.as_str());
                    match gone {
                        Some(gone) => {
                            let _ = self.parked.remove(gone.as_str());
                            assert(is_first_key(
                                rest.dom().remove(before.key()->0),
                                gone@,
                            ));
                        },
                        None => {
                            proof {
                                assert(rest.dom().remove(kept@).len() >= rest.dom().len() - 1);
                                assert(rest.dom().remove(kept@).len() == 0);
                            }
                        },
                    }
                },
                None => {},
            }
        }
    }
}

/// Switching away and back brings back what was on screen, however many sessions are kept
/// and whatever has happened in the other session meanwhile.
pub proof fn switching_away_and_back_keeps_the_conversation<C>(
    first: OpenView<C>,
    left_for: Seq<char>,
    first_fresh: C,
    second: OpenView<C>,
    reading: OpenView<C>,
    second_fresh: C,
    third: OpenView<C>,
)
    requires
        first.key() is Some,
        first.key() != Some(left_for),
        first.parked.dom().finite(),
        first.parked.dom().len() <= PARKED_LIMIT,
        first.switched(Some(left_for), first_fresh, second),
        reading.key() == Some(left_for),
        reading.parked == second.parked,
        reading.switched(first.key(), second_fresh, third),
    ensures
        third.conversation == first.conversation,
{
    let key = first.key()->0;
    let rest = first.left_behind(Some(left_for));
    assert(rest.contains_key(key) && rest[key] == first.conversation);
    if rest.dom().len() > PARKED_LIMIT {
        let gone = choose|gone: Seq<char>|
            #[trigger] is_first_key(rest.dom().remove(key), gone) && second.parked == rest.remove(
                gone,
            );
        assert(gone != key);
    }
    assert(second.parked.contains_key(key) && second.parked[key] == first.conversation);
}

/// A chat with nothing on screen, and a session the connection is subscribed to, take
/// turn events; a session that is only being opened does not.
pub proof fn turn_events_wait_for_the_subscription<C>(open: OpenView<C>)
    ensures
        open.key() is None ==> open.accepts_turn_events(),
        open.live_id is Some ==> open.accepts_turn_events(),
        open.live_id is None && open.stored_id is Some ==> !open.accepts_turn_events(),
{
}

} // verus!
