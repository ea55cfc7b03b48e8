use std::collections::hash_map::Entry;
use std::collections::HashMap;

use vstd::prelude::*;

use crate::presence::activity::Activity;
use crate::types::config::PluginConfig;

verus! {

broadcast use vstd::std_specs::hash::group_hash_axioms;

/// What the server keeps of one connected editor.
///
/// `C` is the handle of the pipe that the editor is connected through.
#[derive(Debug)]
pub struct Session<C> {
    pub workspace: Option<String>,
    pub timestamp: Option<u64>,
    pub last_activity: Option<Activity>,
    /// Nanoseconds since the epoch at the last activity update.
    pub last_updated: u128,
    pub config: Option<PluginConfig>,
    pub pipe_client: Option<C>,
}

impl<C> Session<C> {
    /// A session with nothing known yet.
    pub open spec fn spec_new() -> Session<C> {
        Session {
            workspace: None,
            timestamp: None,
            last_activity: None,
            last_updated: 0,
            config: None,
            pipe_client: None,
        }
    }

    pub fn new() -> (r: Session<C>)
        ensures
            r.workspace is None,
            r.timestamp is None,
            r.last_activity is None,
            r.last_updated == 0,
            r.config is None,
            r.pipe_client is None,
    {
        Session {
            workspace: None,
            timestamp: None,
            last_activity: None,
            last_updated: 0,
            config: None,
            pipe_client: None,
        }
    }

    pub fn set_workspace(&mut self, workspace: String)
        ensures
            *final(self) == (Session { workspace: Some(workspace), ..*old(self) }),
    {
        self.workspace = Some(workspace);
    }

    pub fn set_timestamp(&mut self, timestamp: u64)
        ensures
            *final(self) == (Session { timestamp: Some(timestamp), ..*old(self) }),
    {
        self.timestamp = Some(timestamp);
    }

    pub fn set_last_activity(&mut self, activity: Activity)
        ensures
            *final(self) == (Session { last_activity: Some(activity), ..*old(self) }),
    {
        self.last_activity = Some(activity);
    }

    pub fn set_config(&mut self, config: PluginConfig)
        ensures
            *final(self) == (Session { config: Some(config), ..*old(self) }),
    {
        self.config = Some(config);
    }

    pub fn set_pipe_client(&mut self, client: C)
        ensures
            *final(self) == (Session { pipe_client: Some(client), ..*old(self) }),
    {
        self.pipe_client = Some(client);
    }

    pub fn get_config(&self) -> (r: Option<&PluginConfig>)
        ensures
            match self.config {
                Some(c) => r == Some(&c),
                None => r is None,
            },
    {
        self.config.as_ref()
    }

    pub fn get_pipe_client(&self) -> (r: Option<&C>)
        ensures
            match self.pipe_client {
                Some(c) => r == Some(&c),
                None => r is None,
            },
    {
        self.pipe_client.as_ref()
    }

    /// The pipe handle, to use in place, if the session has one.
    pub fn get_pipe_client_mut(&mut self) -> (r: Option<&mut C>)
        ensures
            match r {
                Some(c) => {
                    &&& old(self).pipe_client == Some(*c)
                    &&& *final(self) == (Session { pipe_client: Some(*final(c)), ..*old(self) })
                },
                None => old(self).pipe_client is None && *final(self) == *old(self),
            },
    {
        match &mut self.pipe_client {
            Some(c) => Some(c),
            None => None,
        }
    }
}

/// The session of `id` is another editor's, with an activity that is not
/// idle.
pub open spec fn non_idle_candidate<C>(m: Map<u32, Session<C>>, except: u32, id: u32) -> bool {
    &&& m.contains_key(id)
    &&& id != except
    &&& m[id].last_activity matches Some(a) && !a.is_idle
}

/// Among the candidates, the session of `id` was updated last.
pub open spec fn latest_non_idle<C>(m: Map<u32, Session<C>>, except: u32, id: u32) -> bool {
    &&& non_idle_candidate(m, except, id)
    &&& forall|j: u32|
        #![trigger non_idle_candidate(m, except, j)]
        non_idle_candidate(m, except, j) ==> m[j].last_updated <= m[id].last_updated
}

/// The session of `id` has an activity, and is not `except`'s.
pub open spec fn active_candidate<C>(m: Map<u32, Session<C>>, except: Option<u32>, id: u32) -> bool {
    &&& m.contains_key(id)
    &&& (except matches Some(x) ==> id != x)
    &&& m[id].last_activity is Some
}

/// Whether a session's activity is not idle.
pub open spec fn busy<C>(s: Session<C>) -> bool {
    s.last_activity matches Some(a) && !a.is_idle
}

/// Sessions ordered by whether they are busy, then by when they were
/// updated.
pub open spec fn ranks_below<C>(a: Session<C>, b: Session<C>) -> bool {
    (!busy(a) && busy(b)) || (busy(a) == busy(b) && a.last_updated <= b.last_updated)
}

/// Among the sessions with an activity, the one of `id` ranks highest: busy
/// ones before idle ones, then the one updated last.
pub open spec fn latest_active<C>(m: Map<u32, Session<C>>, except: Option<u32>, id: u32) -> bool {
    &&& active_candidate(m, except, id)
    &&& forall|j: u32|
        #![trigger active_candidate(m, except, j)]
        active_candidate(m, except, j) ==> ranks_below(m[j], m[id])
}

/// The connected editors' sessions, by client id.
#[derive(Debug)]
pub struct SessionManager<C> {
    sessions: HashMap<u32, Session<C>>,
}

impl<C> View for SessionManager<C> {
    type V = Map<u32, Session<C>>;

    closed spec fn view(&self) -> Map<u32, Session<C>> {
        self.sessions@
    }
}

impl<C> SessionManager<C> {
    pub fn new() -> (r: SessionManager<C>)
        ensures
            r@ == Map::<u32, Session<C>>::empty(),
    {
        SessionManager { sessions: HashMap::new() }
    }

    /// The number of sessions.
    pub fn len(&self) -> (r: usize)
        ensures
            r == self@.dom().len(),
    {
        self.sessions.len()
    }

    /// Opens a session for a newly connected editor, replacing any session
    /// under the same id.
    pub fn create_session(&mut self, id: u32, client: C)
        ensures
            final(self)@ == old(self)@.insert(id, Session { pipe_client: Some(client), ..Session::<C>::spec_new() }),
    {
        let mut session = Session::new();
        session.set_pipe_client(client);
        self.insert(id, session);
    }

    /// Stores a session under an id, replacing any session there.
    pub fn insert(&mut self, id: u32, session: Session<C>)
        ensures
            final(self)@ == old(self)@.insert(id, session),
    {
        self.sessions.insert(id, session);
    }

    /// Closes the session of an editor, if it has one.
    pub fn remove_session(&mut self, id: u32)
        ensures
            final(self)@ == old(self)@.remove(id),
    {
        self.sessions.remove(&id);
    }

    /// The session of an editor, if it has one.
    pub fn get_session(&self, id: u32) -> (r: Option<&Session<C>>)
        ensures
            match r {
                Some(s) => self@.dom().contains(id) && *s == self@[id],
                None => !self@.dom().contains(id),
            },
    {
        self.sessions.get(&id)
    }

    /// The session of an editor, to change in place, if it has one.
    pub fn get_session_mut(&mut self, id: u32) -> (r: Option<&mut Session<C>>)
        ensures
            match r {
                Some(s) => {
                    &&& old(self)@.dom().contains(id)
                    &&& *s == old(self)@[id]
                    &&& final(self)@ == old(self)@.insert(id, *final(s))
                },
                None => {
                    &&& !old(self)@.dom().contains(id)
                    &&& final(self)@ == old(self)@
                },
            },
    {
        match self.sessions.entry(id) {
            Entry::Occupied(o) => Some(o.into_mut()),
            Entry::Vacant(_) => None,
        }
    }

    /// The activity of the other editor that shows a non-idle activity and
    /// was updated last, if there is one.
    pub fn latest_non_idle_activity(&self, except: u32) -> (r: Option<Activity>)
        ensures
            r is None <==> !exists|id: u32| non_idle_candidate(self@, except, id),
            r matches Some(a) ==> exists|id: u32|
                latest_non_idle(self@, except, id) && a@ == self@[id].last_activity->0@,
    {
        let ghost m = self@;
        let mut best: Option<u32> = None;
        for (id, s) in it: self.sessions.iter()
            invariant
                m == self@,
                forall|i: int|
                    0 <= i < it.seq().len() ==> m.contains_key(*it.seq()[i].0) && m[*it.seq()[i].0]
                        == *it.seq()[i].1,
                forall|k: u32|
                    m.contains_key(k) ==> exists|i: int|
                        0 <= i < it.seq().len() && *it.seq()[i].0 == k,
                best is None <==> !exists|i: int|
                    0 <= i < it.index() && #[trigger] non_idle_candidate(m, except, *it.seq()[i].0),
                best matches Some(b) ==> non_idle_candidate(m, except, b) && forall|i: int|
                    0 <= i < it.index() && #[trigger] non_idle_candidate(m, except, *it.seq()[i].0)
                        ==> m[*it.seq()[i].0].last_updated <= m[b].last_updated,
        {
            assert(*id == *it.seq()[it.index() as int].0 && m[*id] == *s);
            let is_candidate = *id != except && match &s.last_activity {
                Some(a) => !a.is_idle,
                None => false,
            };
            assert(is_candidate == non_idle_candidate(m, except, *id));
            if is_candidate {
                match best {
                    Some(b) => {
                        let cur = self.sessions.get(&b).unwrap();
                        if cur.last_updated <= s.last_updated {
                            best = Some(*id);
                        }
                    },
                    None => {
                        best = Some(*id);
                    },
                }
            }
        }
        match best {
            Some(b) => {
                assert(latest_non_idle(m, except, b));
                match &self.sessions.get(&b).unwrap().last_activity {
                    Some(a) => Some(a.duplicate()),
                    None => None,
                }
            },
            None => None,
        }
    }

    /// The activity of the session that ranks highest among those with an
    /// activity, leaving out `except`'s: a busy one before an idle one,
    /// then the one updated last.
    pub fn latest_activity(&self, except: Option<u32>) -> (r: Option<Activity>)
        ensures
            r is None <==> !exists|id: u32| active_candidate(self@, except, id),
            r matches Some(a) ==> exists|id: u32|
                latest_active(self@, except, id) && a@ == self@[id].last_activity->0@,
    {
        let ghost m = self@;
        let mut best: Option<u32> = None;
        for (id, s) in it: self.sessions.iter()
            invariant
                m == self@,
                forall|i: int|
                    0 <= i < it.seq().len() ==> m.contains_key(*it.seq()[i].0) && m[*it.seq()[i].0]
                        == *it.seq()[i].1,
                forall|k: u32|
                    m.contains_key(k) ==> exists|i: int|
                        0 <= i < it.seq().len() && *it.seq()[i].0 == k,
                best is None <==> !exists|i: int|
                    0 <= i < it.index() && #[trigger] active_candidate(m, except, *it.seq()[i].0),
                best matches Some(b) ==> active_candidate(m, except, b) && forall|i: int|
                    0 <= i < it.index() && #[trigger] active_candidate(m, except, *it.seq()[i].0)
                        ==> ranks_below(m[*it.seq()[i].0], m[b]),
        {
            assert(*id == *it.seq()[it.index() as int].0 && m[*id] == *s);
            let excluded = match except {
                Some(x) => *id == x,
                None => false,
            };
            assert((!excluded && s.last_activity.is_some()) == active_candidate(m, except, *id));
            if !excluded && s.last_activity.is_some() {
                match best {
                    Some(b) => {
                        let cur = self.sessions.get(&b).unwrap();
                        let cur_busy = match &cur.last_activity {
                            Some(a) => !a.is_idle,
                            None => false,
                        };
                        let new_busy = match &s.last_activity {
                            Some(a) => !a.is_idle,
                            None => false,
                        };
                        if (!cur_busy && new_busy) || (cur_busy == new_busy && cur.last_updated
                            <= s.last_updated) {
                            best = Some(*id);
                        }
                    },
                    None => {
                        best = Some(*id);
                    },
                }
            }
        }
        match best {
            Some(b) => {
                assert(latest_active(m, except, b));
                match &self.sessions.get(&b).unwrap().last_activity {
                    Some(a) => Some(a.duplicate()),
                    None => None,
                }
            },
            None => None,
        }
    }
}

/// A session stored under an id is what a lookup of that id then finds,
/// and every other id keeps what it had; once an id's session is removed a
/// lookup of it finds nothing, and every other id keeps what it had.
pub proof fn lemma_store_then_find<C>(
    sessions: Map<u32, Session<C>>,
    id: u32,
    session: Session<C>,
    other: u32,
)
    requires
        other != id,
    ensures
        sessions.insert(id, session).dom().contains(id),
        sessions.insert(id, session)[id] == session,
        sessions.insert(id, session).dom().contains(other) == sessions.dom().contains(other),
        sessions.dom().contains(other) ==> sessions.insert(id, session)[other] == sessions[other],
        !sessions.remove(id).dom().contains(id),
        sessions.remove(id).dom().contains(other) == sessions.dom().contains(other),
        sessions.dom().contains(other) ==> sessions.remove(id)[other] == sessions[other],
{
}

} // verus!
