//! The language-server runtimes of the application, one per agent and
//! server: the runtimes that run (and whether each is still starting up),
//! and, for a server that is being started, the commands that wait for it.
use vstd::prelude::*;

verus! {

/// An agent's index and a server's index.
pub type LspKey = (usize, usize);

/// The first entry of `s` with `key`, if there is one.
pub open spec fn key_index<T>(s: Seq<(LspKey, T)>, key: LspKey) -> Option<int>
    decreases s.len(),
{
    if s.len() == 0 {
        None
    } else {
        match key_index(s.drop_last(), key) {
            Some(i) => Some(i),
            None => if s.last().0 == key {
                Some(s.len() - 1)
            } else {
                None
            },
        }
    }
}

/// No two entries of `s` have the same key.
pub open spec fn unique_keys<T>(s: Seq<(LspKey, T)>) -> bool {
    forall|i: int, j: int| 0 <= i < j < s.len() ==> s[i].0 != s[j].0
}

/// `s` without the entry of `key`.
pub open spec fn without_key<T>(s: Seq<(LspKey, T)>, key: LspKey) -> Seq<(LspKey, T)> {
    match key_index(s, key) {
        Some(i) => s.remove(i),
        None => s,
    }
}

/// `s` with `v` at `key`: in place of the entry of `key`, or added at the
/// end.
pub open spec fn with_entry<T>(s: Seq<(LspKey, T)>, key: LspKey, v: T) -> Seq<(LspKey, T)> {
    match key_index(s, key) {
        Some(i) => s.update(i, (key, v)),
        None => s.push((key, v)),
    }
}

/// What `key_index` finds: the entry with the key, before which none has
/// it; or that no entry has it.
pub proof fn lemma_key_index<T>(s: Seq<(LspKey, T)>, key: LspKey)
    ensures
        match key_index(s, key) {
            Some(i) => 0 <= i < s.len() && s[i].0 == key && forall|j: int| 0 <= j < i ==> s[j].0 != key,
            None => forall|j: int| 0 <= j < s.len() ==> s[j].0 != key,
        },
    decreases s.len(),
{
    if s.len() > 0 {
        lemma_key_index(s.drop_last(), key);
        assert forall|j: int| 0 <= j < s.len() - 1 implies s.drop_last()[j] == s[j] by {}
    }
}

/// Removing an entry keeps the keys unique.
pub proof fn lemma_unique_without<T>(s: Seq<(LspKey, T)>, key: LspKey)
    requires
        unique_keys(s),
    ensures
        unique_keys(without_key(s, key)),
{
    lemma_key_index(s, key);
    match key_index(s, key) {
        Some(i) => {
            let r = s.remove(i);
            assert forall|a: int, b: int| 0 <= a < b < r.len() implies r[a].0 != r[b].0 by {
                let a2 = if a < i { a } else { a + 1 };
                let b2 = if b < i { b } else { b + 1 };
                assert(r[a] == s[a2] && r[b] == s[b2]);
            }
        },
        None => {},
    }
}

/// Setting an entry keeps the keys unique.
pub proof fn lemma_unique_kept<T>(s: Seq<(LspKey, T)>, key: LspKey, v: T)
    requires
        unique_keys(s),
    ensures
        unique_keys(with_entry(s, key, v)),
{
    lemma_key_index(s, key);
}

/// A language-server runtime: the handle that reaches it, its server's
/// name, and whether it is still starting up (no answer has come yet).
#[derive(Debug)]
pub struct LspRuntime<H> {
    pub handle: H,
    pub server_name: String,
    pub starting: bool,
}

/// The language-server runtimes, and the commands waiting for servers
/// that are being started. Each key appears at most once in each list.
#[derive(Debug)]
pub struct LspRuntimes<H, C> {
    pub runtimes: Vec<(LspKey, LspRuntime<H>)>,
    pub waiting: Vec<(LspKey, Vec<C>)>,
}

/// The waiting commands as sequences.
pub open spec fn waiting_view<C>(w: Seq<(LspKey, Vec<C>)>) -> Seq<(LspKey, Seq<C>)> {
    w.map_values(|e: (LspKey, Vec<C>)| (e.0, e.1@))
}

/// The commands waiting for the server of `key`, first to be sent first.
pub open spec fn waiting_for<C>(w: Seq<(LspKey, Seq<C>)>, key: LspKey) -> Seq<C> {
    match key_index(w, key) {
        Some(i) => w[i].1,
        None => Seq::empty(),
    }
}

proof fn lemma_waiting_view_keys<C>(w: Seq<(LspKey, Vec<C>)>, key: LspKey)
    ensures
        key_index(waiting_view(w), key) == key_index(w, key),
        unique_keys(waiting_view(w)) == unique_keys(w),
    decreases w.len(),
{
    let v = waiting_view(w);
    assert(v.len() == w.len());
    assert forall|i: int| 0 <= i < w.len() implies #[trigger] v[i].0 == w[i].0 by {}
    if unique_keys(w) {
        assert forall|i: int, j: int| 0 <= i < j < v.len() implies v[i].0 != v[j].0 by {
            assert(v[i].0 == w[i].0 && v[j].0 == w[j].0);
        }
    }
    if unique_keys(v) {
        assert forall|i: int, j: int| 0 <= i < j < w.len() implies w[i].0 != w[j].0 by {
            assert(v[i].0 == w[i].0 && v[j].0 == w[j].0);
        }
    }
    if w.len() > 0 {
        lemma_waiting_view_keys(w.drop_last(), key);
        assert(waiting_view(w.drop_last()) =~= waiting_view(w).drop_last());
    }
}

/// Finds the entry of `key`.
fn find_key<T>(s: &Vec<(LspKey, T)>, key: LspKey) -> (r: Option<usize>)
    ensures
        match r {
            Some(i) => key_index(s@, key) == Some(i as int) && i < s@.len() && s@[i as int].0 == key,
            None => key_index(s@, key) is None && forall|j: int| 0 <= j < s@.len() ==> s@[j].0 != key,
        },
{
    proof {
        lemma_key_index(s@, key);
    }
    let mut i: usize = 0;
    while i < s.len()
        invariant
            0 <= i <= s@.len(),
            key_index(s@.take(i as int), key) is None,
        decreases s@.len() - i,
    {
        assert(s@.take(i + 1).drop_last() =~= s@.take(i as int));
        if s[i].0.0 == key.0 && s[i].0.1 == key.1 {
            assert(key_index(s@.take(i + 1), key) == Some(i as int));
            proof {
                lemma_key_index_extends(s@, key, i + 1);
            }
            return Some(i);
        }
        i += 1;
    }
    assert(s@.take(i as int) =~= s@);
    None
}

/// A first match found in a prefix is the first match of the whole.
proof fn lemma_key_index_extends<T>(s: Seq<(LspKey, T)>, key: LspKey, j: int)
    requires
        0 <= j <= s.len(),
        key_index(s.take(j), key) is Some,
    ensures
        key_index(s, key) == key_index(s.take(j), key),
    decreases s.len() - j,
{
    if j == s.len() {
        assert(s.take(j) =~= s);
    } else {
        assert(s.take(j + 1).drop_last() =~= s.take(j));
        lemma_key_index_extends(s, key, j + 1);
    }
}

impl<H, C> LspRuntimes<H, C> {
    /// Each key appears at most once in each list.
    pub open spec fn wf(&self) -> bool {
        unique_keys(self.runtimes@) && unique_keys(self.waiting@)
    }

    /// The waiting commands as sequences.
    pub open spec fn waiting_seq(&self) -> Seq<(LspKey, Seq<C>)> {
        waiting_view(self.waiting@)
    }

    /// No runtime and nothing waiting.
    pub fn new() -> (r: Self)
        ensures
            r.runtimes@.len() == 0,
            r.waiting@.len() == 0,
            r.wf(),
    {
        LspRuntimes { runtimes: Vec::new(), waiting: Vec::new() }
    }

    /// The runtime of `key`, if there is one.
    pub fn runtime(&self, key: LspKey) -> (r: Option<&LspRuntime<H>>)
        ensures
            match key_index(self.runtimes@, key) {
                Some(i) => r matches Some(rt) && *rt == self.runtimes@[i].1,
                None => r is None,
            },
    {
        match find_key(&self.runtimes, key) {
            Some(i) => Some(&self.runtimes[i].1),
            None => None,
        }
    }

    /// Whether the runtime of `key` runs and is still starting up.
    pub fn is_starting(&self, key: LspKey) -> (r: bool)
        ensures
            r == (match key_index(self.runtimes@, key) {
                Some(i) => self.runtimes@[i].1.starting,
                None => false,
            }),
    {
        match find_key(&self.runtimes, key) {
            Some(i) => self.runtimes[i].1.starting,
            None => false,
        }
    }

    /// Sets the runtime of `key`.
    fn set_runtime(&mut self, key: LspKey, runtime: LspRuntime<H>)
        requires
            old(self).wf(),
        ensures
            final(self).wf(),
            final(self).runtimes@ == with_entry(old(self).runtimes@, key, runtime),
            final(self).waiting == old(self).waiting,
    {
        proof {
            lemma_unique_kept(self.runtimes@, key, runtime);
        }
        match find_key(&self.runtimes, key) {
            Some(i) => {
                let _ = self.runtimes.remove(i);
                self.runtimes.insert(i, (key, runtime));
                assert(self.runtimes@ =~= with_entry(old(self).runtimes@, key, runtime));
            },
            None => {
                self.runtimes.push((key, runtime));
            },
        }
    }

    /// Removes the runtime of `key`.
    fn remove_runtime(&mut self, key: LspKey)
        requires
            old(self).wf(),
        ensures
            final(self).wf(),
            final(self).runtimes@ == without_key(old(self).runtimes@, key),
            final(self).waiting == old(self).waiting,
    {
        proof {
            lemma_unique_without(self.runtimes@, key);
        }
        match find_key(&self.runtimes, key) {
            Some(i) => {
                let _ = self.runtimes.remove(i);
            },
            None => {},
        }
    }

    /// Takes the commands waiting for `key` out, in order.
    fn take_waiting(&mut self, key: LspKey) -> (r: Vec<C>)
        requires
            old(self).wf(),
        ensures
            final(self).wf(),
            r@ == waiting_for(old(self).waiting_seq(), key),
            final(self).waiting_seq() == without_key(old(self).waiting_seq(), key),
            final(self).runtimes == old(self).runtimes,
    {
        proof {
            lemma_waiting_view_keys(self.waiting@, key);
            lemma_key_index(self.waiting@, key);
            lemma_unique_without(self.waiting@, key);
        }
        match find_key(&self.waiting, key) {
            Some(i) => {
                let (_, commands) = self.waiting.remove(i);
                assert(waiting_view(self.waiting@) =~= waiting_view(old(self).waiting@).remove(i as int));
                commands
            },
            None => Vec::new(),
        }
    }

    /// A server for `key` was started and answers through `handle`; it is
    /// starting up until its first answer.
    pub fn start_runtime(&mut self, key: LspKey, server_name: String, handle: H)
        requires
            old(self).wf(),
        ensures
            final(self).wf(),
            final(self).runtimes@ == with_entry(
                old(self).runtimes@,
                key,
                LspRuntime { handle, server_name, starting: true },
            ),
            final(self).waiting == old(self).waiting,
    {
        self.set_runtime(key, LspRuntime { handle, server_name, starting: true });
    }

    /// A command for the server of `key`, which is being started, waits
    /// for it behind the commands already waiting.
    pub fn wait_for_start(&mut self, key: LspKey, command: C)
        requires
            old(self).wf(),
        ensures
            final(self).wf(),
            final(self).waiting_seq() == with_entry(
                old(self).waiting_seq(),
                key,
                waiting_for(old(self).waiting_seq(), key).push(command),
            ),
            final(self).runtimes == old(self).runtimes,
    {
        proof {
            lemma_waiting_view_keys(self.waiting@, key);
            lemma_key_index(self.waiting@, key);
        }
        match find_key(&self.waiting, key) {
            Some(i) => {
                let (k, mut commands) = self.waiting.remove(i);
                let ghost before = commands@;
                commands.push(command);
                let ghost entry = (k, commands);
                proof {
                    lemma_unique_kept(old(self).waiting@, key, commands);
                }
                self.waiting.insert(i, (k, commands));
                assert(self.waiting@ =~= old(self).waiting@.update(i as int, entry));
                assert(waiting_view(self.waiting@) =~= waiting_view(old(self).waiting@).update(
                    i as int,
                    (key, before.push(command)),
                ));
            },
            None => {
                let mut commands: Vec<C> = Vec::new();
                commands.push(command);
                proof {
                    lemma_unique_kept(old(self).waiting@, key, commands);
                }
                self.waiting.push((key, commands));
                assert(waiting_view(self.waiting@) =~= waiting_view(old(self).waiting@).push(
                    (key, seq![command]),
                ));
                assert(Seq::<C>::empty().push(command) =~= seq![command]);
            },
        }
    }

    /// The server of `key` is ready and answers through `handle`: it runs,
    /// still starting up until its first answer, and the commands that
    /// waited for it are returned to be sent, in the order they came.
    pub fn runtime_ready(&mut self, key: LspKey, server_name: String, handle: H) -> (sends: Vec<C>)
        requires
            old(self).wf(),
        ensures
            final(self).wf(),
            sends@ == waiting_for(old(self).waiting_seq(), key),
            final(self).waiting_seq() == without_key(old(self).waiting_seq(), key),
            final(self).runtimes@ == with_entry(
                old(self).runtimes@,
                key,
                LspRuntime { handle, server_name, starting: true },
            ),
    {
        let sends = self.take_waiting(key);
        self.start_runtime(key, server_name, handle);
        sends
    }

    /// The server of `key` could not be started or stopped: its runtime and
    /// the commands waiting for it are dropped (the caller shows the error).
    pub fn runtime_failed(&mut self, key: LspKey)
        requires
            old(self).wf(),
        ensures
            final(self).wf(),
            final(self).waiting_seq() == without_key(old(self).waiting_seq(), key),
            final(self).runtimes@ == without_key(old(self).runtimes@, key),
    {
        let _ = self.take_waiting(key);
        self.remove_runtime(key);
    }

    /// A request to the server of `key` could not be sent: its runtime is
    /// dropped, and the next request starts it again.
    pub fn drop_runtime(&mut self, key: LspKey)
        requires
            old(self).wf(),
        ensures
            final(self).wf(),
            final(self).runtimes@ == without_key(old(self).runtimes@, key),
            final(self).waiting == old(self).waiting,
    {
        self.remove_runtime(key);
    }

    /// An answer came from the server of `key`: it is no longer starting up.
    pub fn mark_ready(&mut self, key: LspKey)
        requires
            old(self).wf(),
        ensures
            final(self).wf(),
            final(self).waiting == old(self).waiting,
            final(self).runtimes@.len() == old(self).runtimes@.len(),
            forall|j: int|
                0 <= j < old(self).runtimes@.len() && Some(j) != key_index(old(self).runtimes@, key)
                    ==> final(self).runtimes@[j] == old(self).runtimes@[j],
            match key_index(old(self).runtimes@, key) {
                Some(i) => {
                    &&& final(self).runtimes@[i].0 == key
                    &&& !final(self).runtimes@[i].1.starting
                    &&& final(self).runtimes@[i].1.handle == old(self).runtimes@[i].1.handle
                    &&& final(self).runtimes@[i].1.server_name == old(self).runtimes@[i].1.server_name
                },
                None => true,
            },
    {
        proof {
            lemma_key_index(self.runtimes@, key);
        }
        match find_key(&self.runtimes, key) {
            Some(i) => {
                let (k, mut runtime) = self.runtimes.remove(i);
                runtime.starting = false;
                self.runtimes.insert(i, (k, runtime));
                assert forall|a: int, b: int|
                    0 <= a < b < self.runtimes@.len() implies self.runtimes@[a].0 != self.runtimes@[b].0 by {
                    assert(self.runtimes@[a].0 == old(self).runtimes@[a].0);
                    assert(self.runtimes@[b].0 == old(self).runtimes@[b].0);
                }
            },
            None => {},
        }
    }

    /// What a runtime event does: a ready server runs (starting up until
    /// its first answer) and the commands that waited for it go out in
    /// order; a failed one is dropped with what waited for it, and the
    /// error is shown; an answer marks the answering server as ready.
    pub fn handle_lsp_event(&mut self, event: LspEvent<H>) -> (r: LspEventOutcome<C>)
        requires
            old(self).wf(),
        ensures
            final(self).wf(),
            match event {
                LspEvent::RuntimeReady { key, server_name, handle } => {
                    &&& r matches LspEventOutcome::Send(sends) && sends@ == waiting_for(
                        old(self).waiting_seq(),
                        key,
                    )
                    &&& final(self).waiting_seq() == without_key(old(self).waiting_seq(), key)
                    &&& final(self).runtimes@ == with_entry(
                        old(self).runtimes@,
                        key,
                        LspRuntime { handle, server_name, starting: true },
                    )
                },
                LspEvent::RuntimeFailed { key, message } => {
                    &&& r == LspEventOutcome::<C>::ShowError { agent_index: key.0, message }
                    &&& final(self).waiting_seq() == without_key(old(self).waiting_seq(), key)
                    &&& final(self).runtimes@ == without_key(old(self).runtimes@, key)
                },
                LspEvent::Answered { agent_index, server_index } => {
                    &&& r is Nothing
                    &&& final(self).waiting == old(self).waiting
                    &&& final(self).runtimes@.len() == old(self).runtimes@.len()
                    &&& forall|j: int| 0 <= j < old(self).runtimes@.len() ==> {
                        let e = old(self).runtimes@[j];
                        let answered = server_index == Some(e.0.1) && e.0.0 == agent_index;
                        #[trigger] final(self).runtimes@[j] == if answered {
                            (e.0, LspRuntime { handle: e.1.handle, server_name: e.1.server_name, starting: false })
                        } else {
                            e
                        }
                    }
                },
            },
    {
        match event {
            LspEvent::RuntimeReady { key, server_name, handle } => {
                LspEventOutcome::Send(self.runtime_ready(key, server_name, handle))
            },
            LspEvent::RuntimeFailed { key, message } => {
                self.runtime_failed(key);
                LspEventOutcome::ShowError { agent_index: key.0, message }
            },
            LspEvent::Answered { agent_index, server_index } => {
                match server_index {
                    Some(server) => {
                        proof {
                            lemma_key_index(self.runtimes@, (agent_index, server));
                        }
                        self.mark_ready((agent_index, server));
                    },
                    None => {},
                }
                LspEventOutcome::Nothing
            },
        }
    }
}

/// What the language-server side reports about a runtime.
#[derive(Debug)]
pub enum LspEvent<H> {
    /// The server of `key` was started and answers through `handle`.
    RuntimeReady { key: LspKey, server_name: String, handle: H },
    /// The server of `key` could not be started, or it stopped.
    RuntimeFailed { key: LspKey, message: String },
    /// An answer (hover, definition or completion) came for a file of an
    /// agent; `server_index` is the server that handles the file, if one does.
    Answered { agent_index: usize, server_index: Option<usize> },
}

/// What the application does after a runtime event.
#[derive(Debug)]
pub enum LspEventOutcome<C> {
    /// Send these commands to the server that is now ready, in this order.
    Send(Vec<C>),
    /// Show this error in the editor of the agent.
    ShowError { agent_index: usize, message: String },
    /// Nothing further.
    Nothing,
}

/// Commands queued one after another for a server being started go out in
/// the order they were queued when it is ready, and nothing waits for it
/// afterwards.
pub proof fn law_waiting_commands_keep_their_order<C>(
    w: Seq<(LspKey, Seq<C>)>,
    key: LspKey,
    first: C,
    second: C,
)
    requires
        unique_keys(w),
        key_index(w, key) is None,
    ensures
        ({
            let once = with_entry(w, key, waiting_for(w, key).push(first));
            let twice = with_entry(once, key, waiting_for(once, key).push(second));
            &&& waiting_for(twice, key) == seq![first, second]
            &&& key_index(without_key(twice, key), key) is None
        }),
{
    let once = with_entry(w, key, waiting_for(w, key).push(first));
    assert(once.drop_last() =~= w);
    assert(key_index(once, key) == Some(w.len() as int));
    let twice = with_entry(once, key, waiting_for(once, key).push(second));
    lemma_unique_kept(w, key, waiting_for(w, key).push(first));
    lemma_unique_kept(once, key, waiting_for(once, key).push(second));
    lemma_unique_without(twice, key);
    lemma_key_index(twice, key);
    assert(twice.len() == once.len());
    assert(key_index(twice, key) == Some(w.len() as int)) by {
        assert(twice.drop_last() =~= w);
    }
    assert(waiting_for(twice, key) =~= seq![first, second]);
    let rest = without_key(twice, key);
    assert(rest =~= w);
}

} // verus!
