//! The registry of running listener tasks that an ingestion supervisor keeps.
//!
//! Each task is a TCP and UDP listener pair bound to one port and is known by
//! the identifier `syslog:<port>:<port>`. The registry is generic over the
//! completion handle `H` that the runtime hands out for a spawned task. It
//! keeps entries in the order they were registered, never holds two entries
//! for one port, and never drops a handle: every handle it accepts is handed
//! back by `stop_all`, `abort_all` or `finished`, and a handle it refuses is
//! handed straight back to the caller.
use vstd::prelude::*;
use vstd::string::StringExecFns;

verus! {

pub open spec fn digit_char(d: nat) -> char {
    if d == 0 {
        '0'
    } else if d == 1 {
        '1'
    } else if d == 2 {
        '2'
    } else if d == 3 {
        '3'
    } else if d == 4 {
        '4'
    } else if d == 5 {
        '5'
    } else if d == 6 {
        '6'
    } else if d == 7 {
        '7'
    } else if d == 8 {
        '8'
    } else {
        '9'
    }
}

/// The decimal digits of `n`, most significant first, without leading zeros.
pub open spec fn decimal(n: nat) -> Seq<char>
    decreases n,
{
    if n < 10 {
        seq![digit_char(n)]
    } else {
        decimal(n / 10) + seq![digit_char(n % 10)]
    }
}

/// The identifier of the listener pair on `port`: `syslog:<port>:<port>`.
pub open spec fn task_id_spec(port: u16) -> Seq<char> {
    seq!['s', 'y', 's', 'l', 'o', 'g', ':'] + decimal(port as nat) + seq![':'] + decimal(
        port as nat,
    )
}

fn digit_str(d: u16) -> (r: &'static str)
    requires
        d < 10,
    ensures
        r@ == seq![digit_char(d as nat)],
{
    proof {
        reveal_strlit("0");
        reveal_strlit("1");
        reveal_strlit("2");
        reveal_strlit("3");
        reveal_strlit("4");
        reveal_strlit("5");
        reveal_strlit("6");
        reveal_strlit("7");
        reveal_strlit("8");
        reveal_strlit("9");
    }
    if d == 0 {
        "0"
    } else if d == 1 {
        "1"
    } else if d == 2 {
        "2"
    } else if d == 3 {
        "3"
    } else if d == 4 {
        "4"
    } else if d == 5 {
        "5"
    } else if d == 6 {
        "6"
    } else if d == 7 {
        "7"
    } else if d == 8 {
        "8"
    } else {
        "9"
    }
}

fn push_decimal(s: &mut String, n: u16)
    ensures
        final(s)@ == old(s)@ + decimal(n as nat),
    decreases n,
{
    if n >= 10 {
        push_decimal(s, n / 10);
    }
    s.append(digit_str(n % 10));
    assert(final(s)@ =~= old(s)@ + decimal(n as nat));
}

/// The identifier under which the listener pair on `port` is registered.
pub fn task_id(port: u16) -> (r: String)
    ensures
        r@ == task_id_spec(port),
{
    proof {
        reveal_strlit("syslog:");
        reveal_strlit(":");
    }
    let mut s = String::from_str("syslog:");
    push_decimal(&mut s, port);
    s.append(":");
    push_decimal(&mut s, port);
    assert(s@ =~= task_id_spec(port));
    s
}

/// One registered task: the port its listener pair is bound to and the
/// handle that resolves when the pair has finished.
pub struct TaskEntry<H> {
    pub port: u16,
    pub handle: H,
}

/// What a graceful stop asks of the caller: broadcast the shutdown signal (only
/// when some task is running), then wait for each of `tasks` in turn.
pub struct ShutdownPlan<H> {
    pub broadcast: bool,
    pub tasks: Vec<TaskEntry<H>>,
}

pub open spec fn ports_of<H>(entries: Seq<TaskEntry<H>>) -> Seq<u16> {
    entries.map_values(|e: TaskEntry<H>| e.port)
}

/// The position of `port` in `entries`, if it is registered.
pub open spec fn index_of<H>(entries: Seq<TaskEntry<H>>, port: u16) -> int {
    ports_of(entries).index_of(port)
}

/// The registry after `start(port, handle)`: a free port is added last, a
/// registered one leaves the registry as it was.
pub open spec fn started<H>(entries: Seq<TaskEntry<H>>, port: u16, handle: H) -> Seq<
    TaskEntry<H>,
> {
    if ports_of(entries).contains(port) {
        entries
    } else {
        entries.push(TaskEntry { port, handle })
    }
}

/// A graceful stop of `entries` broadcasts the shutdown signal.
pub open spec fn stop_broadcasts<H>(entries: Seq<TaskEntry<H>>) -> bool {
    entries.len() > 0
}

/// Starting a listener pair on a free port and then stopping all: the stop
/// broadcasts the shutdown signal and hands back every task that was
/// registered, the new one last with its handle, to be waited on. (After
/// `stop_all` the registry is empty whatever it held.)
pub proof fn lemma_start_then_stop_all<H>(entries: Seq<TaskEntry<H>>, port: u16, handle: H)
    requires
        !ports_of(entries).contains(port),
    ensures
        stop_broadcasts(started(entries, port, handle)),
        started(entries, port, handle).drop_last() == entries,
        started(entries, port, handle).last() == (TaskEntry { port, handle }),
{
    assert(started(entries, port, handle).drop_last() =~= entries);
}

/// Starting twice on one port keeps the first task and its handle: the second
/// start leaves the registry as the first one left it.
pub proof fn lemma_start_twice<H>(entries: Seq<TaskEntry<H>>, port: u16, first: H, second: H)
    ensures
        started(started(entries, port, first), port, second) == started(entries, port, first),
        ports_of(started(entries, port, first)).contains(port),
{
    let once = started(entries, port, first);
    if !ports_of(entries).contains(port) {
        assert(ports_of(once)[once.len() - 1] == port);
    }
}

/// The registry of running listener tasks, in the order they were started.
pub struct Supervisor<H> {
    tasks: Vec<TaskEntry<H>>,
}

impl<H> View for Supervisor<H> {
    type V = Seq<TaskEntry<H>>;

    closed spec fn view(&self) -> Seq<TaskEntry<H>> {
        self.tasks@
    }
}

impl<H> Supervisor<H> {
    /// No port is registered twice.
    pub open spec fn wf(&self) -> bool {
        ports_of(self@).no_duplicates()
    }

    /// An empty registry.
    pub fn new() -> (r: Self)
        ensures
            r.wf(),
            r@ == Seq::<TaskEntry<H>>::empty(),
    {
        let r = Supervisor { tasks: Vec::new() };
        assert(ports_of(r@) =~= Seq::<u16>::empty());
        r
    }

    /// Whether a listener pair on `port` is registered.
    pub fn is_running(&self, port: u16) -> (r: bool)
        ensures
            r == ports_of(self@).contains(port),
    {
        let mut i: usize = 0;
        while i < self.tasks.len()
            invariant
                i <= self.tasks.len(),
                forall|j: int| 0 <= j < i ==> self.tasks@[j].port != port,
            decreases self.tasks.len() - i,
        {
            if self.tasks[i].port == port {
                assert(ports_of(self@)[i as int] == port);
                return true;
            }
            i = i + 1;
        }
        assert(!ports_of(self@).contains(port)) by {
            if ports_of(self@).contains(port) {
                let j = choose|j: int| 0 <= j < ports_of(self@).len() && ports_of(self@)[j] == port;
                assert(self.tasks@[j].port == port);
            }
        }
        false
    }

    /// Registers the listener pair on `port` under its task identifier, which
    /// it returns. A port that is already registered is refused: the registry
    /// is left as it was and `handle` comes back in the error, so that the
    /// earlier task's handle is never lost and the new one can be cancelled.
    pub fn start(&mut self, port: u16, handle: H) -> (r: Result<String, H>)
        requires
            old(self).wf(),
        ensures
            final(self).wf(),
            final(self)@ == started(old(self)@, port, handle),
            ports_of(final(self)@).contains(port),
            ports_of(old(self)@).contains(port) ==> r == Err::<String, H>(handle) && final(self)@
                == old(self)@,
            !ports_of(old(self)@).contains(port) ==> r is Ok && r->Ok_0@ == task_id_spec(port)
                && final(self)@ == old(self)@.push(TaskEntry { port, handle }),
    {
        if self.is_running(port) {
            return Err(handle);
        }
        self.tasks.push(TaskEntry { port, handle });
        assert(ports_of(self@) =~= ports_of(old(self)@).push(port));
        assert(ports_of(self@)[self@.len() - 1] == port);
        Ok(task_id(port))
    }

    /// The identifiers of the registered tasks, in registration order.
    pub fn list(&self) -> (r: Vec<String>)
        ensures
            r.len() == self@.len(),
            forall|i: int| 0 <= i < r.len() ==> #[trigger] r[i]@ == task_id_spec(self@[i].port),
    {
        let mut ids: Vec<String> = Vec::new();
        let mut i: usize = 0;
        while i < self.tasks.len()
            invariant
                i <= self.tasks.len(),
                ids.len() == i,
                forall|j: int| 0 <= j < i ==> #[trigger] ids[j]@ == task_id_spec(self@[j].port),
            decreases self.tasks.len() - i,
        {
            ids.push(task_id(self.tasks[i].port));
            i = i + 1;
        }
        ids
    }

    /// Empties the registry, handing every task over.
    fn take_all(&mut self) -> (r: Vec<TaskEntry<H>>)
        ensures
            r@ == old(self)@,
            final(self)@ == Seq::<TaskEntry<H>>::empty(),
            final(self).wf(),
    {
        let mut rest: Vec<TaskEntry<H>> = Vec::new();
        core::mem::swap(&mut self.tasks, &mut rest);
        assert(ports_of(self@) =~= Seq::<u16>::empty());
        rest
    }

    /// Graceful stop: the registry is emptied and every task is handed back,
    /// in registration order, for the caller to wait on. The shutdown signal
    /// is to be broadcast exactly when some task was registered, so a second
    /// call with nothing running does nothing.
    pub fn stop_all(&mut self) -> (r: ShutdownPlan<H>)
        ensures
            r.broadcast == stop_broadcasts(old(self)@),
            r.tasks@ == old(self)@,
            final(self)@ == Seq::<TaskEntry<H>>::empty(),
            final(self).wf(),
    {
        let broadcast = self.tasks.len() > 0;
        let tasks = self.take_all();
        ShutdownPlan { broadcast, tasks }
    }

    /// Hard stop: the registry is emptied and every task is handed back, in
    /// registration order, for the caller to abort without waiting. No
    /// shutdown signal is involved.
    pub fn abort_all(&mut self) -> (r: Vec<TaskEntry<H>>)
        ensures
            r@ == old(self)@,
            final(self)@ == Seq::<TaskEntry<H>>::empty(),
            final(self).wf(),
    {
        self.take_all()
    }

    /// Removes the task on `port` once it has ended on its own (a bind
    /// failure, say) and hands its handle back; `None` when no such task is
    /// registered.
    pub fn finished(&mut self, port: u16) -> (r: Option<H>)
        requires
            old(self).wf(),
        ensures
            final(self).wf(),
            !ports_of(old(self)@).contains(port) ==> r is None && final(self)@ == old(self)@,
            ports_of(old(self)@).contains(port) ==> r == Some(
                old(self)@[index_of(old(self)@, port)].handle,
            ) && final(self)@ == old(self)@.remove(index_of(old(self)@, port)),
    {
        let mut i: usize = 0;
        while i < self.tasks.len()
            invariant
                i <= self.tasks.len(),
                self.tasks@ == old(self).tasks@,
                ports_of(self@).no_duplicates(),
                forall|j: int| 0 <= j < i ==> self.tasks@[j].port != port,
            decreases self.tasks.len() - i,
        {
            if self.tasks[i].port == port {
                proof {
                    let ps = ports_of(self@);
                    assert(ps[i as int] == port);
                    let c = ps.index_of(port);
                    assert(0 <= c < ps.len() && ps[c] == port);
                    assert(c == i as int);
                }
                let e = self.tasks.remove(i);
                proof {
                    let ps = ports_of(old(self)@);
                    assert(ports_of(self@) =~= ps.remove(i as int));
                    assert forall|a: int, b: int|
                        0 <= a < ports_of(self@).len() && 0 <= b < ports_of(self@).len() && a
                            != b implies ports_of(self@)[a] != ports_of(self@)[b] by {
                        let a0 = if a < i { a } else { a + 1 };
                        let b0 = if b < i { b } else { b + 1 };
                        assert(ports_of(self@)[a] == ps[a0]);
                        assert(ports_of(self@)[b] == ps[b0]);
                    }
                }
                return Some(e.handle);
            }
            i = i + 1;
        }
        assert(!ports_of(self@).contains(port)) by {
            if ports_of(self@).contains(port) {
                let j = choose|j: int| 0 <= j < ports_of(self@).len() && ports_of(self@)[j] == port;
                assert(self.tasks@[j].port == port);
            }
        }
        None
    }
}

} // verus!
