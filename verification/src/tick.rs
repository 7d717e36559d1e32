use crate::asset_loader::LuaScript;
use crate::commands::{applied, apply_from, handles, CommandQueueWrapper};
use crate::error::BridgeError;
use crate::memory::{HostMemory, Memory};
use crate::query::{advance, Iteration};
use crate::reflect::Handle;
use crate::resolve::{
    arguments, inputs, made_for, resolve, resolve_parameters, Argument, ParameterInput, Resolved,
};
use crate::system::LuaSystem;
use crate::value::{HostValue, Reflection};
use vstd::prelude::*;

verus! {

/// Finishes the invocation of a system. Where its function returned, the changes that
/// it asked for are applied, in the order in which it asked for them; where it failed,
/// they are dropped. Then every handle that was made for the invocation becomes stale.
pub fn finish_invocation(
    outcome: Result<(), BridgeError>,
    commands: &mut CommandQueueWrapper,
    memory: &mut HostMemory,
) -> (r: Vec<Result<HostValue, BridgeError>>)
    ensures
        final(commands).commands@.len() == 0,
        outcome is Ok ==> applied(r@) == apply_from(
            handles(old(commands).commands@),
            old(memory)@,
            0,
        ).0 && final(memory)@ == apply_from(
            handles(old(commands).commands@),
            old(memory)@,
            0,
        ).1.invalidate_all(),
        outcome is Err ==> r@.len() == 0 && final(memory)@ == old(memory)@.invalidate_all(),
{
    let r = match outcome {
        Ok(()) => commands.apply(memory),
        Err(_) => {
            commands.discard();
            Vec::new()
        },
    };
    memory.invalidate_all();
    r
}

/// One invocation of a system: the memory that its handles refer to, the queue of the
/// changes that it asks for, and the arguments that its function is called with. None
/// of it outlives the invocation.
#[derive(Debug)]
pub struct Invocation {
    /// The function to call, by the reference under which the runtime keeps it.
    pub lua_func: u64,
    /// The arguments of the call, in the order of the system's parameters.
    pub arguments: Vec<Argument>,
    pub memory: HostMemory,
    pub commands: CommandQueueWrapper,
}

/// What is left of an invocation when it is finished.
#[derive(Debug)]
pub struct Finished {
    /// For each change that was applied, in the order in which the system asked for
    /// them: the component of the entity to create, or why there is none.
    pub applied: Vec<Result<HostValue, BridgeError>>,
    /// The memory, for the host to take back what it lent. Every flag in it is invalid.
    pub memory: HostMemory,
}

impl Invocation {
    /// Prepares the invocation of `system` with what the host has found for its
    /// parameters: a memory of the generation `generation` and a command queue of its
    /// own, and the arguments in the order of the parameters. Where a parameter cannot
    /// be resolved there is no invocation. The handles of the invocation are good for
    /// its memory alone, so that the generation must be one that no other invocation
    /// has: `TickDriver::begin` sees to that.
    pub fn begin(system: &LuaSystem, found: Vec<ParameterInput>, generation: u64) -> (r: Result<
        Invocation,
        BridgeError,
    >)
        ensures
            match r {
                Ok(invocation) => {
                    &&& invocation.lua_func == system.lua_func
                    &&& invocation.commands.commands@.len() == 0
                    &&& invocation.memory@.generation == generation
                    &&& forall|i: int|
                        0 <= i < invocation.arguments@.len() ==> made_for(
                            (#[trigger] invocation.arguments@[i])@,
                            generation,
                        )
                    &&& resolve(
                        system@.system_parameters,
                        inputs(found@),
                        Memory::empty(generation),
                    ) == (
                        Ok::<Seq<Resolved>, BridgeError>(arguments(invocation.arguments@)),
                        invocation.memory@,
                    )
                },
                Err(e) => resolve(
                    system@.system_parameters,
                    inputs(found@),
                    Memory::empty(generation),
                ).0 == Err::<Seq<Resolved>, BridgeError>(e),
            },
    {
        let mut memory = HostMemory::new(generation);
        match resolve_parameters(system, found, &mut memory) {
            Ok(arguments) => Ok(
                Invocation {
                    lua_func: system.lua_func,
                    arguments,
                    memory,
                    commands: CommandQueueWrapper::new(),
                },
            ),
            Err(e) => Err(e),
        }
    }

    /// Finishes the invocation after its function has returned or failed: see
    /// `finish_invocation`.
    pub fn finish(self, outcome: Result<(), BridgeError>) -> (r: Finished)
        ensures
            outcome is Ok ==> applied(r.applied@) == apply_from(
                handles(self.commands.commands@),
                self.memory@,
                0,
            ).0 && r.memory@ == apply_from(
                handles(self.commands.commands@),
                self.memory@,
                0,
            ).1.invalidate_all(),
            outcome is Err ==> r.applied@.len() == 0 && r.memory@ == self.memory@.invalidate_all(),
    {
        let mut memory = self.memory;
        let mut commands = self.commands;
        let applied = finish_invocation(outcome, &mut commands, &mut memory);
        Finished { applied, memory }
    }
}

/// Once an invocation is finished, no handle is live in its memory, and none becomes
/// live in it again: the memory is closed, so that a handle is stale there whatever is
/// done to the flags afterwards, and an iteration that is stepped there hands out
/// nothing and opens no window.
pub proof fn lemma_finished_invocation_leaves_no_handle(h: Handle, it: Iteration, m: Memory)
    ensures
        m.invalidate_all().closed,
        !h.live(m.invalidate_all()),
        h.target(m.invalidate_all()) == Err::<Reflection, BridgeError>(BridgeError::StaleHandle),
        advance(it, m.invalidate_all()) == (None::<Seq<Handle>>, it, m.invalidate_all()),
{
}

/// In a memory that is closed no handle is live, whatever its flags are.
pub proof fn lemma_closed_memory_has_no_live_handle(h: Handle, m: Memory)
    requires
        m.closed,
    ensures
        !h.live(m),
        h.target(m) == Err::<Reflection, BridgeError>(BridgeError::StaleHandle),
        h.store(m, Reflection::Unit) is Err,
        h.take(m) == Err::<(Reflection, Memory), BridgeError>(BridgeError::StaleHandle),
{
}

/// What a script keeps from an invocation is of no use in any later one. A handle that
/// was made for the memory of one invocation is stale in the memory of every invocation
/// with another generation, and an iteration that was made for it hands out nothing
/// there and opens no window. The memories of the invocations that a driver begins have
/// generations that grow by one from invocation to invocation.
pub proof fn lemma_kept_handle_stays_stale(h: Handle, it: Iteration, earlier: Memory, later: Memory)
    requires
        h.generation == earlier.generation,
        it.generation == earlier.generation,
        earlier.generation < later.generation,
    ensures
        !h.live(later),
        h.target(later) == Err::<Reflection, BridgeError>(BridgeError::StaleHandle),
        advance(it, later) == (None::<Seq<Handle>>, it, later),
        !h.live(advance(it, later).2),
{
}

/// The systems of the scripts from the `a`-th on, each by the index of its script and its
/// own index in it: script after script, and in each the systems as they were registered.
pub open spec fn schedule_from(counts: Seq<int>, a: int) -> Seq<(usize, usize)>
    decreases counts.len() - a,
{
    if a < 0 || a >= counts.len() {
        Seq::empty()
    } else {
        Seq::new(counts[a] as nat, |s: int| (a as usize, s as usize)) + schedule_from(counts, a + 1)
    }
}

/// The number of systems of each script.
pub open spec fn system_counts(scripts: Seq<&LuaScript>) -> Seq<int> {
    scripts.map_values(|script: &LuaScript| script.systems@.len() as int)
}

/// The invocations of one tick, in their order: every system of every loaded script,
/// the scripts in the order in which they are stored and the systems of a script in the
/// order in which it registered them.
fn tick_order(scripts: &Vec<&LuaScript>) -> (order: Vec<(usize, usize)>)
    ensures
        order@ == schedule_from(system_counts(scripts@), 0),
{
    let mut order: Vec<(usize, usize)> = Vec::new();
    let ghost counts = system_counts(scripts@);
    let mut a: usize = 0;
    assert(order@ + schedule_from(counts, 0) =~= schedule_from(counts, 0));
    while a < scripts.len()
        invariant
            a <= scripts.len(),
            counts == system_counts(scripts@),
            schedule_from(counts, 0) == order@ + schedule_from(counts, a as int),
        decreases scripts.len() - a,
    {
        let n = scripts[a].systems.len();
        let ghost before = order@;
        let mut s: usize = 0;
        assert(counts[a as int] == n);
        while s < n
            invariant
                s <= n,
                a < scripts.len(),
                order@ == before + Seq::new(s as nat, |i: int| (a, i as usize)),
            decreases n - s,
        {
            order.push((a, s));
            assert(order@ =~= before + Seq::new((s + 1) as nat, |i: int| (a, i as usize)));
            s += 1;
        }
        assert(before + (Seq::new(n as nat, |i: int| (a, i as usize)) + schedule_from(
            counts,
            a + 1,
        )) =~= order@ + schedule_from(counts, a + 1));
        a += 1;
    }
    assert(order@ + Seq::<(usize, usize)>::empty() =~= order@);
    order
}

/// The source of the generations of the memories. It counts up and never back, and
/// there is no way to set it: a host that keeps one source for all its ticks gives no
/// generation twice.
#[derive(Debug)]
pub struct Generations {
    next: u64,
}

impl View for Generations {
    type V = u64;

    closed spec fn view(&self) -> u64 {
        self.next
    }
}

impl Generations {
    /// A source that stands at the first generation.
    pub fn new() -> (g: Generations)
        ensures
            g@ == 0,
    {
        Generations { next: 0 }
    }

    /// The generation that the source stands at: the one that the next memory gets.
    pub fn peek(&self) -> (g: u64)
        ensures
            g == self@,
    {
        self.next
    }

    /// Passes on to the next generation, once the one that the source stood at is used.
    fn pass(&mut self)
        requires
            old(self)@ < u64::MAX,
        ensures
            final(self)@ == old(self)@ + 1,
    {
        self.next = self.next + 1;
    }
}

/// The course of one tick: the systems to invoke, in their order, how far the tick has
/// come, the failures so far, and the generation that the next invocation gets. A system
/// that fails, or whose parameters cannot be resolved, is reported and passed over; the
/// systems after it run as if it had not been there.
#[derive(Debug)]
pub struct TickDriver {
    /// The systems of the tick, each by the index of its script and its index in it.
    pub order: Vec<(usize, usize)>,
    /// The position in `order` of the system whose turn it is.
    pub next: usize,
    /// The failures of the tick, each with the position in `order` of the system that
    /// failed.
    pub failures: Vec<(usize, BridgeError)>,
    /// The source of the generations: the memory of the next invocation gets the
    /// generation that it stands at, and every invocation that was begun before has a
    /// smaller one. It goes from tick to tick.
    pub generations: Generations,
}

impl TickDriver {
    /// The position after the system whose turn it is had its turn.
    pub open spec fn advanced(&self) -> usize {
        if self.next < self.order@.len() {
            (self.next + 1) as usize
        } else {
            self.next
        }
    }

    /// The failures once the outcome of the system whose turn it is was reported.
    pub open spec fn reported(&self, outcome: Result<(), BridgeError>) -> Seq<(usize, BridgeError)> {
        match outcome {
            Ok(()) => self.failures@,
            Err(e) => self.failures@.push((self.next, e)),
        }
    }

    /// The system whose turn it is, among `scripts`; `None` when the tick is over, and
    /// when `scripts` has no such system.
    pub open spec fn system(&self, scripts: Seq<&LuaScript>) -> Option<LuaSystem> {
        if self.next < self.order@.len() {
            let at = self.order@[self.next as int];
            if at.0 < scripts.len() && at.1 < scripts[at.0 as int].systems@.len() {
                Some(scripts[at.0 as int].systems@[at.1 as int])
            } else {
                None
            }
        } else {
            None
        }
    }

    /// The system whose turn it is; `None` when the tick is over.
    pub fn current(&self) -> (r: Option<(usize, usize)>)
        ensures
            r == if self.next < self.order@.len() {
                Some(self.order@[self.next as int])
            } else {
                None
            },
    {
        if self.next < self.order.len() {
            Some(self.order[self.next])
        } else {
            None
        }
    }

    /// Reports the outcome of the system whose turn it was, and passes on to the next.
    fn pass(&mut self, outcome: Result<(), BridgeError>)
        ensures
            final(self).order == old(self).order,
            final(self).generations@ == old(self).generations@,
            final(self).next == old(self).advanced(),
            final(self).failures@ == old(self).reported(outcome),
    {
        match outcome {
            Ok(()) => {},
            Err(e) => {
                self.failures.push((self.next, e));
            },
        }
        if self.next < self.order.len() {
            self.next = self.next + 1;
        }
    }

    /// Prepares the invocation of the system whose turn it is, with what the host has
    /// found for its parameters. `scripts` are the scripts that the tick was started
    /// with. The invocation gets a memory of a generation that no invocation before it
    /// had, so that nothing that a script has kept is live in it.
    ///
    /// When the tick is over, nothing happens. Where the system is not to be had
    /// (`scripts` are not those of the tick, or the generations are used up) or one of
    /// its parameters cannot be resolved, it is not invoked in this tick: the failure
    /// is reported and the next system has its turn.
    pub fn begin(&mut self, scripts: &Vec<&LuaScript>, found: Vec<ParameterInput>) -> (r: Option<
        Invocation,
    >)
        ensures
            final(self).order == old(self).order,
            if old(self).next >= old(self).order@.len() {
                &&& r is None
                &&& final(self).next == old(self).next
                &&& final(self).failures == old(self).failures
                &&& final(self).generations@ == old(self).generations@
            } else if old(self).system(scripts@) is None || old(self).generations@ == u64::MAX {
                &&& r is None
                &&& final(self).next == old(self).advanced()
                &&& final(self).failures@ == old(self).reported(Err(BridgeError::InvocationError))
                &&& final(self).generations@ == old(self).generations@
            } else {
                let system = old(self).system(scripts@)->0;
                let resolved = resolve(
                    system@.system_parameters,
                    inputs(found@),
                    Memory::empty(old(self).generations@),
                );
                match resolved.0 {
                    Ok(args) => {
                        &&& final(self).next == old(self).next
                        &&& final(self).failures == old(self).failures
                        &&& final(self).generations@ == old(self).generations@ + 1
                        &&& r matches Some(invocation) && invocation.lua_func == system.lua_func
                            && invocation.commands.commands@.len() == 0 && arguments(
                            invocation.arguments@,
                        ) == args && invocation.memory@ == resolved.1
                            && invocation.memory@.generation == old(self).generations@
                            && forall|i: int|
                            0 <= i < invocation.arguments@.len() ==> made_for(
                                (#[trigger] invocation.arguments@[i])@,
                                old(self).generations@,
                            )
                    },
                    Err(e) => {
                        &&& r is None
                        &&& final(self).next == old(self).advanced()
                        &&& final(self).failures@ == old(self).reported(Err(e))
                        &&& final(self).generations@ == old(self).generations@
                    },
                }
            },
    {
        let at = match self.current() {
            Some(at) => at,
            None => {
                return None;
            },
        };
        let generation = self.generations.peek();
        if at.0 >= scripts.len() || at.1 >= scripts[at.0].systems.len() || generation
            == u64::MAX {
            self.pass(Err(BridgeError::InvocationError));
            return None;
        }
        match Invocation::begin(&scripts[at.0].systems[at.1], found, generation) {
            Ok(invocation) => {
                self.generations.pass();
                Some(invocation)
            },
            Err(e) => {
                self.pass(Err(e));
                None
            },
        }
    }

    /// Finishes the invocation of the system whose turn it is, after its function has
    /// returned or failed, and passes on to the next system. A failure is reported, and
    /// the changes that the system asked for are dropped with it.
    pub fn finish(&mut self, invocation: Invocation, outcome: Result<(), BridgeError>) -> (r: Finished)
        ensures
            final(self).order == old(self).order,
            final(self).generations@ == old(self).generations@,
            final(self).next == old(self).advanced(),
            final(self).failures@ == old(self).reported(outcome),
            outcome is Ok ==> applied(r.applied@) == apply_from(
                handles(invocation.commands.commands@),
                invocation.memory@,
                0,
            ).0 && r.memory@ == apply_from(
                handles(invocation.commands.commands@),
                invocation.memory@,
                0,
            ).1.invalidate_all(),
            outcome is Err ==> r.applied@.len() == 0 && r.memory@
                == invocation.memory@.invalidate_all(),
    {
        self.pass(outcome);
        invocation.finish(outcome)
    }

    /// Gives up the system whose turn it is, for a reason that lies with the host or the
    /// runtime: the failure is reported and the next system has its turn.
    pub fn abandon(&mut self, error: BridgeError)
        ensures
            final(self).order == old(self).order,
            final(self).generations@ == old(self).generations@,
            final(self).next == old(self).advanced(),
            final(self).failures@ == old(self).reported(Err(error)),
    {
        self.pass(Err(error));
    }
}

/// Every entry of the order of a tick names a system that there is: a script among
/// those that were counted, and a system among those of that script.
pub proof fn lemma_order_names_systems(counts: Seq<int>, a: int, i: int)
    requires
        0 <= a,
        counts.len() <= usize::MAX,
        forall|k: int| 0 <= k < counts.len() ==> 0 <= #[trigger] counts[k] <= usize::MAX,
        0 <= i < schedule_from(counts, a).len(),
    ensures
        a <= schedule_from(counts, a)[i].0 < counts.len(),
        schedule_from(counts, a)[i].1 < counts[schedule_from(counts, a)[i].0 as int],
    decreases counts.len() - a,
{
    if a < counts.len() {
        if i < counts[a] {
        } else {
            lemma_order_names_systems(counts, a + 1, i - counts[a]);
        }
    }
}

/// Starts a tick over the loaded scripts: every system of every script has its turn,
/// the scripts in the order in which they are stored and the systems of a script in the
/// order in which it registered them. `generations` is the source of the generations
/// for the invocations of the tick: a new one for the first tick, and for every later
/// tick the one that the driver of the tick before it has left, so that no generation
/// comes twice.
pub fn run_every_tick(scripts: &Vec<&LuaScript>, generations: Generations) -> (driver: TickDriver)
    ensures
        driver.order@ == schedule_from(system_counts(scripts@), 0),
        driver.next == 0,
        driver.failures@.len() == 0,
        driver.generations@ == generations@,
        forall|i: int|
            0 <= i < driver.order@.len() ==> (#[trigger] driver.order@[i]).0 < scripts@.len()
                && driver.order@[i].1 < scripts@[driver.order@[i].0 as int].systems@.len(),
{
    let order = tick_order(scripts);
    proof {
        let counts = system_counts(scripts@);
        assert(counts.len() == scripts.len());
        assert forall|k: int| 0 <= k < counts.len() implies 0 <= #[trigger] counts[k]
            <= usize::MAX by {
            assert(counts[k] == scripts@[k].systems.len());
        }
        assert forall|i: int| 0 <= i < order@.len() implies (#[trigger] order@[i]).0
            < scripts@.len() && order@[i].1 < scripts@[order@[i].0 as int].systems@.len() by {
            lemma_order_names_systems(counts, 0, i);
        }
    }
    TickDriver { order, next: 0, failures: Vec::new(), generations }
}

/// The position that a tick has reached after `passed` systems were passed, whatever
/// their outcomes were.
pub open spec fn turn_after(order: Seq<(usize, usize)>, passed: nat) -> nat
    decreases passed,
{
    if passed == 0 {
        0
    } else {
        let before = turn_after(order, (passed - 1) as nat);
        if before < order.len() {
            before + 1
        } else {
            before
        }
    }
}

/// Whatever the outcomes, every system has its turn: after as many systems were passed
/// as the tick has, the tick is over, and not before.
pub proof fn lemma_every_system_has_its_turn(order: Seq<(usize, usize)>, passed: nat)
    ensures
        turn_after(order, passed) == if passed <= order.len() {
            passed
        } else {
            order.len()
        },
    decreases passed,
{
    if passed > 0 {
        lemma_every_system_has_its_turn(order, (passed - 1) as nat);
    }
}

} // verus!
