use crate::error::BridgeError;
use crate::script::ScriptValue;
use crate::system::{system_of, systems, LuaSystem, System, WorldMut};
use vstd::prelude::*;

verus! {

/// A compiled script: the systems that it registered, in the order of registration.
#[derive(Debug, PartialEq)]
pub struct LuaScript {
    pub systems: Vec<LuaSystem>,
}

impl View for LuaScript {
    type V = Seq<System>;

    open spec fn view(&self) -> Seq<System> {
        systems(self.systems@)
    }
}

/// The mathematical content of a compilation.
pub ghost enum CompilationView {
    Loaded(Seq<u8>),
    Executing(Seq<System>),
    Compiled(Seq<System>),
    Failed(BridgeError),
}

/// The compilation of one script source. The source is loaded; then it is run once,
/// during which it registers its systems; then either all of them are published as one
/// compiled script, or the compilation has failed and none is.
#[derive(Debug, PartialEq)]
pub enum Compilation {
    /// The source is there and has not been run.
    Loaded(Vec<u8>),
    /// The source is being run; these are the systems that it has registered so far.
    Executing(Vec<LuaSystem>),
    /// The source ran to its end; this is the compiled script.
    Compiled(LuaScript),
    /// The run failed.
    Failed(BridgeError),
}

impl View for Compilation {
    type V = CompilationView;

    open spec fn view(&self) -> CompilationView {
        match self {
            Compilation::Loaded(bytes) => CompilationView::Loaded(bytes@),
            Compilation::Executing(list) => CompilationView::Executing(systems(list@)),
            Compilation::Compiled(script) => CompilationView::Compiled(script@),
            Compilation::Failed(e) => CompilationView::Failed(*e),
        }
    }
}

/// The compilation after the script registered a system: the system joins those
/// registered before it, where the compilation is under way and the registration is
/// well-formed.
pub open spec fn after_registration(
    c: CompilationView,
    components: Seq<(usize, u64)>,
    system: ScriptValue,
    params: ScriptValue,
) -> Result<CompilationView, BridgeError> {
    match c {
        CompilationView::Executing(list) => match system_of(components, system, params) {
            Some(s) => Ok(CompilationView::Executing(list.push(s))),
            None => Err(BridgeError::BadSpec),
        },
        _ => Err(BridgeError::CompileError),
    }
}

/// The compilation after the run of the source ended, well or badly. A compilation
/// that fails holds `CompileError`, whatever made the run fail.
pub open spec fn after_run(c: CompilationView, completed: bool) -> CompilationView {
    match c {
        CompilationView::Executing(list) => if completed {
            CompilationView::Compiled(list)
        } else {
            CompilationView::Failed(BridgeError::CompileError)
        },
        CompilationView::Compiled(list) => CompilationView::Compiled(list),
        _ => CompilationView::Failed(BridgeError::CompileError),
    }
}

/// The compiled script that a compilation has to publish, if it has one.
pub open spec fn published(c: CompilationView) -> Option<Seq<System>> {
    match c {
        CompilationView::Compiled(list) => Some(list),
        _ => None,
    }
}

impl Compilation {
    /// The compilation of the source `bytes`, before it is run.
    pub fn new(bytes: Vec<u8>) -> (c: Compilation)
        ensures
            c@ == CompilationView::Loaded(bytes@),
    {
        Compilation::Loaded(bytes)
    }

    /// Starts the run of a loaded source: no system is registered yet. The source comes
    /// back for the runtime to execute. Any other compilation stays as it is.
    pub fn start(self) -> (r: (Compilation, Option<Vec<u8>>))
        ensures
            match self@ {
                CompilationView::Loaded(bytes) => {
                    &&& r.0@ == CompilationView::Executing(Seq::empty())
                    &&& r.1 matches Some(source) && source@ == bytes
                },
                _ => r.0 == self && r.1 is None,
            },
    {
        match self {
            Compilation::Loaded(bytes) => {
                let list: Vec<LuaSystem> = Vec::new();
                assert(systems(list@) =~= Seq::<System>::empty());
                (Compilation::Executing(list), Some(bytes))
            },
            other => (other, None),
        }
    }

    /// Registers a system for the script that is being run. A malformed registration is
    /// refused and leaves the compilation as it was; so does one that comes while no
    /// source is being run.
    pub fn register_system(&mut self, world: &WorldMut, system: &ScriptValue, system_params: &ScriptValue) -> (r:
        Result<(), BridgeError>)
        ensures
            match after_registration(old(self)@, world@, *system, *system_params) {
                Ok(after) => r is Ok && final(self)@ == after,
                Err(e) => r == Err::<(), BridgeError>(e) && *final(self) == *old(self),
            },
    {
        match self {
            Compilation::Executing(list) => world.register_system(list, system, system_params),
            _ => Err(BridgeError::CompileError),
        }
    }

    /// Ends the run of the source. Where it ran to its end, the systems registered
    /// during the run become the compiled script; where it failed, they are dropped,
    /// all of them.
    pub fn finish(self, outcome: Result<(), BridgeError>) -> (c: Compilation)
        ensures
            c@ == after_run(self@, outcome is Ok),
    {
        match self {
            Compilation::Executing(list) => match outcome {
                Ok(()) => Compilation::Compiled(LuaScript { systems: list }),
                Err(_) => Compilation::Failed(BridgeError::CompileError),
            },
            Compilation::Compiled(script) => Compilation::Compiled(script),
            _ => Compilation::Failed(BridgeError::CompileError),
        }
    }

    /// The compiled script, if there is one to publish.
    pub fn publish(self) -> (r: Result<LuaScript, BridgeError>)
        ensures
            match published(self@) {
                Some(list) => r matches Ok(script) && script@ == list,
                None => r == Err::<LuaScript, BridgeError>(BridgeError::CompileError),
            },
    {
        match self {
            Compilation::Compiled(script) => Ok(script),
            _ => Err(BridgeError::CompileError),
        }
    }
}

/// A compilation whose run fails publishes nothing, whatever was registered before the
/// failure; one whose run ends well publishes every system that was registered, in the
/// order of registration.
pub proof fn lemma_run_publishes_all_or_nothing(registered: Seq<System>)
    ensures
        published(after_run(CompilationView::Executing(registered), false)) is None,
        published(after_run(CompilationView::Executing(registered), true)) == Some(registered),
{
}

} // verus!
