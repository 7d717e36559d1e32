use reality::asset_loader::LuaScript;
use reality::commands::{register_command_queue, CommandQueueWrapper, TYPE_COMMAND_QUEUE};
use reality::error::BridgeError;
use reality::marshal::{
    call_method, write_back, HostArg, HostCall, MethodCall, Return, TableReflectWrapper,
};
use reality::memory::{HostMemory, PtrState};
use reality::reflect::{ComponentType, ReflectPtr, ReflectType};
use reality::registry::{Function, ObjectFunctionRegistry, ParamKind, ReturnKind};
use reality::script::{ScriptValue, TableEntry, TableKey, UserData};
use reality::system::{LuaSystem, SystemParameter, WorldMut};
use reality::query::IteratorState;
use reality::resolve::{resolve_parameters, Argument, ParameterInput};
use reality::tick::{finish_invocation, run_every_tick, Generations, Invocation};
use reality::value::HostValue;

const TRANSFORM: (usize, u64) = (3, 300);
const SPRITE: (usize, u64) = (4, 301);
const TIME: (usize, u64) = (9, 302);

fn transform(x: i32) -> HostValue {
    HostValue::Struct { type_id: TRANSFORM.1, fields: vec![("x".to_string(), HostValue::I32(x))] }
}

fn sprite(name: &str) -> HostValue {
    HostValue::Struct {
        type_id: SPRITE.1,
        fields: vec![("name".to_string(), HostValue::Str(name.to_string()))],
    }
}

fn world() -> WorldMut {
    WorldMut::new(vec![TRANSFORM, SPRITE])
}

fn system(parameters: Vec<SystemParameter>) -> LuaSystem {
    LuaSystem { lua_func: 21, system_parameters: parameters }
}

fn component(name: &str, owner: &ReflectPtr) -> TableEntry {
    TableEntry {
        key: TableKey::Name(name.to_string()),
        value: ScriptValue::UserData(UserData::Reflect(owner.clone())),
    }
}

#[test]
fn exclusive_query_yields_one_row_for_each_entity_and_ends_stale() {
    let s = system(vec![SystemParameter::Query(vec![ComponentType::Mut(TRANSFORM)])]);
    let found = vec![ParameterInput::Query(vec![vec![transform(1)], vec![transform(2)]])];
    let mut invocation = Invocation::begin(&s, found, 0).unwrap();
    assert_eq!(invocation.lua_func, 21);
    assert_eq!(invocation.arguments.len(), 1);
    let iterator = match &mut invocation.arguments[0] {
        Argument::Query(it) => it,
        _ => panic!("a query resolves to an iteration"),
    };
    assert!(iterator.has_next());
    let first = iterator.iterator_fn(&mut invocation.memory).unwrap();
    assert_eq!(first.len(), 1);
    assert_eq!(first[0].data, ReflectType::PtrMut(0));
    assert_eq!(first[0].read(&invocation.memory, "x"), Ok(ScriptValue::Integer(1)));
    assert_eq!(
        first[0].lua_new_index(&mut invocation.memory, "x", &ScriptValue::Integer(10)),
        Ok(())
    );
    assert!(iterator.has_next());
    let second = iterator.iterator_fn(&mut invocation.memory).unwrap();
    assert_eq!(second.len(), 1);
    assert_eq!(second[0].data, ReflectType::PtrMut(1));
    assert_eq!(second[0].read(&invocation.memory, "x"), Ok(ScriptValue::Integer(2)));
    assert!(!iterator.has_next());
    assert_eq!(iterator.iterator_fn(&mut invocation.memory), None);
    assert_eq!(iterator.iterator_fn(&mut invocation.memory), None);

    let finished = invocation.finish(Ok(()));
    assert!(finished.applied.is_empty());
    assert_eq!(first[0].read(&finished.memory, "x"), Err(BridgeError::StaleHandle));
    assert_eq!(second[0].read(&finished.memory, "x"), Err(BridgeError::StaleHandle));
    assert!(!first[0].is_live(&finished.memory));
    assert!(!second[0].is_live(&finished.memory));
    assert_eq!(finished.memory.slot(0), Some(&transform(10)));
    assert_eq!(finished.memory.slot(1), Some(&transform(2)));
}

#[test]
fn query_without_matches_yields_nothing() {
    let s = system(vec![SystemParameter::Query(vec![ComponentType::Mut(TRANSFORM)])]);
    let mut invocation = Invocation::begin(&s, vec![ParameterInput::Query(vec![])], 0).unwrap();
    let iterator = match &mut invocation.arguments[0] {
        Argument::Query(it) => it,
        _ => panic!("a query resolves to an iteration"),
    };
    assert!(!iterator.has_next());
    assert_eq!(iterator.iterator_fn(&mut invocation.memory), None);
    assert!(!iterator.has_next());
    assert_eq!(iterator.iterator_fn(&mut invocation.memory), None);
    assert_eq!(invocation.memory.slot_count(), 0);
}

#[test]
fn step_closes_the_window_of_the_row_before() {
    let s = system(vec![SystemParameter::Query(vec![
        ComponentType::Ref(TRANSFORM),
        ComponentType::Mut(SPRITE),
    ])]);
    let found = vec![ParameterInput::Query(vec![
        vec![transform(1), sprite("a")],
        vec![transform(2), sprite("b")],
    ])];
    let mut memory = HostMemory::new(0);
    let mut arguments = resolve_parameters(&s, found, &mut memory).unwrap();
    assert_eq!(
        arguments,
        vec![Argument::Query(IteratorState {
            components: vec![
                vec![ReflectType::PtrRef(0), ReflectType::PtrMut(1)],
                vec![ReflectType::PtrRef(2), ReflectType::PtrMut(3)],
            ],
            ptr_state: None, generation: 0,
        })]
    );
    let iterator = match &mut arguments[0] {
        Argument::Query(it) => it,
        _ => panic!("a query resolves to an iteration"),
    };
    let first = iterator.iterator_fn(&mut memory).unwrap();
    assert_eq!(
        first,
        vec![
            ReflectPtr { data: ReflectType::PtrRef(0), path: String::new(), ptr_state: 0, generation: 0 },
            ReflectPtr { data: ReflectType::PtrMut(1), path: String::new(), ptr_state: 0, generation: 0 },
        ]
    );
    assert_eq!(iterator.ptr_state, Some(0));
    assert_eq!(first[1].read(&memory, "name"), Ok(ScriptValue::String("a".to_string())));
    let second = iterator.iterator_fn(&mut memory).unwrap();
    assert_eq!(second[0].ptr_state, 1);
    assert_eq!(memory.state(0), PtrState::Invalid);
    assert_eq!(memory.state(1), PtrState::Valid);
    assert_eq!(first[0].read(&memory, "x"), Err(BridgeError::StaleHandle));
    assert_eq!(
        first[1].lua_new_index(&mut memory, "name", &ScriptValue::String("z".to_string())),
        Err(BridgeError::StaleHandle)
    );
    assert_eq!(second[1].read(&memory, "name"), Ok(ScriptValue::String("b".to_string())));
    assert_eq!(iterator.iterator_fn(&mut memory), None);
    assert_eq!(iterator.ptr_state, None);
    assert_eq!(second[0].read(&memory, "x"), Err(BridgeError::StaleHandle));
    assert_eq!(memory.slot(1), Some(&sprite("a")));
}

#[test]
fn resource_comes_with_the_access_asked_for() {
    let s = system(vec![
        SystemParameter::Resource(ComponentType::Ref(TIME)),
        SystemParameter::Resource(ComponentType::Mut(TRANSFORM)),
    ]);
    let found = vec![
        ParameterInput::Resource(Some(HostValue::I64(5))),
        ParameterInput::Resource(Some(transform(1))),
    ];
    let mut memory = HostMemory::new(0);
    let arguments = resolve_parameters(&s, found, &mut memory).unwrap();
    assert_eq!(
        arguments,
        vec![
            Argument::Handle(ReflectPtr {
                data: ReflectType::PtrRef(0),
                path: String::new(),
                ptr_state: 0, generation: 0
            }),
            Argument::Handle(ReflectPtr {
                data: ReflectType::PtrMut(1),
                path: String::new(),
                ptr_state: 1, generation: 0
            }),
        ]
    );
    assert_eq!(memory.slot(0), Some(&HostValue::I64(5)));
    assert_eq!(memory.slot(1), Some(&transform(1)));
    assert_eq!(memory.state(0), PtrState::Valid);
    assert_eq!(memory.state(1), PtrState::Valid);
}

#[test]
fn missing_resource_aborts_the_invocation() {
    let s = system(vec![
        SystemParameter::CommandQueue,
        SystemParameter::Resource(ComponentType::Ref(TIME)),
    ]);
    let found = vec![ParameterInput::CommandQueue, ParameterInput::Resource(None)];
    assert!(matches!(Invocation::begin(&s, found, 0), Err(BridgeError::InvocationError)));
}

#[test]
fn input_that_does_not_fit_the_parameter_aborts_the_invocation() {
    let query = system(vec![SystemParameter::Query(vec![ComponentType::Ref(TRANSFORM)])]);
    let mut memory = HostMemory::new(0);
    assert_eq!(
        resolve_parameters(&query, vec![ParameterInput::CommandQueue], &mut memory),
        Err(BridgeError::InvocationError)
    );
    assert_eq!(
        resolve_parameters(&query, vec![], &mut memory),
        Err(BridgeError::InvocationError)
    );
    assert_eq!(
        resolve_parameters(
            &query,
            vec![ParameterInput::Query(vec![]), ParameterInput::CommandQueue],
            &mut memory
        ),
        Err(BridgeError::InvocationError)
    );
    assert_eq!(
        resolve_parameters(
            &query,
            vec![ParameterInput::Query(vec![vec![transform(1)], vec![]])],
            &mut memory
        ),
        Err(BridgeError::InvocationError)
    );
    assert_eq!(
        resolve_parameters(
            &query,
            vec![ParameterInput::Query(vec![vec![transform(1), transform(2)]])],
            &mut memory
        ),
        Err(BridgeError::InvocationError)
    );
    assert_eq!(memory.slot_count(), 0);
    let commands = system(vec![SystemParameter::CommandQueue]);
    assert_eq!(
        resolve_parameters(&commands, vec![ParameterInput::Resource(None)], &mut memory),
        Err(BridgeError::InvocationError)
    );
    let resource = system(vec![SystemParameter::Resource(ComponentType::Ref(TIME))]);
    assert_eq!(
        resolve_parameters(&resource, vec![ParameterInput::Query(vec![])], &mut memory),
        Err(BridgeError::InvocationError)
    );
}

#[test]
fn command_queue_comes_as_an_exclusive_handle() {
    let s = system(vec![SystemParameter::CommandQueue]);
    let mut invocation = Invocation::begin(&s, vec![ParameterInput::CommandQueue], 0).unwrap();
    let queue = match &invocation.arguments[0] {
        Argument::Handle(h) => h.clone(),
        _ => panic!("the command queue resolves to a handle"),
    };
    assert_eq!(queue.data, ReflectType::PtrMut(0));
    assert_eq!(
        queue.get_field_value_ref(&invocation.memory),
        Ok(&HostValue::Opaque(TYPE_COMMAND_QUEUE))
    );
    assert!(invocation.commands.commands.is_empty());

    let mut registry = ObjectFunctionRegistry::new();
    assert!(register_command_queue(&mut registry));
    assert!(!register_command_queue(&mut registry));
    assert_eq!(
        registry.get(TYPE_COMMAND_QUEUE, "spawn"),
        Some(&Function {
            name: "spawn".to_string(),
            params: vec![ParamKind::Mut, ParamKind::Table],
            returns: ReturnKind::Owned,
        })
    );
    let state = invocation.memory.add_state();
    let owner = ReflectPtr::new_boxed(&mut invocation.memory, transform(7), state);
    let table = ScriptValue::Table(vec![component("Transform", &owner)]);
    let call = match call_method(&queue, &mut invocation.memory, &registry, "spawn", vec![table]) {
        Ok(MethodCall::Invoke(call)) => call,
        _ => panic!("spawn is registered for the command queue"),
    };
    assert_eq!(call.args[0], HostArg::Mut(queue.clone()));
    assert_eq!(invocation.commands.call(&invocation.memory, &world(), call), Ok(Return::Owned(HostValue::Unit)));
    let finished = invocation.finish(Ok(()));
    assert_eq!(finished.applied, vec![Ok(transform(7))]);
    assert_eq!(owner.take(&mut HostMemory::new(0)), Err(BridgeError::StaleHandle));
}

#[test]
fn spawned_entities_come_in_the_order_of_the_commands() {
    let mut memory = HostMemory::new(0);
    let state = memory.add_state();
    let a = ReflectPtr::new_boxed(&mut memory, transform(1), state);
    let b = ReflectPtr::new_boxed(&mut memory, transform(2), state);
    let c1 = ReflectPtr::new_boxed(&mut memory, transform(3), state);
    let c2 = ReflectPtr::new_boxed(&mut memory, sprite("c"), state);
    let mut commands = CommandQueueWrapper::new();
    assert_eq!(commands.spawn(&memory, &world(), TableReflectWrapper::new(vec![component("Transform", &a)])), Ok(()));
    assert_eq!(commands.spawn(&memory, &world(), TableReflectWrapper::new(vec![component("Transform", &b)])), Ok(()));
    assert_eq!(
        commands.spawn(&memory, &world(), TableReflectWrapper::new(vec![
            component("Transform", &c1),
            component("Sprite", &c2)
        ])),
        Ok(())
    );
    assert_eq!(commands.commands, vec![a.clone(), b.clone(), c1.clone(), c2.clone()]);
    let applied = commands.apply(&mut memory);
    assert_eq!(
        applied,
        vec![Ok(transform(1)), Ok(transform(2)), Ok(transform(3)), Ok(sprite("c"))]
    );
    assert!(commands.commands.is_empty());
    assert_eq!(a.take(&mut memory), Err(BridgeError::AlreadyTaken));
    assert!(commands.apply(&mut memory).is_empty());
}

#[test]
fn component_that_is_not_an_owned_value_is_refused() {
    let mut memory = HostMemory::new(0);
    let state = memory.add_state();
    let owner = ReflectPtr::new_boxed(&mut memory, transform(1), state);
    let slot = memory.add_slot(transform(2));
    let borrowed = ReflectPtr::new_mut(&memory, slot, state);
    let mut commands = CommandQueueWrapper::new();
    commands.spawn(&memory, &world(), TableReflectWrapper::new(vec![component("Transform", &owner)])).unwrap();
    let bad = vec![
        vec![component("Transform", &borrowed)],
        vec![component("Transform", &ReflectPtr::new_ref(&memory, slot, state))],
        vec![TableEntry { key: TableKey::Index(1), value: ScriptValue::Integer(1) }],
        vec![
            component("Transform", &owner),
            TableEntry { key: TableKey::Index(1), value: ScriptValue::Nil },
        ],
        vec![TableEntry {
            key: TableKey::Name("x".to_string()),
            value: ScriptValue::UserData(UserData::Other),
        }],
    ];
    for table in bad {
        assert_eq!(
            commands.spawn(&memory, &world(), TableReflectWrapper::new(table)),
            Err(BridgeError::NonReflectableComponent)
        );
        assert_eq!(commands.commands, vec![owner.clone()]);
    }
    assert_eq!(commands.spawn(&memory, &world(), TableReflectWrapper::new(vec![])), Ok(()));
    assert_eq!(commands.commands, vec![owner.clone()]);
}

#[test]
fn owned_value_that_is_no_registered_component_is_refused() {
    let mut memory = HostMemory::new(0);
    let state = memory.add_state();
    let closed = memory.add_state();
    let good = ReflectPtr::new_boxed(&mut memory, transform(1), state);
    let integer = ReflectPtr::new_boxed(&mut memory, HostValue::I32(5), state);
    let unregistered = ReflectPtr::new_boxed(
        &mut memory,
        HostValue::Struct { type_id: TIME.1, fields: vec![] },
        state,
    );
    let opaque = ReflectPtr::new_boxed(&mut memory, HostValue::Opaque(TRANSFORM.1), state);
    let taken = ReflectPtr::new_boxed(&mut memory, transform(2), state);
    taken.take(&mut memory).unwrap();
    let stale = ReflectPtr::new_boxed(&mut memory, transform(3), closed);
    memory.invalidate(closed);
    let elsewhere = ReflectPtr::new_boxed(&mut HostMemory::new(1), transform(4), state);
    let mut commands = CommandQueueWrapper::new();
    for bad in [&integer, &unregistered, &opaque, &taken, &stale, &elsewhere] {
        assert_eq!(
            commands.spawn(
                &memory,
                &world(),
                TableReflectWrapper::new(vec![
                    component("Transform", &good),
                    component("Other", bad)
                ])
            ),
            Err(BridgeError::NonReflectableComponent)
        );
        assert!(commands.commands.is_empty());
    }
    assert_eq!(
        commands.spawn(
            &memory,
            &WorldMut::new(vec![]),
            TableReflectWrapper::new(vec![component("Transform", &good)])
        ),
        Err(BridgeError::NonReflectableComponent)
    );
    assert_eq!(
        commands.spawn(
            &memory,
            &WorldMut::new(vec![TRANSFORM, (11, 2)]),
            TableReflectWrapper::new(vec![
                component("Transform", &good),
                component("Count", &integer)
            ])
        ),
        Ok(())
    );
    assert_eq!(commands.apply(&mut memory), vec![Ok(transform(1)), Ok(HostValue::I32(5))]);
    assert!(world().has_component_type(SPRITE.1));
    assert!(!world().has_component_type(TIME.1));
}

#[test]
fn value_that_was_taken_before_gives_no_entity() {
    let mut memory = HostMemory::new(0);
    let state = memory.add_state();
    let a = ReflectPtr::new_boxed(&mut memory, transform(1), state);
    let b = ReflectPtr::new_boxed(&mut memory, transform(2), state);
    let mut commands = CommandQueueWrapper::new();
    commands.spawn(&memory, &world(), TableReflectWrapper::new(vec![
            component("A", &a),
            component("A again", &a),
            component("B", &b),
        ]))
        .unwrap();
    assert_eq!(
        commands.apply(&mut memory),
        vec![Ok(transform(1)), Err(BridgeError::AlreadyTaken), Ok(transform(2))]
    );
}

#[test]
fn failed_system_has_its_commands_dropped() {
    let mut memory = HostMemory::new(0);
    let state = memory.add_state();
    let slot = memory.add_slot(transform(5));
    let lent = ReflectPtr::new_mut(&memory, slot, state);
    let owner = ReflectPtr::new_boxed(&mut memory, transform(1), state);
    let mut commands = CommandQueueWrapper::new();
    commands.spawn(&memory, &world(), TableReflectWrapper::new(vec![component("Transform", &owner)])).unwrap();
    let applied = finish_invocation(Err(BridgeError::InvocationError), &mut commands, &mut memory);
    assert!(applied.is_empty());
    assert!(commands.commands.is_empty());
    assert_eq!(memory.cell(0), Some(Some(&transform(1))));
    assert_eq!(memory.state(state), PtrState::Invalid);
    assert_eq!(lent.read(&memory, "x"), Err(BridgeError::StaleHandle));
    assert_eq!(owner.take(&mut memory), Err(BridgeError::StaleHandle));
}

#[test]
fn commands_are_applied_before_the_handles_go_stale() {
    let mut memory = HostMemory::new(0);
    let state = memory.add_state();
    let owner = ReflectPtr::new_boxed(&mut memory, transform(1), state);
    let mut commands = CommandQueueWrapper::new();
    commands.spawn(&memory, &world(), TableReflectWrapper::new(vec![component("Transform", &owner)])).unwrap();
    let applied = finish_invocation(Ok(()), &mut commands, &mut memory);
    assert_eq!(applied, vec![Ok(transform(1))]);
    assert_eq!(memory.state(state), PtrState::Invalid);
    assert_eq!(memory.cell(0), Some(None));
}

#[test]
fn discarded_commands_are_not_applied() {
    let mut memory = HostMemory::new(0);
    let state = memory.add_state();
    let owner = ReflectPtr::new_boxed(&mut memory, transform(1), state);
    let mut commands = CommandQueueWrapper::new();
    commands.spawn(&memory, &world(), TableReflectWrapper::new(vec![component("Transform", &owner)])).unwrap();
    commands.discard();
    assert!(commands.apply(&mut memory).is_empty());
    assert_eq!(owner.take(&mut memory), Ok(transform(1)));
}

#[test]
fn every_window_is_closed_at_once() {
    let mut memory = HostMemory::new(0);
    let a = memory.add_state();
    let b = memory.add_state();
    let c = memory.add_state();
    memory.invalidate(b);
    assert_eq!(memory.state(a), PtrState::Valid);
    assert_eq!(memory.state(b), PtrState::Invalid);
    memory.invalidate(17);
    memory.invalidate_all();
    assert_eq!(memory.state(a), PtrState::Invalid);
    assert_eq!(memory.state(b), PtrState::Invalid);
    assert_eq!(memory.state(c), PtrState::Invalid);
    assert_eq!(memory.add_state(), 3);
    assert_eq!(memory.state(3), PtrState::Valid);
}

#[test]
fn tick_runs_every_system_of_every_script_in_order() {
    let one = |n: u64| LuaSystem { lua_func: n, system_parameters: vec![] };
    let scripts = vec![
        LuaScript { systems: vec![one(1), one(2)] },
        LuaScript { systems: vec![] },
        LuaScript { systems: vec![one(3)] },
        LuaScript { systems: vec![one(4), one(5), one(6)] },
    ];
    let driver = run_every_tick(&scripts.iter().collect(), Generations::new());
    assert_eq!(driver.generations.peek(), 0);
    assert_eq!(driver.order, vec![(0, 0), (0, 1), (2, 0), (3, 0), (3, 1), (3, 2)]);
    assert_eq!(driver.next, 0);
    assert!(driver.failures.is_empty());
    assert_eq!(driver.current(), Some((0, 0)));
    assert_eq!(run_every_tick(&vec![], Generations::new()).order, vec![]);
    assert_eq!(run_every_tick(&vec![], Generations::new()).current(), None);
    assert_eq!(run_every_tick(&vec![&LuaScript { systems: vec![] }], Generations::new()).order, vec![]);
}

#[test]
fn positional_arguments_follow_the_parameters() {
    let s = system(vec![
        SystemParameter::Resource(ComponentType::Ref(TIME)),
        SystemParameter::Query(vec![ComponentType::Ref(TRANSFORM)]),
        SystemParameter::CommandQueue,
    ]);
    let found = vec![
        ParameterInput::Resource(Some(HostValue::I64(5))),
        ParameterInput::Query(vec![vec![transform(1)]]),
        ParameterInput::CommandQueue,
    ];
    let invocation = Invocation::begin(&s, found, 0).unwrap();
    assert_eq!(
        invocation.arguments,
        vec![
            Argument::Handle(ReflectPtr {
                data: ReflectType::PtrRef(0),
                path: String::new(),
                ptr_state: 0, generation: 0
            }),
            Argument::Query(IteratorState {
                components: vec![vec![ReflectType::PtrRef(1)]],
                ptr_state: None, generation: 0
            }),
            Argument::Handle(ReflectPtr {
                data: ReflectType::PtrMut(2),
                path: String::new(),
                ptr_state: 1, generation: 0
            }),
        ]
    );
}

#[test]
fn command_queue_has_no_function_but_spawn() {
    let spawn = || Function {
        name: "spawn".to_string(),
        params: vec![ParamKind::Mut, ParamKind::Table],
        returns: ReturnKind::Owned,
    };
    let mut memory = HostMemory::new(0);
    let state = memory.add_state();
    let owner = ReflectPtr::new_boxed(&mut memory, transform(1), state);
    let queue = ReflectPtr::new_mut(&memory, 0, state);
    let table = || TableReflectWrapper::new(vec![component("Transform", &owner)]);
    let mut commands = CommandQueueWrapper::new();
    let despawn = Function { name: "despawn".to_string(), ..spawn() };
    assert_eq!(
        commands.call(&memory, &world(), HostCall { type_id: TYPE_COMMAND_QUEUE, function: despawn,
            args: vec![HostArg::Mut(queue.clone()), HostArg::Table(table())]
        }),
        Err(BridgeError::NoSuchMethod)
    );
    assert_eq!(
        commands.call(&memory, &world(), HostCall { type_id: TYPE_COMMAND_QUEUE, function: spawn(), args: vec![HostArg::Mut(queue.clone())] }),
        Err(BridgeError::ArityMismatch)
    );
    assert_eq!(
        commands.call(&memory, &world(), HostCall { type_id: TYPE_COMMAND_QUEUE, function: spawn(),
            args: vec![HostArg::Table(table()), HostArg::Mut(queue.clone())]
        }),
        Err(BridgeError::TypeMismatch)
    );
    assert_eq!(
        commands.call(&memory, &world(), HostCall { type_id: TYPE_COMMAND_QUEUE, function: spawn(),
            args: vec![HostArg::Ref(queue.clone()), HostArg::Table(table())]
        }),
        Err(BridgeError::TypeMismatch)
    );
    assert_eq!(
        commands.call(&memory, &world(), HostCall { type_id: TYPE_COMMAND_QUEUE, function: spawn(),
            args: vec![
                HostArg::Mut(queue.clone()),
                HostArg::Table(TableReflectWrapper::new(vec![TableEntry {
                    key: TableKey::Index(1),
                    value: ScriptValue::Nil
                }]))
            ]
        }),
        Err(BridgeError::NonReflectableComponent)
    );
    assert_eq!(
        commands.call(&memory, &world(), HostCall {
            type_id: TYPE_COMMAND_QUEUE + 1,
            function: spawn(),
            args: vec![HostArg::Mut(queue.clone()), HostArg::Table(table())]
        }),
        Err(BridgeError::NoSuchMethod)
    );
    assert!(commands.commands.is_empty());
    assert_eq!(
        commands.call(&memory, &world(), HostCall { type_id: TYPE_COMMAND_QUEUE, function: spawn(),
            args: vec![HostArg::Mut(queue.clone()), HostArg::Table(table())]
        }),
        Ok(Return::Owned(HostValue::Unit))
    );
    assert_eq!(commands.commands, vec![owner.clone()]);
}

#[test]
fn values_behind_exclusive_references_are_written_back_in_order() {
    let mut memory = HostMemory::new(0);
    let state = memory.add_state();
    let a = memory.add_slot(transform(1));
    let b = memory.add_slot(transform(2));
    let first = ReflectPtr::new_mut(&memory, a, state);
    let second = ReflectPtr::new_mut(&memory, b, state);
    assert_eq!(
        write_back(
            vec![
                (first.clone(), transform(10)),
                (second.child("x"), HostValue::I32(20)),
                (first.child("x"), HostValue::I32(11)),
            ],
            &mut memory
        ),
        Ok(())
    );
    assert_eq!(memory.slot(a), Some(&transform(11)));
    assert_eq!(memory.slot(b), Some(&transform(20)));
    assert_eq!(write_back(vec![], &mut memory), Ok(()));
    assert_eq!(
        write_back(
            vec![
                (first.clone(), transform(30)),
                (second.clone(), sprite("wrong")),
                (first.clone(), transform(40)),
            ],
            &mut memory
        ),
        Err(BridgeError::TypeMismatch)
    );
    assert_eq!(memory.slot(a), Some(&transform(30)));
    assert_eq!(memory.slot(b), Some(&transform(20)));
    assert_eq!(
        write_back(vec![(ReflectPtr::new_ref(&memory, a, state), transform(50))], &mut memory),
        Err(BridgeError::ArityMismatch)
    );
}

#[test]
fn system_that_fails_keeps_no_later_system_from_running() {
    let lent = |n: u64| LuaSystem {
        lua_func: n,
        system_parameters: vec![SystemParameter::Resource(ComponentType::Mut(TIME))],
    };
    let scripts =
        vec![LuaScript { systems: vec![lent(1), lent(2)] }, LuaScript { systems: vec![lent(3)] }];
    let loaded: Vec<&LuaScript> = scripts.iter().collect();
    let mut driver = run_every_tick(&loaded, Generations::new());
    let mut ran = vec![];
    let mut generations = vec![];
    while let Some((script, system)) = driver.current() {
        let system = &scripts[script].systems[system];
        let found = if system.lua_func == 1 {
            vec![ParameterInput::Resource(None)]
        } else {
            vec![ParameterInput::Resource(Some(HostValue::I64(5)))]
        };
        let Some(mut invocation) = driver.begin(&loaded, found) else {
            continue;
        };
        ran.push(invocation.lua_func);
        generations.push(invocation.memory.generation());
        let owner = {
            let state = invocation.memory.add_state();
            ReflectPtr::new_boxed(&mut invocation.memory, transform(7), state)
        };
        invocation.commands.spawn(&invocation.memory, &world(), TableReflectWrapper::new(vec![component("Transform", &owner)]))
            .unwrap();
        let outcome =
            if invocation.lua_func == 2 { Err(BridgeError::InvocationError) } else { Ok(()) };
        let finished = driver.finish(invocation, outcome);
        if system.lua_func == 2 {
            assert!(finished.applied.is_empty());
        } else {
            assert_eq!(finished.applied, vec![Ok(transform(7))]);
        }
        assert_eq!(finished.memory.state(0), PtrState::Invalid);
    }
    assert_eq!(ran, vec![2, 3]);
    assert_eq!(generations, vec![0, 1]);
    assert_eq!(driver.generations.peek(), 2);
    assert_eq!(driver.next, 3);
    assert_eq!(driver.current(), None);
    assert_eq!(
        driver.failures,
        vec![(0, BridgeError::InvocationError), (1, BridgeError::InvocationError)]
    );
}

#[test]
fn what_a_script_keeps_is_stale_in_every_later_invocation() {
    let query = |n: u64| LuaSystem {
        lua_func: n,
        system_parameters: vec![
            SystemParameter::Query(vec![ComponentType::Mut(TRANSFORM)]),
            SystemParameter::Resource(ComponentType::Mut(TIME)),
            SystemParameter::CommandQueue,
        ],
    };
    let scripts = vec![LuaScript { systems: vec![query(1), query(2)] }];
    let loaded: Vec<&LuaScript> = scripts.iter().collect();
    let found = |x: i32| {
        vec![
            ParameterInput::Query(vec![vec![transform(x)], vec![transform(x + 1)]]),
            ParameterInput::Resource(Some(HostValue::I64(i64::from(x)))),
            ParameterInput::CommandQueue,
        ]
    };
    let mut driver = run_every_tick(&loaded, Generations::new());

    let mut first = driver.begin(&loaded, found(10)).unwrap();
    let queue = match first.arguments.pop() {
        Some(Argument::Handle(h)) => h,
        _ => panic!("the command queue comes last"),
    };
    let resource = match first.arguments.pop() {
        Some(Argument::Handle(h)) => h,
        _ => panic!("the resource comes second"),
    };
    let mut kept = match first.arguments.pop() {
        Some(Argument::Query(it)) => it,
        _ => panic!("the query comes first"),
    };
    let row = kept.iterator_fn(&mut first.memory).unwrap();
    assert_eq!(row[0].read(&first.memory, "x"), Ok(ScriptValue::Integer(10)));
    assert_eq!(resource.get_field_value_ref(&first.memory), Ok(&HostValue::I64(10)));
    assert_eq!(kept.generation, 0);
    assert_eq!(row[0].generation, 0);
    let finished = driver.finish(first, Ok(()));
    assert_eq!(row[0].read(&finished.memory, "x"), Err(BridgeError::StaleHandle));

    let mut second = driver.begin(&loaded, found(20)).unwrap();
    assert_eq!(second.memory.generation(), 1);
    assert_eq!(resource.get_field_value_ref(&second.memory), Err(BridgeError::StaleHandle));
    assert_eq!(queue.get_field_value_ref(&second.memory), Err(BridgeError::StaleHandle));
    assert_eq!(row[0].read(&second.memory, "x"), Err(BridgeError::StaleHandle));
    assert!(kept.has_next());
    assert_eq!(kept.iterator_fn(&mut second.memory), None);
    assert_eq!(kept.iterator_fn(&mut second.memory), None);
    assert!(kept.has_next());
    assert_eq!(second.memory.state(0), PtrState::Valid);
    assert_eq!(row[0].read(&second.memory, "x"), Err(BridgeError::StaleHandle));
    assert_eq!(
        row[0].lua_new_index(&mut second.memory, "x", &ScriptValue::Integer(1)),
        Err(BridgeError::StaleHandle)
    );
    assert_eq!(second.memory.slot(0), Some(&transform(20)));
    let mut own = match second.arguments.remove(0) {
        Argument::Query(it) => it,
        _ => panic!("the query comes first"),
    };
    let fresh = own.iterator_fn(&mut second.memory).unwrap();
    assert_eq!(fresh[0].read(&second.memory, "x"), Ok(ScriptValue::Integer(20)));
    assert_eq!(row[0].read(&second.memory, "x"), Err(BridgeError::StaleHandle));
    driver.finish(second, Ok(()));

    let mut next_tick = run_every_tick(&loaded, driver.generations);
    let third = next_tick.begin(&loaded, found(30)).unwrap();
    assert_eq!(third.memory.generation(), 2);
    assert_eq!(row[0].read(&third.memory, "x"), Err(BridgeError::StaleHandle));
    assert_eq!(fresh[0].read(&third.memory, "x"), Err(BridgeError::StaleHandle));
    assert_eq!(resource.get_field_value_ref(&third.memory), Err(BridgeError::StaleHandle));
}

#[test]
fn driver_invokes_the_system_whose_turn_it_is_and_no_other() {
    let plain = |n: u64| LuaSystem { lua_func: n, system_parameters: vec![] };
    let scripts = vec![LuaScript { systems: vec![plain(1), plain(2)] }];
    let loaded: Vec<&LuaScript> = scripts.iter().collect();
    let mut driver = run_every_tick(&loaded, Generations::new());
    let first = driver.begin(&loaded, vec![]).unwrap();
    assert_eq!(first.lua_func, 1);
    assert_eq!(first.memory.generation(), 0);
    assert_eq!(driver.next, 0);
    assert_eq!(driver.generations.peek(), 1);
    driver.finish(first, Ok(()));
    assert_eq!(driver.current(), Some((0, 1)));

    let others: Vec<&LuaScript> = vec![];
    assert!(driver.begin(&others, vec![]).is_none());
    assert_eq!(driver.failures, vec![(1, BridgeError::InvocationError)]);
    assert_eq!(driver.next, 2);
    assert_eq!(driver.generations.peek(), 1);

    assert_eq!(driver.current(), None);
    assert!(driver.begin(&loaded, vec![]).is_none());
    assert_eq!(driver.failures.len(), 1);
    assert_eq!(driver.next, 2);
    assert_eq!(driver.generations.peek(), 1);
    driver.abandon(BridgeError::InvocationError);
    assert_eq!(
        driver.failures,
        vec![(1, BridgeError::InvocationError), (2, BridgeError::InvocationError)]
    );
    assert_eq!(driver.next, 2);
}

#[test]
fn nothing_opens_a_window_in_the_memory_of_a_finished_invocation() {
    let s = system(vec![SystemParameter::Query(vec![ComponentType::Mut(TRANSFORM)])]);
    let found = vec![ParameterInput::Query(vec![vec![transform(1)], vec![transform(2)]])];
    let mut invocation = Invocation::begin(&s, found, 9).unwrap();
    let mut kept = match invocation.arguments.pop() {
        Some(Argument::Query(it)) => it,
        _ => panic!("a query resolves to an iteration"),
    };
    let first = kept.iterator_fn(&mut invocation.memory).unwrap();
    assert!(!invocation.memory.is_closed());
    let mut finished = invocation.finish(Ok(()));
    assert!(finished.memory.is_closed());
    assert_eq!(finished.memory.generation(), 9);
    assert!(kept.has_next());
    assert_eq!(kept.iterator_fn(&mut finished.memory), None);
    assert!(kept.has_next());
    let reopened = finished.memory.add_state();
    assert_eq!(finished.memory.state(reopened), PtrState::Valid);
    let forged = ReflectPtr::new_mut(&finished.memory, 0, reopened);
    assert!(!forged.is_live(&finished.memory));
    assert_eq!(forged.read(&finished.memory, "x"), Err(BridgeError::StaleHandle));
    assert_eq!(first[0].read(&finished.memory, "x"), Err(BridgeError::StaleHandle));
    assert_eq!(
        forged.lua_new_index(&mut finished.memory, "x", &ScriptValue::Integer(5)),
        Err(BridgeError::StaleHandle)
    );
    assert_eq!(finished.memory.slot(0), Some(&transform(1)));
}
