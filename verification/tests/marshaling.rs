use reality::error::BridgeError;
use reality::marshal::{
    call_function, call_method, lua_wrapped_dynamic_function_call,
    lua_wrapped_dynamic_function_return, HostArg, HostCall, MethodCall, Return,
    TableReflectWrapper,
};
use reality::memory::{HostMemory, PtrState};
use reality::reflect::{ReflectPtr, ReflectType};
use reality::registry::{Function, ObjectFunctionRegistry, ParamKind, ReturnKind};
use reality::script::{ScriptValue, TableEntry, TableKey, TypeError, UserData};
use reality::reflect::{CommandQueueMarker, ComponentType};
use bevy::reflect::func::{ArgList, IntoFunction, Return as Returned};
use reality::value::HostValue;

const POINT: u64 = 200;

fn point(x: i32) -> HostValue {
    HostValue::Struct { type_id: POINT, fields: vec![("x".to_string(), HostValue::I32(x))] }
}

fn function(name: &str, params: Vec<ParamKind>) -> Function {
    Function { name: name.to_string(), params, returns: ReturnKind::Owned }
}

fn handle(h: &ReflectPtr) -> ScriptValue {
    ScriptValue::UserData(UserData::Reflect(h.clone()))
}

fn entry(name: &str, value: ScriptValue) -> TableEntry {
    TableEntry { key: TableKey::Name(name.to_string()), value }
}

#[test]
fn scalars_are_marshaled_by_their_declared_kind() {
    let mut memory = HostMemory::new(0);
    let f = function(
        "f",
        vec![
            ParamKind::Nil,
            ParamKind::Bool,
            ParamKind::Int,
            ParamKind::Float,
            ParamKind::String,
            ParamKind::Table,
        ],
    );
    let args = vec![
        ScriptValue::Nil,
        ScriptValue::Boolean(true),
        ScriptValue::Integer(-7),
        ScriptValue::Number(2.5f64.to_bits()),
        ScriptValue::String("hi".to_string()),
        ScriptValue::Table(vec![entry("a", ScriptValue::Integer(1))]),
    ];
    let call = lua_wrapped_dynamic_function_call(POINT, f, args, &mut memory).unwrap();
    assert_eq!(
        call,
        HostCall { type_id: POINT, function: function(
                "f",
                vec![
                    ParamKind::Nil,
                    ParamKind::Bool,
                    ParamKind::Int,
                    ParamKind::Float,
                    ParamKind::String,
                    ParamKind::Table,
                ],
            ),
            args: vec![
                HostArg::Owned(HostValue::Unit),
                HostArg::Owned(HostValue::Bool(true)),
                HostArg::Owned(HostValue::I64(-7)),
                HostArg::Owned(HostValue::Float(2.5f64.to_bits())),
                HostArg::Owned(HostValue::Str("hi".to_string())),
                HostArg::Table(TableReflectWrapper::new(vec![entry("a", ScriptValue::Integer(1))])),
            ],
        }
    );
}

#[test]
fn table_can_be_taken_out_of_its_wrapper() {
    let wrapper = TableReflectWrapper::new(vec![
        entry("a", ScriptValue::Integer(1)),
        entry("b", ScriptValue::Integer(2)),
    ]);
    assert_eq!(
        wrapper.take(),
        vec![entry("a", ScriptValue::Integer(1)), entry("b", ScriptValue::Integer(2))]
    );
}

#[test]
fn wrong_number_of_arguments_is_an_arity_mismatch() {
    let mut memory = HostMemory::new(0);
    assert_eq!(
        lua_wrapped_dynamic_function_call(POINT, function("f", vec![ParamKind::Int]),
            vec![],
            &mut memory
        ),
        Err(BridgeError::ArityMismatch)
    );
    assert_eq!(
        lua_wrapped_dynamic_function_call(POINT, function("f", vec![ParamKind::Int]),
            vec![ScriptValue::Integer(1), ScriptValue::Integer(2)],
            &mut memory
        ),
        Err(BridgeError::ArityMismatch)
    );
    assert_eq!(
        lua_wrapped_dynamic_function_call(POINT, function("f", vec![]), vec![], &mut memory),
        Ok(HostCall { type_id: POINT, function: function("f", vec![]), args: vec![] })
    );
}

#[test]
fn argument_of_another_kind_is_a_type_mismatch() {
    let mut memory = HostMemory::new(0);
    let state = memory.add_state();
    let slot = memory.add_slot(point(1));
    let h = ReflectPtr::new_mut(&memory, slot, state);
    let cases = vec![
        (ParamKind::Int, ScriptValue::Number(1.0f64.to_bits())),
        (ParamKind::Float, ScriptValue::Integer(1)),
        (ParamKind::Bool, ScriptValue::Nil),
        (ParamKind::Nil, ScriptValue::Boolean(false)),
        (ParamKind::String, ScriptValue::Integer(1)),
        (ParamKind::Table, ScriptValue::String("t".to_string())),
        (ParamKind::Ref, ScriptValue::Integer(1)),
        (ParamKind::Mut, ScriptValue::Table(vec![])),
        (ParamKind::Owned, ScriptValue::Integer(1)),
        (ParamKind::Ref, ScriptValue::UserData(UserData::Other)),
        (ParamKind::Int, handle(&h)),
        (ParamKind::Int, ScriptValue::Function(3)),
        (ParamKind::Int, ScriptValue::Thread),
    ];
    for (kind, arg) in cases {
        assert_eq!(
            lua_wrapped_dynamic_function_call(POINT, function("f", vec![kind]), vec![arg], &mut memory),
            Err(BridgeError::TypeMismatch)
        );
    }
}

#[test]
fn references_are_had_from_handles() {
    let mut memory = HostMemory::new(0);
    let state = memory.add_state();
    let slot = memory.add_slot(point(1));
    let shared = ReflectPtr::new_ref(&memory, slot, state);
    let exclusive = ReflectPtr::new_mut(&memory, slot, state);
    let owner = ReflectPtr::new_boxed(&mut memory, point(2), state);

    let call = lua_wrapped_dynamic_function_call(POINT, function("f", vec![ParamKind::Ref, ParamKind::Ref, ParamKind::Ref, ParamKind::Mut, ParamKind::Mut]),
        vec![handle(&shared), handle(&exclusive), handle(&owner), handle(&exclusive), handle(&owner)],
        &mut memory,
    )
    .unwrap();
    assert_eq!(
        call.args,
        vec![
            HostArg::Ref(shared.clone()),
            HostArg::Ref(exclusive.clone()),
            HostArg::Ref(owner.clone()),
            HostArg::Mut(exclusive.clone()),
            HostArg::Mut(owner.clone()),
        ]
    );
}

#[test]
fn shared_handle_does_not_give_an_exclusive_reference() {
    let mut memory = HostMemory::new(0);
    let state = memory.add_state();
    let slot = memory.add_slot(point(1));
    let shared = ReflectPtr::new_ref(&memory, slot, state);
    assert_eq!(
        lua_wrapped_dynamic_function_call(POINT, function("f", vec![ParamKind::Mut]),
            vec![handle(&shared)],
            &mut memory
        ),
        Err(BridgeError::ArityMismatch)
    );
}

#[test]
fn reference_to_what_cannot_be_reached_is_refused() {
    let mut memory = HostMemory::new(0);
    let state = memory.add_state();
    let slot = memory.add_slot(point(1));
    let exclusive = ReflectPtr::new_mut(&memory, slot, state);
    assert_eq!(
        lua_wrapped_dynamic_function_call(POINT, function("f", vec![ParamKind::Ref]),
            vec![handle(&exclusive.child("y"))],
            &mut memory
        ),
        Err(BridgeError::NoSuchField)
    );
    assert_eq!(
        lua_wrapped_dynamic_function_call(POINT, function("f", vec![ParamKind::Mut]),
            vec![handle(&exclusive.child("y"))],
            &mut memory
        ),
        Err(BridgeError::NoSuchField)
    );
    memory.invalidate(state);
    for kind in [ParamKind::Ref, ParamKind::Mut, ParamKind::Owned] {
        assert_eq!(
            lua_wrapped_dynamic_function_call(POINT, function("f", vec![kind]),
                vec![handle(&exclusive)],
                &mut memory
            ),
            Err(BridgeError::StaleHandle)
        );
    }
}

#[test]
fn owned_argument_consumes_the_cell_once() {
    let mut memory = HostMemory::new(0);
    let state = memory.add_state();
    let owner = ReflectPtr::new_boxed(&mut memory, point(2), state);
    let call = lua_wrapped_dynamic_function_call(POINT, function("f", vec![ParamKind::Owned]),
        vec![handle(&owner)],
        &mut memory,
    )
    .unwrap();
    assert_eq!(call.args, vec![HostArg::Owned(point(2))]);
    assert_eq!(memory.cell(0), Some(None));
    assert_eq!(
        lua_wrapped_dynamic_function_call(POINT, function("f", vec![ParamKind::Owned]),
            vec![handle(&owner)],
            &mut memory
        ),
        Err(BridgeError::AlreadyTaken)
    );
    assert_eq!(
        lua_wrapped_dynamic_function_call(POINT, function("f", vec![ParamKind::Ref]),
            vec![handle(&owner)],
            &mut memory
        ),
        Err(BridgeError::AlreadyTaken)
    );
}

#[test]
fn call_that_cannot_be_prepared_consumes_nothing() {
    let mut memory = HostMemory::new(0);
    let state = memory.add_state();
    let owner = ReflectPtr::new_boxed(&mut memory, point(2), state);
    let other = ReflectPtr::new_boxed(&mut memory, point(3), state);
    assert_eq!(
        lua_wrapped_dynamic_function_call(POINT, function("f", vec![ParamKind::Owned, ParamKind::Owned]),
            vec![handle(&owner), handle(&owner)],
            &mut memory
        ),
        Err(BridgeError::AlreadyTaken)
    );
    assert_eq!(memory.cell(0), Some(Some(&point(2))));
    assert_eq!(
        lua_wrapped_dynamic_function_call(POINT, function("f", vec![ParamKind::Owned, ParamKind::Ref]),
            vec![handle(&owner), handle(&owner)],
            &mut memory
        ),
        Err(BridgeError::AlreadyTaken)
    );
    assert_eq!(
        lua_wrapped_dynamic_function_call(POINT, function("f", vec![ParamKind::Owned, ParamKind::Owned, ParamKind::Int]),
            vec![handle(&owner), handle(&other), ScriptValue::Nil],
            &mut memory
        ),
        Err(BridgeError::TypeMismatch)
    );
    assert_eq!(memory.cell(0), Some(Some(&point(2))));
    assert_eq!(memory.cell(1), Some(Some(&point(3))));
    let call = lua_wrapped_dynamic_function_call(POINT, function("f", vec![ParamKind::Ref, ParamKind::Owned, ParamKind::Owned]),
        vec![handle(&owner), handle(&other), handle(&owner)],
        &mut memory,
    )
    .unwrap();
    assert_eq!(
        call.args,
        vec![HostArg::Ref(owner.clone()), HostArg::Owned(point(3)), HostArg::Owned(point(2))]
    );
    assert_eq!(memory.cell(0), Some(None));
    assert_eq!(memory.cell(1), Some(None));
}

#[test]
fn borrowed_value_cannot_be_given_away() {
    let mut memory = HostMemory::new(0);
    let state = memory.add_state();
    let slot = memory.add_slot(point(1));
    let exclusive = ReflectPtr::new_mut(&memory, slot, state);
    assert_eq!(
        lua_wrapped_dynamic_function_call(POINT, function("f", vec![ParamKind::Owned]),
            vec![handle(&exclusive)],
            &mut memory
        ),
        Err(BridgeError::ArityMismatch)
    );
}

#[test]
fn scalar_results_go_back_by_value() {
    let mut memory = HostMemory::new(0);
    assert_eq!(
        lua_wrapped_dynamic_function_return(Return::Owned(HostValue::Unit), &mut memory),
        ScriptValue::Nil
    );
    assert_eq!(
        lua_wrapped_dynamic_function_return(Return::Owned(HostValue::Bool(true)), &mut memory),
        ScriptValue::Boolean(true)
    );
    assert_eq!(
        lua_wrapped_dynamic_function_return(Return::Owned(HostValue::I32(-5)), &mut memory),
        ScriptValue::Integer(-5)
    );
    assert_eq!(
        lua_wrapped_dynamic_function_return(Return::Ref(HostValue::I64(1 << 50)), &mut memory),
        ScriptValue::Integer(1 << 50)
    );
    assert_eq!(
        lua_wrapped_dynamic_function_return(
            Return::Mut(HostValue::Float(0.25f64.to_bits())),
            &mut memory
        ),
        ScriptValue::Number(0.25f64.to_bits())
    );
    assert_eq!(
        lua_wrapped_dynamic_function_return(
            Return::Owned(HostValue::Str("s".to_string())),
            &mut memory
        ),
        ScriptValue::String("s".to_string())
    );
    assert_eq!(memory.slot_count(), 0);
    assert_eq!(memory.cell_count(), 0);
    assert_eq!(memory.state(0), PtrState::Invalid);
}

#[test]
fn composite_result_goes_back_as_a_new_owner() {
    let mut memory = HostMemory::new(0);
    memory.add_state();
    let back = lua_wrapped_dynamic_function_return(Return::Owned(point(3)), &mut memory);
    let owner = match back {
        ScriptValue::UserData(UserData::Reflect(h)) => h,
        _ => panic!("a struct comes back as a handle"),
    };
    assert_eq!(owner, ReflectPtr { data: ReflectType::Boxed(0), path: String::new(), ptr_state: 1, generation: 0 });
    assert_eq!(memory.state(1), PtrState::Valid);
    assert_eq!(owner.read(&memory, "x"), Ok(ScriptValue::Integer(3)));
    assert_eq!(owner.take(&mut memory), Ok(point(3)));
}

#[test]
fn lent_composite_result_goes_back_as_a_reference() {
    let mut memory = HostMemory::new(0);
    let shared = match lua_wrapped_dynamic_function_return(Return::Ref(point(3)), &mut memory) {
        ScriptValue::UserData(UserData::Reflect(h)) => h,
        _ => panic!("a struct comes back as a handle"),
    };
    assert_eq!(shared, ReflectPtr { data: ReflectType::PtrRef(0), path: String::new(), ptr_state: 0, generation: 0 });
    let exclusive = match lua_wrapped_dynamic_function_return(
        Return::Mut(HostValue::Opaque(9)),
        &mut memory,
    ) {
        ScriptValue::UserData(UserData::Reflect(h)) => h,
        _ => panic!("an opaque value comes back as a handle"),
    };
    assert_eq!(
        exclusive,
        ReflectPtr { data: ReflectType::PtrMut(1), path: String::new(), ptr_state: 1, generation: 0 }
    );
    assert_eq!(
        shared.lua_new_index(&mut memory, "x", &ScriptValue::Integer(1)),
        Err(BridgeError::ArityMismatch)
    );
    assert_eq!(memory.slot(1), Some(&HostValue::Opaque(9)));
}

#[test]
fn method_call_passes_the_receiver_first() {
    let mut registry = ObjectFunctionRegistry::new();
    registry.register_object_function(POINT, function("move_by", vec![ParamKind::Mut, ParamKind::Int]), None);
    let mut memory = HostMemory::new(0);
    let state = memory.add_state();
    let slot = memory.add_slot(point(1));
    let obj = ReflectPtr::new_mut(&memory, slot, state);
    let outcome = call_method(&obj, &mut memory, &registry, "move_by", vec![ScriptValue::Integer(4)]);
    assert_eq!(
        outcome,
        Ok(MethodCall::Invoke(HostCall { type_id: POINT, function: function("move_by", vec![ParamKind::Mut, ParamKind::Int]),
            args: vec![HostArg::Mut(obj.clone()), HostArg::Owned(HostValue::I64(4))],
        }))
    );
    assert_eq!(
        call_method(&obj, &mut memory, &registry, "move_by", vec![]),
        Err(BridgeError::ArityMismatch)
    );
    let shared = ReflectPtr::new_ref(&memory, slot, state);
    assert_eq!(
        call_method(&shared, &mut memory, &registry, "move_by", vec![ScriptValue::Integer(4)]),
        Err(BridgeError::ArityMismatch)
    );
}

#[test]
fn method_that_is_not_registered_is_a_field() {
    let registry = ObjectFunctionRegistry::new();
    let mut memory = HostMemory::new(0);
    let state = memory.add_state();
    let slot = memory.add_slot(point(1));
    let obj = ReflectPtr::new_mut(&memory, slot, state);
    assert_eq!(
        call_method(&obj, &mut memory, &registry, "x", vec![ScriptValue::Integer(4)]),
        Ok(MethodCall::Field(obj.child("x")))
    );
    assert_eq!(
        call_method(&obj.child("y"), &mut memory, &registry, "x", vec![]),
        Err(BridgeError::NoSuchField)
    );
}

#[test]
fn direct_call_of_an_unknown_function_is_no_such_method() {
    let mut registry = ObjectFunctionRegistry::new();
    registry.register_object_function(POINT, function("origin", vec![]), None);
    let mut memory = HostMemory::new(0);
    assert_eq!(
        call_function(&registry, POINT, "origin", vec![], &mut memory),
        Ok(HostCall { type_id: POINT, function: function("origin", vec![]), args: vec![] })
    );
    assert_eq!(
        call_function(&registry, POINT, "nowhere", vec![], &mut memory),
        Err(BridgeError::NoSuchMethod)
    );
    assert_eq!(
        call_function(&registry, POINT + 1, "origin", vec![], &mut memory),
        Err(BridgeError::NoSuchMethod)
    );
    assert_eq!(
        call_function(&registry, POINT, "origin", vec![ScriptValue::Nil], &mut memory),
        Err(BridgeError::ArityMismatch)
    );
}

#[test]
fn registry_keeps_one_function_per_type_and_name() {
    let mut registry = ObjectFunctionRegistry::new();
    assert!(registry.get(POINT, "f").is_none());
    assert!(registry.register_object_function(POINT, function("f", vec![ParamKind::Int]), None));
    assert!(!registry.register_object_function(POINT, function("f", vec![ParamKind::Bool]), None));
    assert!(registry.register_object_function(POINT, function("g", vec![]), None));
    assert!(registry.register_object_function(POINT + 1, function("f", vec![ParamKind::Float]), None));
    assert_eq!(registry.get(POINT, "f"), Some(&function("f", vec![ParamKind::Int])));
    assert_eq!(registry.get(POINT, "g"), Some(&function("g", vec![])));
    assert_eq!(registry.get(POINT + 1, "f"), Some(&function("f", vec![ParamKind::Float])));
    assert_eq!(registry.get(POINT + 1, "g"), None);
    assert_eq!(registry.get(POINT + 2, "f"), None);
}

#[test]
fn script_values_are_told_apart_as_host_objects() {
    let h = ReflectPtr::new_ref(&HostMemory::new(0), 0, 0);
    let access = ComponentType::Ref((1, 2));
    assert_eq!(handle(&h).as_reflect_ptr(), Ok(&h));
    assert_eq!(
        ScriptValue::UserData(UserData::Component(access)).as_reflect_ptr(),
        Err(TypeError::OtherUserData)
    );
    assert_eq!(ScriptValue::Integer(1).as_reflect_ptr(), Err(TypeError::OtherLuaValue));
    assert_eq!(ScriptValue::UserData(UserData::Component(access)).as_component_type(), Ok(access));
    assert_eq!(
        ScriptValue::UserData(UserData::Commands(CommandQueueMarker)).as_component_type(),
        Err(TypeError::OtherUserData)
    );
    assert_eq!(ScriptValue::Nil.as_component_type(), Err(TypeError::OtherLuaValue));
    assert_eq!(
        ScriptValue::UserData(UserData::Commands(CommandQueueMarker)).as_static_user_data(),
        Ok(&UserData::Commands(CommandQueueMarker))
    );
    assert_eq!(
        ScriptValue::UserData(UserData::Other).as_static_user_data(),
        Err(TypeError::OtherUserData)
    );
    assert_eq!(
        ScriptValue::Table(vec![]).as_static_user_data(),
        Err(TypeError::OtherLuaValue)
    );
}

#[test]
fn registry_keeps_the_function_itself_for_the_host_to_call() {
    let mut registry = ObjectFunctionRegistry::new();
    assert!(registry.callable(POINT, "double").is_none());
    let double = (|x: i64| x * 2).into_function();
    let triple = (|x: i64| x * 3).into_function();
    assert!(registry.register_object_function(
        POINT,
        function("double", vec![ParamKind::Int]),
        Some(double)
    ));
    assert!(!registry.register_object_function(
        POINT,
        function("double", vec![ParamKind::Int]),
        Some(triple)
    ));
    assert!(registry.register_object_function(POINT, function("bare", vec![]), None));
    assert!(registry.callable(POINT, "bare").is_none());
    assert!(registry.callable(POINT, "half").is_none());
    assert!(registry.callable(POINT + 1, "double").is_none());
    let found = registry.callable(POINT, "double").unwrap();
    let mut args = ArgList::new();
    args.push_owned(21i64);
    match found.call(args) {
        Ok(Returned::Owned(value)) => {
            assert_eq!(value.try_downcast_ref::<i64>(), Some(&42));
        }
        _ => panic!("the function that was registered first is the one that is kept"),
    }
    assert_eq!(found.name().map(|name| name.to_string()), Some("double".to_string()));
}
