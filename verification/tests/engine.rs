//! The execution core end to end: lowering, width finalization, and the
//! opcode operations against a live machine.

use std::rc::Rc;

use jsvm::ast::{ArithmeticOp, Binary, BinaryOp, Expression, RelationalOp};
use jsvm::bigint::JsBigInt;
use jsvm::codec::{decode, finalize, Instruction, OperandWidth};
use jsvm::compiler::ByteCompiler;
use jsvm::error::ErrorKind;
use jsvm::object::PropertyKey;
use jsvm::opcode::Opcode;
use jsvm::ops::binary_ops::In;
use jsvm::ops::class_prototype::SetClassPrototype;
use jsvm::ops::increment::{Inc, IncPost, ToNumeric};
use jsvm::ops::rest_parameter::RestParameterInit;
use jsvm::string::utf16_from_str;
use jsvm::value::{JsObject, JsValue};
use jsvm::vm::{CallFrame, CodeBlock, Context, InstructionOperand};

fn empty_code(register_count: u32, param_count: u32, constants: Vec<JsValue>) -> Rc<CodeBlock> {
    Rc::new(CodeBlock {
        bytes: Vec::new(),
        width: OperandWidth::Narrow,
        constants,
        names: Vec::new(),
        register_count,
        param_count,
    })
}

fn context_with_frame(
    stack: Vec<JsValue>,
    rp: u32,
    argument_count: u32,
    code: Rc<CodeBlock>,
) -> Context {
    let mut context = Context::new();
    context.vm.stack = stack;
    context.vm.frames.push(CallFrame { code, pc: 0, rp, argument_count });
    context
}

#[test]
fn integer_arithmetic_is_exact() {
    let two = JsValue::Integer(2);
    let three = JsValue::Integer(3);
    assert!(matches!(two.add(&three), Ok(JsValue::Integer(5))));
    assert!(matches!(two.sub(&three), Ok(JsValue::Integer(-1))));
    assert!(matches!(two.mul(&three), Ok(JsValue::Integer(6))));
    assert!(matches!(JsValue::Integer(6).div(&three), Ok(JsValue::Integer(2))));
    assert!(matches!(JsValue::Integer(-7).rem(&three), Ok(JsValue::Integer(-1))));
    assert!(matches!(two.pow(&JsValue::Integer(10)), Ok(JsValue::Integer(1024))));
}

#[test]
fn arithmetic_outside_the_number_model_is_a_range_error() {
    let e = JsValue::Integer(7).div(&JsValue::Integer(2)).unwrap_err();
    assert_eq!(e.kind(), ErrorKind::Range);
    let e = JsValue::Integer(1).div(&JsValue::Integer(0)).unwrap_err();
    assert_eq!(e.kind(), ErrorKind::Range);
    let max = JsValue::Integer(9007199254740991);
    let e = max.add(&JsValue::Integer(1)).unwrap_err();
    assert_eq!(e.kind(), ErrorKind::Range);
}

#[test]
fn bitwise_and_shifts_work_on_int32_readings() {
    let a = JsValue::Integer(6);
    let b = JsValue::Integer(3);
    assert!(matches!(a.bitand(&b), Ok(JsValue::Integer(2))));
    assert!(matches!(a.bitor(&b), Ok(JsValue::Integer(7))));
    assert!(matches!(a.bitxor(&b), Ok(JsValue::Integer(5))));
    assert!(matches!(JsValue::Integer(1).shl(&JsValue::Integer(4)), Ok(JsValue::Integer(16))));
    assert!(matches!(JsValue::Integer(-8).shr(&JsValue::Integer(1)), Ok(JsValue::Integer(-4))));
    assert!(matches!(
        JsValue::Integer(-1).ushr(&JsValue::Integer(0)),
        Ok(JsValue::Integer(4294967295))
    ));
}

#[test]
fn string_addition_concatenates() {
    let a = JsValue::String(jsvm::string::JsString::from_str("ab"));
    let b = JsValue::String(jsvm::string::JsString::from_str("cd"));
    match a.add(&b) {
        Ok(JsValue::String(s)) => assert!(s.eq_str("abcd")),
        _ => panic!("string addition must concatenate"),
    }
    let n = JsValue::Integer(7);
    match a.add(&n) {
        Ok(JsValue::String(s)) => assert!(s.eq_str("ab7")),
        _ => panic!("string-number addition must concatenate the decimal form"),
    }
}

#[test]
fn comparisons_follow_the_language_order() {
    assert!(matches!(JsValue::Integer(2).lt(&JsValue::Integer(3)), Ok(true)));
    assert!(matches!(JsValue::Integer(3).ge(&JsValue::Integer(3)), Ok(true)));
    let a = JsValue::String(jsvm::string::JsString::from_str("abc"));
    let b = JsValue::String(jsvm::string::JsString::from_str("abd"));
    assert!(matches!(a.lt(&b), Ok(true)));
    assert!(matches!(b.gt(&a), Ok(true)));
    let big = JsValue::BigInt(JsBigInt::from_i64(4));
    assert!(matches!(JsValue::Integer(3).lt(&big), Ok(true)));
}

#[test]
fn bigint_sums_lose_no_precision() {
    let max = JsBigInt::from_u64(u64::MAX);
    let one = JsBigInt::one();
    let past = JsBigInt::add(&max, &one);
    assert!(!JsBigInt::equal(&past, &max));
    let back = JsBigInt::sub(&past, &one);
    assert!(JsBigInt::equal(&back, &max));
    assert_eq!(JsBigInt::compare(&past, &max), 1);

    let minus_one = JsBigInt::from_i64(-1);
    let zero = JsBigInt::add(&minus_one, &one);
    assert!(zero.is_zero());
}

#[test]
fn width_finalization_round_trips_at_the_boundaries() {
    for value in [255u32, 256, 65535, 65536] {
        let instructions = vec![
            Instruction { op: Opcode::PushConstant, operands: vec![value] },
            Instruction { op: Opcode::Pop, operands: vec![] },
        ];
        let (width, bytes) = finalize(&instructions);
        let expected_width = if value <= 255 {
            OperandWidth::Narrow
        } else if value <= 65535 {
            OperandWidth::Medium
        } else {
            OperandWidth::Wide
        };
        assert_eq!(width, expected_width);
        let decoded = decode(&bytes, width).expect("a finalized unit must decode");
        assert_eq!(decoded.len(), 2);
        assert_eq!(decoded[0].op, Opcode::PushConstant);
        assert_eq!(decoded[0].operands, vec![value]);
        assert_eq!(decoded[1].op, Opcode::Pop);
        assert!(decoded[1].operands.is_empty());
    }
}

#[test]
fn lowering_compiles_left_operand_first() {
    let mut compiler = ByteCompiler::new();
    let expr = Expression::Binary(Box::new(Binary::new(
        BinaryOp::Arithmetic(ArithmeticOp::Add),
        Expression::Literal(JsValue::Integer(1)),
        Expression::Literal(JsValue::Integer(2)),
    )));
    compiler.compile_expr(&expr).expect("lowering small expressions cannot overflow a pool");
    let code = compiler.finish(0);
    let decoded = decode(&code.bytes, code.width).expect("a finalized unit must decode");
    let ops: Vec<Opcode> = decoded.iter().map(|i| i.op).collect();
    assert_eq!(
        ops,
        vec![
            Opcode::PushConstant,
            Opcode::PushConstant,
            Opcode::PopIntoRegister,
            Opcode::PopIntoRegister,
            Opcode::Add,
            Opcode::PushFromRegister,
        ]
    );
    // the left operand's constant is pooled first, so it is pushed first
    assert_eq!(decoded[0].operands, vec![0]);
    assert_eq!(decoded[1].operands, vec![1]);
    assert!(matches!(code.constants[0], JsValue::Integer(1)));
    assert!(matches!(code.constants[1], JsValue::Integer(2)));
    // the top of the stack is popped into the right-hand register first;
    // the output register is scratch slot zero, so the two operand
    // registers are the next two indices
    assert_eq!(decoded[2].operands, vec![1]);
    assert_eq!(decoded[3].operands, vec![2]);
}

#[test]
fn lowering_reuses_scratch_registers_in_lifo_order() {
    let mut compiler = ByteCompiler::new();
    let left = Binary::new(
        BinaryOp::Arithmetic(ArithmeticOp::Add),
        Expression::Literal(JsValue::Integer(1)),
        Expression::Literal(JsValue::Integer(2)),
    );
    let right = Binary::new(
        BinaryOp::Arithmetic(ArithmeticOp::Add),
        Expression::Literal(JsValue::Integer(3)),
        Expression::Literal(JsValue::Integer(4)),
    );
    let expr = Expression::Binary(Box::new(Binary::new(
        BinaryOp::Arithmetic(ArithmeticOp::Mul),
        Expression::Binary(Box::new(left)),
        Expression::Binary(Box::new(right)),
    )));
    compiler.compile_expr(&expr).expect("lowering small expressions cannot overflow a pool");
    let code = compiler.finish(0);
    // both nested sums release their scratch registers before the product
    // allocates its own, so the whole unit needs four registers, not more
    assert_eq!(code.register_count, 4);
    let decoded = decode(&code.bytes, code.width).expect("a finalized unit must decode");
    // the two sums use the same scratch indices, freed between them
    assert_eq!(decoded[2].operands, vec![2]);
    assert_eq!(decoded[3].operands, vec![3]);
    assert_eq!(decoded[8].operands, vec![2]);
    assert_eq!(decoded[9].operands, vec![3]);
}

#[test]
fn increment_takes_the_integer_fast_path() {
    let code = empty_code(2, 0, Vec::new());
    let mut context = context_with_frame(
        vec![JsValue::Integer(41), JsValue::Undefined],
        0,
        0,
        code,
    );
    ToNumeric::operation(0, 1, &mut context).expect("numbers coerce to themselves");
    Inc::operation(1, 0, &mut context).expect("the fast path increments in place");
    assert!(matches!(context.vm.stack[0], JsValue::Integer(42)));
}

#[test]
fn postfix_increment_keeps_the_original_on_top() {
    let code = empty_code(0, 0, Vec::new());
    let mut context = context_with_frame(vec![JsValue::Integer(5)], 0, 0, code);
    IncPost::step(&mut context).expect("integers below the safe bound take the fast path");
    let consumed = context.vm.pop();
    let stored = context.vm.pop();
    assert!(matches!(consumed, JsValue::Integer(5)));
    assert!(matches!(stored, JsValue::Integer(6)));
}

#[test]
fn postfix_increment_is_exact_on_big_integers() {
    let code = empty_code(0, 0, Vec::new());
    let start = JsBigInt::from_u64(u64::MAX);
    let mut context = context_with_frame(vec![JsValue::BigInt(start)], 0, 0, code);
    IncPost::step(&mut context).expect("big integers increment exactly");
    let consumed = context.vm.pop();
    let stored = context.vm.pop();
    let expected_new = JsBigInt::add(&JsBigInt::from_u64(u64::MAX), &JsBigInt::one());
    match (consumed, stored) {
        (JsValue::BigInt(orig), JsValue::BigInt(next)) => {
            assert!(JsBigInt::equal(&orig, &JsBigInt::from_u64(u64::MAX)));
            assert!(JsBigInt::equal(&next, &expected_new));
        }
        _ => panic!("postfix increment must leave two big integers"),
    }
}

#[test]
fn rest_parameter_collects_the_trailing_arguments() {
    // f(a, ...rest) invoked with [1, 2, 3, 4]: one declared slot plus the
    // rest parameter itself
    let code = empty_code(1, 2, Vec::new());
    let stack = vec![
        JsValue::Integer(1),
        JsValue::Integer(2),
        JsValue::Integer(3),
        JsValue::Integer(4),
        JsValue::Integer(99),
    ];
    let mut context = context_with_frame(stack, 4, 4, code);
    RestParameterInit::step(&mut context).expect("rest materialization cannot fail");

    let frame = context.vm.frame();
    assert_eq!(frame.rp, 1);
    assert_eq!(frame.argument_count, 1);

    // the remaining argument and the register slot are unaffected
    assert!(matches!(context.vm.stack[0], JsValue::Integer(1)));
    assert!(matches!(context.vm.stack[1], JsValue::Integer(99)));

    let array = match context.vm.stack[2] {
        JsValue::Object(o) => o,
        _ => panic!("the rest array must be pushed"),
    };
    let len = context.vm.heap.get_value(array.handle, &PropertyKey::Str(utf16_from_str("length")));
    assert!(matches!(len, JsValue::Integer(3)));
    for (i, expected) in [2i64, 3, 4].iter().enumerate() {
        let v = context.vm.heap.get_value(array.handle, &PropertyKey::Index(i as u32));
        match v {
            JsValue::Integer(n) => assert_eq!(n, *expected),
            _ => panic!("rest elements must be the trailing arguments"),
        }
    }
}

#[test]
fn rest_parameter_with_too_few_arguments_is_empty() {
    let code = empty_code(1, 2, Vec::new());
    let stack = vec![JsValue::Integer(1), JsValue::Integer(99)];
    let mut context = context_with_frame(stack, 1, 1, code);
    RestParameterInit::step(&mut context).expect("rest materialization cannot fail");

    let frame = context.vm.frame();
    assert_eq!(frame.rp, 1);
    assert_eq!(frame.argument_count, 1);
    assert!(matches!(context.vm.stack[0], JsValue::Integer(1)));
    assert!(matches!(context.vm.stack[1], JsValue::Integer(99)));
    let array = match context.vm.stack[2] {
        JsValue::Object(o) => o,
        _ => panic!("an empty rest array must still be pushed"),
    };
    let len = context.vm.heap.get_value(array.handle, &PropertyKey::Str(utf16_from_str("length")));
    assert!(matches!(len, JsValue::Integer(0)));
}

#[test]
fn in_with_a_non_object_right_operand_is_a_type_error() {
    let constants = vec![
        JsValue::String(jsvm::string::JsString::from_str("x")),
        JsValue::Integer(5),
    ];
    let code = empty_code(1, 0, constants);
    let mut context = context_with_frame(vec![JsValue::Undefined], 0, 0, code);
    let e = In::operation(
        0,
        InstructionOperand::Constant(0),
        InstructionOperand::Constant(1),
        &mut context,
    )
    .unwrap_err();
    assert_eq!(e.kind(), ErrorKind::Type);
    assert_eq!(e.message(), "right-hand side of 'in' should be an object, got `number`");
    // the output register is untouched
    assert!(matches!(context.vm.stack[0], JsValue::Undefined));
}

#[test]
fn in_on_an_empty_object_is_false_without_throwing() {
    let constants = vec![JsValue::String(jsvm::string::JsString::from_str("x"))];
    let code = empty_code(2, 0, constants);
    let mut context = context_with_frame(vec![JsValue::Undefined, JsValue::Undefined], 0, 0, code);
    let proto = context.object_prototype();
    let empty = context.vm.heap.create_object(Some(proto), false);
    context.vm.stack[1] = JsValue::Object(JsObject { handle: empty });
    In::operation(
        0,
        InstructionOperand::Constant(0),
        InstructionOperand::Register(1),
        &mut context,
    )
    .expect("a membership test on an object does not throw");
    assert!(matches!(context.vm.stack[0], JsValue::Boolean(false)));
}

#[test]
fn class_prototype_wiring_and_silent_assignment() {
    let code = empty_code(3, 0, Vec::new());
    let mut context = context_with_frame(
        vec![JsValue::Undefined, JsValue::Undefined, JsValue::Undefined],
        0,
        0,
        code,
    );
    let proto_of_objects = context.object_prototype();
    let class = context.vm.heap.create_object(Some(proto_of_objects), true);
    context.vm.stack[2] = JsValue::Object(JsObject { handle: class });

    SetClassPrototype::operation(0, 1, 2, &mut context).expect("wiring a fresh class succeeds");

    let proto = match context.vm.stack[0] {
        JsValue::Object(o) => o.handle,
        _ => panic!("the new prototype must land in the output register"),
    };

    // `prototype` is non-writable, non-enumerable, non-configurable
    let prototype_key = PropertyKey::Str(utf16_from_str("prototype"));
    let slot = context
        .vm
        .heap
        .get_own_property(class, &prototype_key)
        .expect("the class gained a prototype slot");
    assert!(!slot.writable);
    assert!(!slot.enumerable);
    assert!(!slot.configurable);
    match slot.value {
        JsValue::Object(o) => assert_eq!(o.handle, proto),
        _ => panic!("the prototype slot must hold the new object"),
    }

    // `constructor` points back at the class, writable and configurable
    let constructor_key = PropertyKey::Str(utf16_from_str("constructor"));
    let back = context
        .vm
        .heap
        .get_own_property(proto, &constructor_key)
        .expect("the prototype gained a constructor slot");
    assert!(back.writable);
    assert!(!back.enumerable);
    assert!(back.configurable);
    match back.value {
        JsValue::Object(o) => assert_eq!(o.handle, class),
        _ => panic!("the constructor slot must hold the class"),
    }

    // a later non-strict assignment to `prototype` is silently ignored
    let took = context.vm.heap.set(
        class,
        PropertyKey::Str(utf16_from_str("prototype")),
        JsValue::Integer(1),
    );
    assert!(!took);
    let unchanged = context
        .vm
        .heap
        .get_own_property(class, &PropertyKey::Str(utf16_from_str("prototype")))
        .expect("the slot survives");
    match unchanged.value {
        JsValue::Object(o) => assert_eq!(o.handle, proto),
        _ => panic!("the prototype slot keeps its object identity"),
    }
}

#[test]
fn loose_and_strict_equality_disagree_across_types() {
    let five = JsValue::Integer(5);
    let big_five = JsValue::BigInt(JsBigInt::from_i64(5));
    assert!(matches!(five.equals(&big_five), Ok(true)));
    assert!(!five.strict_equals(&big_five));
    assert!(matches!(JsValue::Undefined.equals(&JsValue::Null), Ok(true)));
    assert!(!JsValue::Undefined.strict_equals(&JsValue::Null));
}

#[test]
fn relational_in_lowering_matches_the_catalog() {
    let mut compiler = ByteCompiler::new();
    let expr = Expression::Binary(Box::new(Binary::new(
        BinaryOp::Relational(RelationalOp::StrictEqual),
        Expression::Literal(JsValue::Integer(1)),
        Expression::Literal(JsValue::Integer(1)),
    )));
    compiler.compile_expr(&expr).expect("lowering small expressions cannot overflow a pool");
    let code = compiler.finish(0);
    let decoded = decode(&code.bytes, code.width).expect("a finalized unit must decode");
    assert_eq!(decoded[4].op, Opcode::StrictEq);
}
