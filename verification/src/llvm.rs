//! Rendering a module as LLVM IR. The code of the module becomes the body
//! of the function `start`; host primitives and runtime helpers become
//! declarations; the codec and the bodies of the contract's functions, which
//! other parts of the compiler provide, are referred to by symbol.
//!
//! LLVM is reached through `inkwell`, one small function of this file for
//! each function of `inkwell`. Nothing is claimed of what LLVM builds: those
//! functions have no postcondition, and a precondition only where LLVM
//! would not take the argument.

use vstd::prelude::*;
use inkwell::{AddressSpace, IntPredicate};
use inkwell::attributes::{Attribute, AttributeLoc};
use inkwell::basic_block::BasicBlock;
use inkwell::builder::Builder;
use inkwell::context::Context;
use inkwell::module::{Linkage, Module};
use inkwell::types::{
    ArrayType,
    BasicMetadataTypeEnum,
    FunctionType,
    IntType,
    PointerType,
    VoidType,
};
use inkwell::values::{
    ArrayValue,
    BasicMetadataValueEnum,
    BasicValueEnum,
    FunctionValue,
    GlobalValue,
    IntValue,
    PointerValue,
};
use crate::binary::Binary;
use crate::host::{ParamTy, RetTy};
use crate::ir::{Args, ArithOp, Callee, Helper, Instr, Operand, Predicate};
use crate::target::LachainTarget;
use crate::typing::{callee_params, code_kinds, TypeError};

verus! {

#[verifier::external_type_specification]
#[verifier::external_body]
pub struct ExContext(Context);

#[verifier::external_type_specification]
#[verifier::external_body]
pub struct ExModule<'ctx>(Module<'ctx>);

#[verifier::external_type_specification]
#[verifier::external_body]
pub struct ExBuilder<'ctx>(Builder<'ctx>);

#[verifier::external_type_specification]
#[verifier::external_body]
pub struct ExBasicBlock<'ctx>(BasicBlock<'ctx>);

#[verifier::external_type_specification]
#[verifier::external_body]
pub struct ExFunctionValue<'ctx>(FunctionValue<'ctx>);

#[verifier::external_type_specification]
#[verifier::external_body]
pub struct ExFunctionType<'ctx>(FunctionType<'ctx>);

#[verifier::external_type_specification]
#[verifier::external_body]
pub struct ExVoidType<'ctx>(VoidType<'ctx>);

#[verifier::external_type_specification]
#[verifier::external_body]
pub struct ExIntType<'ctx>(IntType<'ctx>);

#[verifier::external_type_specification]
#[verifier::external_body]
pub struct ExPointerType<'ctx>(PointerType<'ctx>);

#[verifier::external_type_specification]
#[verifier::external_body]
pub struct ExArrayType<'ctx>(ArrayType<'ctx>);

#[verifier::external_type_specification]
#[verifier::external_body]
pub struct ExIntValue<'ctx>(IntValue<'ctx>);

#[verifier::external_type_specification]
#[verifier::external_body]
pub struct ExPointerValue<'ctx>(PointerValue<'ctx>);

#[verifier::external_type_specification]
#[verifier::external_body]
pub struct ExArrayValue<'ctx>(ArrayValue<'ctx>);

#[verifier::external_type_specification]
#[verifier::external_body]
pub struct ExGlobalValue<'ctx>(GlobalValue<'ctx>);

#[verifier::external_type_specification]
#[verifier::external_body]
pub struct ExBasicValueEnum<'ctx>(BasicValueEnum<'ctx>);

#[verifier::external_type_specification]
#[verifier::external_body]
pub struct ExBasicMetadataTypeEnum<'ctx>(BasicMetadataTypeEnum<'ctx>);

#[verifier::external_type_specification]
#[verifier::external_body]
pub struct ExBasicMetadataValueEnum<'ctx>(BasicMetadataValueEnum<'ctx>);

#[verifier::external_type_specification]
#[verifier::external_body]
pub struct ExAttribute(Attribute);

#[verifier::external_type_specification]
#[verifier::external_body]
pub struct ExIntPredicate(IntPredicate);

/// Why a module was not rendered.
#[derive(Clone, Copy, Debug, PartialEq, Eq)]
pub enum RenderError {
    /// The code of the module does not pass the check.
    Type(TypeError),
    /// LLVM handed back a value of a kind other than the one asked for.
    Backend,
}

/// A rendered module.
#[derive(Clone, Debug, PartialEq, Eq)]
pub struct Rendered {
    /// The module as LLVM IR text.
    pub text: String,
    /// Whether LLVM's own verifier accepts the module.
    pub valid: bool,
}

/// `Context::create_module`.
#[verifier::external_body]
fn create_module<'ctx>(context: &'ctx Context, name: &str) -> Module<'ctx> {
    context.create_module(name)
}

/// `Module::set_source_file_name`.
#[verifier::external_body]
fn set_source_file_name<'ctx>(module: &Module<'ctx>, name: &str) {
    module.set_source_file_name(name)
}

/// `Context::void_type`.
#[verifier::external_body]
fn void_type<'ctx>(context: &'ctx Context) -> VoidType<'ctx> {
    context.void_type()
}

/// `Context::custom_width_int_type`. LLVM has no integer type of 0 bits.
#[verifier::external_body]
fn int_type<'ctx>(context: &'ctx Context, bits: u32) -> IntType<'ctx>
    requires
        1 <= bits <= 256,
{
    context.custom_width_int_type(bits)
}

/// `IntType::ptr_type`, in the default address space.
#[verifier::external_body]
fn ptr_type<'ctx>(pointee: IntType<'ctx>) -> PointerType<'ctx> {
    pointee.ptr_type(AddressSpace::default())
}

/// `IntType::array_type`.
#[verifier::external_body]
fn array_type<'ctx>(element: IntType<'ctx>, size: u32) -> ArrayType<'ctx> {
    element.array_type(size)
}

/// `VoidType::fn_type`, not variadic.
#[verifier::external_body]
fn void_fn_type<'ctx>(ret: VoidType<'ctx>, params: &Vec<BasicMetadataTypeEnum<'ctx>>) -> FunctionType<
    'ctx,
> {
    ret.fn_type(params.as_slice(), false)
}

/// `IntType::fn_type`, not variadic.
#[verifier::external_body]
fn int_fn_type<'ctx>(ret: IntType<'ctx>, params: &Vec<BasicMetadataTypeEnum<'ctx>>) -> FunctionType<
    'ctx,
> {
    ret.fn_type(params.as_slice(), false)
}

/// `PointerType::fn_type`, not variadic.
#[verifier::external_body]
fn pointer_fn_type<'ctx>(
    ret: PointerType<'ctx>,
    params: &Vec<BasicMetadataTypeEnum<'ctx>>,
) -> FunctionType<'ctx> {
    ret.fn_type(params.as_slice(), false)
}

/// An integer type as the type of a parameter: `BasicMetadataTypeEnum::from`.
#[verifier::external_body]
fn int_parameter<'ctx>(ty: IntType<'ctx>) -> BasicMetadataTypeEnum<'ctx> {
    ty.into()
}

/// A pointer type as the type of a parameter: `BasicMetadataTypeEnum::from`.
#[verifier::external_body]
fn pointer_parameter<'ctx>(ty: PointerType<'ctx>) -> BasicMetadataTypeEnum<'ctx> {
    ty.into()
}

/// `Module::add_function`, with external linkage.
#[verifier::external_body]
fn add_function<'ctx>(module: &Module<'ctx>, name: &str, ty: FunctionType<'ctx>) -> FunctionValue<
    'ctx,
> {
    module.add_function(name, ty, Some(Linkage::External))
}

/// The attribute `noreturn`: `Context::create_enum_attribute` with the kind
/// that `Attribute::get_named_enum_kind_id` knows under that name. The two
/// stand in one function because LLVM takes no kind but one of its own.
#[verifier::external_body]
fn noreturn_attribute<'ctx>(context: &'ctx Context) -> Attribute {
    context.create_enum_attribute(Attribute::get_named_enum_kind_id("noreturn"), 0)
}

/// `FunctionValue::add_attribute`, on the function itself.
#[verifier::external_body]
fn add_attribute<'ctx>(function: FunctionValue<'ctx>, attribute: Attribute) {
    function.add_attribute(AttributeLoc::Function, attribute)
}

/// `Module::add_global`, in the default address space.
#[verifier::external_body]
fn add_global<'ctx>(module: &Module<'ctx>, ty: ArrayType<'ctx>, name: &str) -> GlobalValue<'ctx> {
    module.add_global(ty, None, name)
}

/// `Context::const_string`, not null-terminated.
#[verifier::external_body]
fn const_string<'ctx>(context: &'ctx Context, bytes: &Vec<u8>) -> ArrayValue<'ctx> {
    context.const_string(bytes.as_slice(), false)
}

/// `GlobalValue::set_initializer`. LLVM expects an initializer of the type
/// of the datum: `size` is the number of bytes of the datum's array type,
/// `len` the number of bytes of the initializer.
#[verifier::external_body]
fn set_initializer<'ctx>(global: GlobalValue<'ctx>, size: u32, value: ArrayValue<'ctx>, len: usize)
    requires
        size == len,
{
    global.set_initializer(&value)
}

/// `GlobalValue::as_pointer_value`.
#[verifier::external_body]
fn as_pointer_value<'ctx>(global: GlobalValue<'ctx>) -> PointerValue<'ctx> {
    global.as_pointer_value()
}

/// `Context::append_basic_block`.
#[verifier::external_body]
fn append_basic_block<'ctx>(
    context: &'ctx Context,
    function: FunctionValue<'ctx>,
    name: &str,
) -> BasicBlock<'ctx> {
    context.append_basic_block(function, name)
}

/// A builder that stands at the end of `block`: `Context::create_builder`
/// and `Builder::position_at_end`. LLVM cannot build through a builder that
/// stands nowhere; every builder of this file comes from here, and the only
/// other function that moves one is `position_at_end`.
#[verifier::external_body]
fn builder_at<'ctx>(context: &'ctx Context, block: BasicBlock<'ctx>) -> Builder<'ctx> {
    let builder = context.create_builder();
    builder.position_at_end(block);
    builder
}

/// `Builder::position_at_end`.
#[verifier::external_body]
fn position_at_end<'ctx>(builder: &Builder<'ctx>, block: BasicBlock<'ctx>) {
    builder.position_at_end(block)
}

/// `IntType::const_int`, without sign extension.
#[verifier::external_body]
fn const_int<'ctx>(ty: IntType<'ctx>, value: u64) -> IntValue<'ctx> {
    ty.const_int(value, false)
}

/// `PointerType::const_null`.
#[verifier::external_body]
fn const_null<'ctx>(ty: PointerType<'ctx>) -> PointerValue<'ctx> {
    ty.const_null()
}

/// An integer as the argument of a call: `BasicMetadataValueEnum::from`.
#[verifier::external_body]
fn int_argument<'ctx>(value: IntValue<'ctx>) -> BasicMetadataValueEnum<'ctx> {
    value.into()
}

/// A pointer as the argument of a call: `BasicMetadataValueEnum::from`.
#[verifier::external_body]
fn pointer_argument<'ctx>(value: PointerValue<'ctx>) -> BasicMetadataValueEnum<'ctx> {
    value.into()
}

/// The integer in a value, if it is one: the variant `IntValue` of
/// `BasicValueEnum`.
#[verifier::external_body]
fn as_int<'ctx>(value: BasicValueEnum<'ctx>) -> Option<IntValue<'ctx>> {
    match value {
        BasicValueEnum::IntValue(v) => Some(v),
        _ => None,
    }
}

/// The pointer in a value, if it is one: the variant `PointerValue` of
/// `BasicValueEnum`.
#[verifier::external_body]
fn as_pointer<'ctx>(value: BasicValueEnum<'ctx>) -> Option<PointerValue<'ctx>> {
    match value {
        BasicValueEnum::PointerValue(v) => Some(v),
        _ => None,
    }
}

/// `Builder::build_alloca`.
#[verifier::external_body]
fn build_alloca<'ctx>(builder: &Builder<'ctx>, ty: IntType<'ctx>) -> PointerValue<'ctx> {
    builder.build_alloca(ty, "")
}

/// `Builder::build_array_alloca`.
#[verifier::external_body]
fn build_array_alloca<'ctx>(
    builder: &Builder<'ctx>,
    element: IntType<'ctx>,
    size: IntValue<'ctx>,
) -> PointerValue<'ctx> {
    builder.build_array_alloca(element, size, "")
}

/// `Builder::build_pointer_cast`.
#[verifier::external_body]
fn build_pointer_cast<'ctx>(
    builder: &Builder<'ctx>,
    value: PointerValue<'ctx>,
    to: PointerType<'ctx>,
) -> PointerValue<'ctx> {
    builder.build_pointer_cast(value, to, "")
}

/// `Builder::build_load`. Every pointer of this file points to integers or
/// bytes, which LLVM can load.
#[verifier::external_body]
fn build_load<'ctx>(builder: &Builder<'ctx>, ptr: PointerValue<'ctx>) -> BasicValueEnum<'ctx> {
    builder.build_load(ptr, "")
}

/// `Builder::build_store`. LLVM expects a pointer to the type of the value:
/// `pointee_bits` is the width of the integer that `ptr` points to,
/// `value_bits` the width of `value`.
#[verifier::external_body]
fn build_store<'ctx>(
    builder: &Builder<'ctx>,
    ptr: PointerValue<'ctx>,
    pointee_bits: u32,
    value: IntValue<'ctx>,
    value_bits: u32,
)
    requires
        pointee_bits == value_bits,
{
    builder.build_store(ptr, value);
}

/// `Builder::build_int_add`. LLVM expects two integers of one width:
/// `lhs_bits` and `rhs_bits` are the widths of the two.
#[verifier::external_body]
fn build_int_add<'ctx>(
    builder: &Builder<'ctx>,
    lhs: IntValue<'ctx>,
    lhs_bits: u32,
    rhs: IntValue<'ctx>,
    rhs_bits: u32,
) -> IntValue<'ctx>
    requires
        lhs_bits == rhs_bits,
{
    builder.build_int_add(lhs, rhs, "")
}

/// `Builder::build_int_sub`. LLVM expects two integers of one width:
/// `lhs_bits` and `rhs_bits` are the widths of the two.
#[verifier::external_body]
fn build_int_sub<'ctx>(
    builder: &Builder<'ctx>,
    lhs: IntValue<'ctx>,
    lhs_bits: u32,
    rhs: IntValue<'ctx>,
    rhs_bits: u32,
) -> IntValue<'ctx>
    requires
        lhs_bits == rhs_bits,
{
    builder.build_int_sub(lhs, rhs, "")
}

/// `IntPredicate::EQ`: equal.
#[verifier::external_body]
fn predicate_eq() -> IntPredicate {
    IntPredicate::EQ
}

/// `IntPredicate::NE`: not equal.
#[verifier::external_body]
fn predicate_ne() -> IntPredicate {
    IntPredicate::NE
}

/// `IntPredicate::UGE`: unsigned greater than or equal.
#[verifier::external_body]
fn predicate_uge() -> IntPredicate {
    IntPredicate::UGE
}

/// `Builder::build_int_compare`. LLVM expects two integers of one width:
/// `lhs_bits` and `rhs_bits` are the widths of the two.
#[verifier::external_body]
fn build_int_compare<'ctx>(
    builder: &Builder<'ctx>,
    op: IntPredicate,
    lhs: IntValue<'ctx>,
    lhs_bits: u32,
    rhs: IntValue<'ctx>,
    rhs_bits: u32,
) -> IntValue<'ctx>
    requires
        lhs_bits == rhs_bits,
{
    builder.build_int_compare(op, lhs, rhs, "")
}

/// `Builder::build_int_to_ptr`.
#[verifier::external_body]
fn build_int_to_ptr<'ctx>(
    builder: &Builder<'ctx>,
    value: IntValue<'ctx>,
    to: PointerType<'ctx>,
) -> PointerValue<'ctx> {
    builder.build_int_to_ptr(value, to, "")
}

/// `Builder::build_ptr_to_int`.
#[verifier::external_body]
fn build_ptr_to_int<'ctx>(
    builder: &Builder<'ctx>,
    value: PointerValue<'ctx>,
    to: IntType<'ctx>,
) -> IntValue<'ctx> {
    builder.build_ptr_to_int(value, to, "")
}

/// `Builder::build_call`, and the result of the call where it has one
/// (`CallSiteValue::try_as_basic_value`). LLVM expects the arguments to
/// have the types of the function's parameters: `params` are the types
/// that the function was declared with, `kinds` those of `args`.
#[verifier::external_body]
fn build_call<'ctx>(
    builder: &Builder<'ctx>,
    function: FunctionValue<'ctx>,
    params: &Vec<ParamTy>,
    args: &Vec<BasicMetadataValueEnum<'ctx>>,
    kinds: &Vec<ParamTy>,
) -> Option<BasicValueEnum<'ctx>>
    requires
        params@ == kinds@,
        args@.len() == kinds@.len(),
{
    builder.build_call(function, args.as_slice(), "").try_as_basic_value().left()
}

/// `Builder::build_conditional_branch`. LLVM expects a condition of one
/// bit: `cond_bits` is the width of `cond`.
#[verifier::external_body]
fn build_conditional_branch<'ctx>(
    builder: &Builder<'ctx>,
    cond: IntValue<'ctx>,
    cond_bits: u32,
    then_block: BasicBlock<'ctx>,
    else_block: BasicBlock<'ctx>,
)
    requires
        cond_bits == 1,
{
    builder.build_conditional_branch(cond, then_block, else_block);
}

/// `Builder::build_unconditional_branch`.
#[verifier::external_body]
fn build_unconditional_branch<'ctx>(builder: &Builder<'ctx>, to: BasicBlock<'ctx>) {
    builder.build_unconditional_branch(to);
}

/// `Builder::build_unreachable`.
#[verifier::external_body]
fn build_unreachable<'ctx>(builder: &Builder<'ctx>) {
    builder.build_unreachable();
}

/// `Builder::build_return`, of nothing.
#[verifier::external_body]
fn build_return<'ctx>(builder: &Builder<'ctx>) {
    builder.build_return(None);
}

/// `Module::verify`: whether LLVM's verifier accepts the module.
#[verifier::external_body]
fn verify<'ctx>(module: &Module<'ctx>) -> bool {
    module.verify().is_ok()
}

/// `Module::print_to_string`, as a string of Rust (`LLVMString::to_string`).
#[verifier::external_body]
fn print_to_string<'ctx>(module: &Module<'ctx>) -> String {
    module.print_to_string().to_string()
}

/// A symbol made of a prefix and a number, by `format!`.
#[verifier::external_body]
fn symbol(prefix: &str, index: usize) -> String {
    format!("{}{}", prefix, index)
}

/// A value in the function being rendered.
#[derive(Clone, Copy)]
enum Value<'ctx> {
    Pointer(PointerValue<'ctx>),
    /// An integer and its width in bits, as the renderer built it.
    Int(IntValue<'ctx>, u32),
}

/// What the renderer knows of a value: that it is a pointer, or an integer
/// of so many bits.
#[derive(Clone, Copy)]
enum Shape {
    Pointer,
    Int(u32),
}

/// A block that control reaches when it comes to instruction `at`.
struct Join<'ctx> {
    at: usize,
    block: BasicBlock<'ctx>,
}

/// A function body of the contract, by handle.
struct Body<'ctx> {
    handle: usize,
    function: FunctionValue<'ctx>,
}

/// The types that the rendering uses over and over.
#[derive(Clone, Copy)]
struct Types<'ctx> {
    /// `i8`
    byte: IntType<'ctx>,
    /// `i32`
    word: IntType<'ctx>,
    /// `i8*`
    byte_ptr: PointerType<'ctx>,
    void: VoidType<'ctx>,
}

/// The module and the function being rendered.
struct Emitter<'ctx> {
    context: &'ctx Context,
    types: Types<'ctx>,
    module: Module<'ctx>,
    builder: Builder<'ctx>,
    function: FunctionValue<'ctx>,
    /// Register contents.
    values: Vec<Option<Value<'ctx>>>,
    /// Module-level data, by index: pointers to arrays of bytes.
    data: Vec<PointerValue<'ctx>>,
    /// Declared host primitives, by the primitive's index.
    hosts: Vec<Option<FunctionValue<'ctx>>>,
    /// Runtime helpers, by the helper's index.
    helpers: Vec<FunctionValue<'ctx>>,
    /// The codec's entry points: length, encode, encode to vector, decode.
    codec: Vec<FunctionValue<'ctx>>,
    /// Function bodies referred to so far.
    bodies: Vec<Body<'ctx>>,
    /// Blocks that are still to be reached.
    joins: Vec<Join<'ctx>>,
    /// The current block ends in a terminator.
    terminated: bool,
}

/// What a declared function returns.
#[derive(Clone, Copy)]
enum Returns {
    Nothing,
    Word,
    Pointer,
}

/// The shape of a value.
spec fn shape_of<'ctx>(v: Value<'ctx>) -> Shape {
    match v {
        Value::Pointer(_) => Shape::Pointer,
        Value::Int(_, bits) => Shape::Int(bits),
    }
}

/// The width in bits of a value of this shape, taken as an integer: a
/// pointer has 32 bits.
spec fn width(shape: Shape) -> u32 {
    match shape {
        Shape::Pointer => 32,
        Shape::Int(bits) => bits,
    }
}

/// Whether a value of this shape can be the argument for a parameter of
/// this type: anything can become a pointer, an integer parameter takes
/// its own width.
spec fn accepted(shape: Shape, ty: ParamTy) -> bool {
    match ty {
        ParamTy::BytePtr => true,
        ParamTy::U32 => width(shape) == 32,
        ParamTy::U8 => width(shape) == 8,
    }
}

/// The registers `values` with register `r` bound to `v`: the list grows
/// by unbound registers where it is too short.
spec fn put<'ctx>(values: Seq<Option<Value<'ctx>>>, r: usize, v: Value<'ctx>) -> Seq<
    Option<Value<'ctx>>,
> {
    if r < values.len() {
        values.update(r as int, Some(v))
    } else {
        values + Seq::new((r - values.len()) as nat, |i: int| None::<Value<'ctx>>) + seq![Some(v)]
    }
}

/// The blocks of `joins` that control does not reach at instruction `pc`,
/// latest first.
spec fn pending<'ctx>(joins: Seq<Join<'ctx>>, pc: usize) -> Seq<Join<'ctx>>
    decreases joins.len(),
{
    if joins.len() == 0 {
        Seq::empty()
    } else if joins.last().at == pc {
        pending(joins.drop_last(), pc)
    } else {
        seq![joins.last()] + pending(joins.drop_last(), pc)
    }
}

/// The index of the first body from index `k` on that has this handle.
spec fn first_body<'ctx>(bodies: Seq<Body<'ctx>>, handle: usize, k: nat) -> Option<int>
    decreases bodies.len() - k,
{
    if k >= bodies.len() {
        None
    } else if bodies[k as int].handle == handle {
        Some(k as int)
    } else {
        first_body(bodies, handle, k + 1)
    }
}

/// What a callee returns.
spec fn returns_of(callee: Callee) -> Returns {
    match callee {
        Callee::Host(p) => if p.returns_word() {
            Returns::Word
        } else {
            Returns::Nothing
        },
        Callee::Runtime(h) => if h.returns_pointer() {
            Returns::Pointer
        } else {
            Returns::Nothing
        },
    }
}

/// The LLVM types of a parameter list: one for each parameter.
fn parameter_types<'ctx>(types: Types<'ctx>, params: &Vec<ParamTy>) -> (out: Vec<
    BasicMetadataTypeEnum<'ctx>,
>)
    ensures
        out@.len() == params@.len(),
{
    let mut out: Vec<BasicMetadataTypeEnum<'ctx>> = Vec::new();
    let mut i: usize = 0;
    while i < params.len()
        invariant
            i <= params@.len(),
            out@.len() == i,
        decreases params@.len() - i,
    {
        let ty = match params[i] {
            ParamTy::BytePtr => pointer_parameter(types.byte_ptr),
            ParamTy::U32 => int_parameter(types.word),
            ParamTy::U8 => int_parameter(types.byte),
        };
        out.push(ty);
        i += 1;
    }
    out
}

/// Declares a function with the given parameters and result.
fn declare<'ctx>(
    types: Types<'ctx>,
    module: &Module<'ctx>,
    name: &str,
    params: &Vec<ParamTy>,
    ret: Returns,
) -> FunctionValue<'ctx> {
    let list = parameter_types(types, params);
    let ty = match ret {
        Returns::Nothing => void_fn_type(types.void, &list),
        Returns::Word => int_fn_type(types.word, &list),
        Returns::Pointer => pointer_fn_type(types.byte_ptr, &list),
    };
    add_function(module, name, ty)
}

impl<'ctx> Emitter<'ctx> {
    /// The well-formedness that the rendering keeps: the tables have an
    /// entry for every primitive, helper and codec entry point.
    spec fn wf(&self) -> bool {
        &&& self.hosts@.len() == 38
        &&& self.helpers@.len() == 6
        &&& self.codec@.len() == 4
    }

    /// Whether the operand has a value here, and of what shape: a register
    /// has the value it is bound to, a constant of 1 to 256 bits is an
    /// integer of that width, the null pointer and the address of a datum
    /// of the module are pointers.
    spec fn holds(&self, op: Operand) -> Option<Shape> {
        match op {
            Operand::Reg(r) => if r < self.values@.len() {
                match self.values@[r as int] {
                    Some(v) => Some(shape_of(v)),
                    None => None,
                }
            } else {
                None
            },
            Operand::Const { bits, value } => if 1 <= bits <= 256 {
                Some(Shape::Int(bits))
            } else {
                None
            },
            Operand::Null => Some(Shape::Pointer),
            Operand::Global(g) => if g < self.data@.len() {
                Some(Shape::Pointer)
            } else {
                None
            },
        }
    }

    /// Whether the operand has a value here that the parameter accepts.
    spec fn fits(&self, op: Operand, ty: ParamTy) -> bool {
        self.holds(op) matches Some(shape) && accepted(shape, ty)
    }

    /// Whether the operands are as many as the parameters, and each has a
    /// value here that its parameter accepts.
    spec fn defined(&self, ops: Seq<Operand>, params: Seq<ParamTy>) -> bool {
        &&& ops.len() == params.len()
        &&& forall|i: int| 0 <= i < ops.len() ==> #[trigger] self.fits(ops[i], params[i])
    }

    /// Whether both operands have values here, of one width.
    spec fn agree(&self, lhs: Operand, rhs: Operand) -> bool {
        self.holds(lhs) matches Some(x) && self.holds(rhs) matches Some(y) && width(x) == width(y)
    }

    /// Whether the module being rendered declares the callee. The runtime
    /// helpers are always declared.
    spec fn declared(&self, callee: Callee) -> bool {
        callee matches Callee::Host(p) ==> self.hosts@[p.index_of() as int] is Some
    }

    /// `after` is this emitter with register `r` bound to a value of this
    /// shape, and nothing else changed.
    spec fn binds(&self, after: Emitter<'ctx>, r: usize, shape: Shape) -> bool {
        &&& after == (Emitter { values: after.values, ..*self })
        &&& r < after.values@.len()
        &&& after.values@[r as int] matches Some(v) && shape_of(v) == shape && after.values@
            == put(self.values@, r, v)
    }

    /// The rendering failed on the side of LLVM and left this emitter as
    /// it was.
    spec fn failed(&self, after: Emitter<'ctx>, out: Result<(), RenderError>) -> bool {
        out == Err::<(), RenderError>(RenderError::Backend) && after == *self
    }

    /// What a call comes to. A call whose result is dropped succeeds and
    /// binds nothing. A call whose result goes to register `r` binds `r` to
    /// a value of the kind that the callee returns where LLVM hands one
    /// back, and fails where it does not; it fails on a callee that
    /// returns nothing.
    spec fn called(
        &self,
        after: Emitter<'ctx>,
        out: Result<(), RenderError>,
        result: Option<usize>,
        ret: Returns,
    ) -> bool {
        match result {
            None => out is Ok && after == *self,
            Some(r) => if out is Ok {
                match ret {
                    Returns::Nothing => false,
                    Returns::Word => self.binds(after, r, Shape::Int(32)),
                    Returns::Pointer => self.binds(after, r, Shape::Pointer),
                }
            } else {
                self.failed(after, out)
            },
        }
    }

    /// `after` is this emitter with the body of this handle among its
    /// bodies: unchanged where it was there, with one more body where it
    /// was not.
    spec fn refers(&self, after: Emitter<'ctx>, handle: usize) -> bool {
        match first_body(self.bodies@, handle, 0) {
            Some(_) => after == *self,
            None => {
                &&& after == (Emitter { bodies: after.bodies, ..*self })
                &&& after.bodies@.len() == self.bodies@.len() + 1
                &&& after.bodies@.drop_last() == self.bodies@
                &&& after.bodies@.last().handle == handle
            },
        }
    }

    /// What the rendering of an instruction of the codec comes to: a call
    /// of the codec's entry point, which needs the operands of the
    /// instruction to have values, the length a 32-bit one.
    spec fn codec_rendered(
        &self,
        after: Emitter<'ctx>,
        instr: Instr,
        out: Result<(), RenderError>,
    ) -> bool {
        match instr {
            Instr::EncodedLength { dst, job } => self.called(after, out, Some(dst), Returns::Word),
            Instr::Encode { dest, job } => if self.holds(dest).is_some() {
                out is Ok && after == *self
            } else {
                self.failed(after, out)
            },
            Instr::EncodeVector { dst, job } => self.called(
                after,
                out,
                Some(dst),
                Returns::Pointer,
            ),
            Instr::Decode { first, data, len, job } => if self.holds(data).is_some() && self.fits(
                len,
                ParamTy::U32,
            ) {
                out is Ok && after == *self
            } else {
                self.failed(after, out)
            },
            _ => out is Ok && after == *self,
        }
    }

    /// What the rendering of the instruction at index `pc` comes to: which
    /// register it binds and to what kind of value, on which operands it
    /// fails, and what it leaves for the instructions behind it.
    spec fn rendered(
        &self,
        after: Emitter<'ctx>,
        instr: Instr,
        pc: usize,
        out: Result<(), RenderError>,
    ) -> bool {
        match instr {
            Instr::Alloca { dst, bytes } => out is Ok && self.binds(after, dst, Shape::Pointer),
            Instr::Load { dst, ptr, bytes } => if out is Ok {
                1 <= bytes <= 32 && self.holds(ptr).is_some() && self.binds(
                    after,
                    dst,
                    Shape::Int((8 * bytes) as u32),
                )
            } else {
                self.failed(after, out)
            },
            Instr::Store { ptr, value } => if self.holds(ptr).is_some() && (self.holds(value)
                matches Some(shape) && 1 <= width(shape) <= 256) {
                out is Ok && after == *self
            } else {
                self.failed(after, out)
            },
            Instr::Offset { dst, base, delta } => if self.agree(base, delta) {
                out is Ok && self.binds(after, dst, Shape::Pointer)
            } else {
                self.failed(after, out)
            },
            Instr::Arith { dst, op, lhs, rhs } => if self.agree(lhs, rhs) {
                out is Ok && self.binds(after, dst, Shape::Int(width(self.holds(lhs).unwrap())))
            } else {
                self.failed(after, out)
            },
            Instr::Compare { dst, pred, lhs, rhs } => if self.agree(lhs, rhs) {
                out is Ok && self.binds(after, dst, Shape::Int(1))
            } else {
                self.failed(after, out)
            },
            Instr::Call { result, callee, args } => self.call_rendered(
                after,
                out,
                result,
                callee,
                args,
            ),
            Instr::Invoke { function, first, count } => out is Ok && self.refers(after, function),
            Instr::SkipIf { cond, count } => if self.holds(cond) == Some(Shape::Int(1)) && pc + 1
                + count <= usize::MAX {
                &&& out is Ok
                &&& after == (Emitter { joins: after.joins, ..*self })
                &&& after.joins@.len() == self.joins@.len() + 1
                &&& after.joins@.drop_last() == self.joins@
                &&& after.joins@.last().at == pc + 1 + count
            } else {
                self.failed(after, out)
            },
            Instr::Unreachable => out is Ok && after == (Emitter { terminated: true, ..*self }),
            _ => self.codec_rendered(after, instr, out),
        }
    }

    /// What the rendering of a call instruction comes to: it fails where
    /// the callee is not declared, where the arguments are not as many as
    /// the callee's parameters, and where an argument has no value that its
    /// parameter accepts; else it is a call.
    spec fn call_rendered(
        &self,
        after: Emitter<'ctx>,
        out: Result<(), RenderError>,
        result: Option<usize>,
        callee: Callee,
        args: Args,
    ) -> bool {
        if self.declared(callee) && self.defined(args.list(), callee_params(callee)) {
            self.called(after, out, result, returns_of(callee))
        } else {
            self.failed(after, out)
        }
    }

    /// Binds register `r`.
    fn bind(&mut self, r: usize, value: Value<'ctx>)
        requires
            old(self).wf(),
        ensures
            final(self).wf(),
            old(self).binds(*final(self), r, shape_of(value)),
            final(self).values@[r as int] == Some(value),
    {
        while self.values.len() <= r
            invariant
                self.wf(),
                *self == (Emitter { values: self.values, ..*old(self) }),
                old(self).values@.len() <= r ==> self.values@ =~= old(self).values@ + Seq::new(
                    (self.values@.len() - old(self).values@.len()) as nat,
                    |i: int| None::<Value<'ctx>>,
                ) && self.values@.len() <= r + 1,
                old(self).values@.len() > r ==> self.values@ == old(self).values@,
            decreases r + 1 - self.values@.len(),
        {
            self.values.push(None);
        }
        self.values.set(r, Some(value));
        assert(self.values@ =~= put(old(self).values@, r, value));
    }

    /// The value of an operand, where it has one.
    fn value_of(&self, op: Operand) -> (out: Option<Value<'ctx>>)
        ensures
            match self.holds(op) {
                Some(shape) => out matches Some(v) && shape_of(v) == shape,
                None => out is None,
            },
            match op {
                Operand::Reg(r) => r < self.values@.len() ==> out == self.values@[r as int],
                _ => true,
            },
    {
        match op {
            Operand::Reg(r) => {
                if r < self.values.len() {
                    self.values[r]
                } else {
                    None
                }
            },
            Operand::Const { bits, value } => {
                if 1 <= bits && bits <= 256 {
                    Some(Value::Int(const_int(int_type(self.context, bits), value), bits))
                } else {
                    None
                }
            },
            Operand::Null => Some(Value::Pointer(const_null(self.types.byte_ptr))),
            Operand::Global(g) => {
                if g < self.data.len() {
                    let p = build_pointer_cast(&self.builder, self.data[g], self.types.byte_ptr);
                    Some(Value::Pointer(p))
                } else {
                    None
                }
            },
        }
    }

    /// The operand as a byte pointer, where it has a value: a pointer as
    /// it is, an integer converted.
    fn pointer_of(&self, op: Operand) -> (out: Option<PointerValue<'ctx>>)
        ensures
            out.is_some() == self.holds(op).is_some(),
            match op {
                Operand::Reg(r) => r < self.values@.len() ==> match self.values@[r as int] {
                    Some(Value::Pointer(p)) => out == Some(p),
                    _ => true,
                },
                _ => true,
            },
    {
        match self.value_of(op) {
            Some(Value::Pointer(p)) => Some(p),
            Some(Value::Int(i, _)) => Some(build_int_to_ptr(&self.builder, i, self.types.byte_ptr)),
            None => None,
        }
    }

    /// The operand as an integer with its width, where it has a value: an
    /// integer as it is, a pointer converted to a 32-bit integer.
    fn int_of(&self, op: Operand) -> (out: Option<(IntValue<'ctx>, u32)>)
        ensures
            match self.holds(op) {
                Some(shape) => out matches Some((_, bits)) && bits == width(shape),
                None => out is None,
            },
            match op {
                Operand::Reg(r) => r < self.values@.len() ==> match self.values@[r as int] {
                    Some(Value::Int(i, bits)) => out == Some((i, bits)),
                    _ => true,
                },
                _ => true,
            },
    {
        match self.value_of(op) {
            Some(Value::Int(i, bits)) => Some((i, bits)),
            Some(Value::Pointer(p)) => Some(
                (build_ptr_to_int(&self.builder, p, self.types.word), 32),
            ),
            None => None,
        }
    }

    /// A constant of 32 bits.
    fn word(&self, value: usize) -> IntValue<'ctx> {
        const_int(self.types.word, value as u64)
    }

    /// The operands as the arguments of a callee with these parameters:
    /// one argument for each operand, and beside them the types of the
    /// arguments, which are those of the parameters. There are arguments
    /// where there are as many operands as parameters and every operand has
    /// a value that its parameter accepts.
    fn arguments(&self, args: &Vec<Operand>, params: &Vec<ParamTy>) -> (out: Option<
        (Vec<BasicMetadataValueEnum<'ctx>>, Vec<ParamTy>),
    >)
        ensures
            out.is_some() == self.defined(args@, params@),
            out matches Some((list, kinds)) ==> list@.len() == args@.len() && kinds@ == params@,
    {
        if args.len() != params.len() {
            return None;
        }
        let mut out: Vec<BasicMetadataValueEnum<'ctx>> = Vec::new();
        let mut kinds: Vec<ParamTy> = Vec::new();
        let mut i: usize = 0;
        while i < args.len()
            invariant
                i <= args@.len(),
                args@.len() == params@.len(),
                out@.len() == i,
                kinds@ =~= params@.subrange(0, i as int),
                forall|j: int| 0 <= j < i ==> #[trigger] self.fits(args@[j], params@[j]),
            decreases args@.len() - i,
        {
            let arg = match params[i] {
                ParamTy::BytePtr => match self.pointer_of(args[i]) {
                    Some(p) => pointer_argument(p),
                    None => {
                        assert(!self.fits(args@[i as int], params@[i as int]));
                        return None;
                    },
                },
                ParamTy::U32 => match self.int_of(args[i]) {
                    Some((v, 32)) => int_argument(v),
                    _ => {
                        assert(!self.fits(args@[i as int], params@[i as int]));
                        return None;
                    },
                },
                ParamTy::U8 => match self.int_of(args[i]) {
                    Some((v, 8)) => int_argument(v),
                    _ => {
                        assert(!self.fits(args@[i as int], params@[i as int]));
                        return None;
                    },
                },
            };
            out.push(arg);
            kinds.push(params[i]);
            i += 1;
        }
        assert(params@.subrange(0, params@.len() as int) =~= params@);
        Some((out, kinds))
    }

    /// Goes on in the blocks that control reaches at instruction `pc`, and
    /// in a block of its own behind a terminator. The blocks that control
    /// reaches later stay, and the current block is open.
    fn arrive(&mut self, pc: usize)
        requires
            old(self).wf(),
        ensures
            final(self).wf(),
            *final(self) == (Emitter { joins: final(self).joins, terminated: false, ..*old(self) }),
            final(self).joins@ == pending(old(self).joins@, pc),
    {
        let mut rest: Vec<Join<'ctx>> = Vec::new();
        while self.joins.len() > 0
            invariant
                self.wf(),
                *self == (Emitter {
                    joins: self.joins,
                    terminated: self.terminated,
                    ..*old(self)
                }),
                rest@ + pending(self.joins@, pc) =~= pending(old(self).joins@, pc),
            decreases self.joins@.len(),
        {
            let ghost before = self.joins@;
            match self.joins.pop() {
                Some(join) => {
                    assert(self.joins@ =~= before.drop_last());
                    assert(join == before.last());
                    if join.at == pc {
                        if !self.terminated {
                            build_unconditional_branch(&self.builder, join.block);
                        }
                        position_at_end(&self.builder, join.block);
                        self.terminated = false;
                    } else {
                        let ghost kept = rest@;
                        rest.push(join);
                        assert(rest@ + pending(self.joins@, pc) =~= kept + (seq![join] + pending(
                            self.joins@,
                            pc,
                        )));
                    }
                },
                None => {},
            }
        }
        assert(rest@ + pending(self.joins@, pc) =~= rest@);
        self.joins = rest;
        if self.terminated {
            let block = append_basic_block(self.context, self.function, "behind");
            position_at_end(&self.builder, block);
            self.terminated = false;
        }
    }

    /// The function body with this handle: the one that the emitter holds
    /// for it, or one declared now and held from now on.
    fn body(&mut self, handle: usize) -> (out: FunctionValue<'ctx>)
        requires
            old(self).wf(),
        ensures
            final(self).wf(),
            old(self).refers(*final(self), handle),
            match first_body(old(self).bodies@, handle, 0) {
                Some(i) => out == old(self).bodies@[i].function,
                None => out == final(self).bodies@.last().function,
            },
    {
        let mut i: usize = 0;
        while i < self.bodies.len()
            invariant
                i <= self.bodies@.len(),
                self.wf(),
                *self == *old(self),
                first_body(self.bodies@, handle, 0) == first_body(self.bodies@, handle, i as nat),
            decreases self.bodies@.len() - i,
        {
            if self.bodies[i].handle == handle {
                return self.bodies[i].function;
            }
            i += 1;
        }
        let name = symbol("function_", handle);
        let function = declare(
            self.types,
            &self.module,
            name.as_str(),
            &Vec::new(),
            Returns::Nothing,
        );
        self.bodies.push(Body { handle, function });
        assert(self.bodies@.drop_last() =~= old(self).bodies@);
        function
    }

    /// A call of a function that was declared with the parameters `params`,
    /// with the arguments `list` of the types `kinds`. The result, if the
    /// call has one, goes to register `result`.
    fn emit_call(
        &mut self,
        result: Option<usize>,
        function: FunctionValue<'ctx>,
        params: &Vec<ParamTy>,
        list: &Vec<BasicMetadataValueEnum<'ctx>>,
        kinds: &Vec<ParamTy>,
        ret: Returns,
    ) -> (out: Result<(), RenderError>)
        requires
            old(self).wf(),
            params@ == kinds@,
            list@.len() == kinds@.len(),
        ensures
            final(self).wf(),
            old(self).called(*final(self), out, result, ret),
    {
        let value = build_call(&self.builder, function, params, list, kinds);
        match result {
            None => Ok(()),
            Some(r) => {
                let bound = match (ret, value) {
                    (Returns::Word, Some(v)) => match as_int(v) {
                        Some(i) => Value::Int(i, 32),
                        None => {
                            return Err(RenderError::Backend);
                        },
                    },
                    (Returns::Pointer, Some(v)) => match as_pointer(v) {
                        Some(p) => Value::Pointer(p),
                        None => {
                            return Err(RenderError::Backend);
                        },
                    },
                    _ => {
                        return Err(RenderError::Backend);
                    },
                };
                self.bind(r, bound);
                Ok(())
            },
        }
    }

    /// Renders a call of a host primitive or a runtime helper.
    fn call(&mut self, result: Option<usize>, callee: Callee, args: Args) -> (out: Result<
        (),
        RenderError,
    >)
        requires
            old(self).wf(),
        ensures
            final(self).wf(),
            old(self).call_rendered(*final(self), out, result, callee, args),
    {
        let (function, params, ret): (FunctionValue<'ctx>, Vec<ParamTy>, Returns) = match callee {
            Callee::Host(p) => match self.hosts[p.index()] {
                Some(f) => (
                    f,
                    p.params(),
                    match p.ret() {
                        RetTy::U32 => Returns::Word,
                        RetTy::Void => Returns::Nothing,
                    },
                ),
                None => {
                    return Err(RenderError::Backend);
                },
            },
            Callee::Runtime(h) => (
                self.helpers[h.index()],
                h.params(),
                match h {
                    Helper::Malloc => Returns::Pointer,
                    _ => Returns::Nothing,
                },
            ),
        };
        match self.arguments(&args.to_vec(), &params) {
            Some((list, kinds)) => self.emit_call(result, function, &params, &list, &kinds, ret),
            None => Err(RenderError::Backend),
        }
    }

    /// Renders an instruction that stands for the codec as a call of the
    /// codec's entry point, with the index of the job as first argument.
    fn codec_call(&mut self, instr: &Instr) -> (out: Result<(), RenderError>)
        requires
            old(self).wf(),
        ensures
            final(self).wf(),
            old(self).codec_rendered(*final(self), *instr, out),
    {
        match instr {
            Instr::EncodedLength { dst, job } => {
                let list = vec![int_argument(self.word(*job))];
                let kinds = vec![ParamTy::U32];
                self.emit_call(Some(*dst), self.codec[0], &kinds, &list, &kinds, Returns::Word)
            },
            Instr::Encode { dest, job } => match self.pointer_of(*dest) {
                Some(p) => {
                    let list = vec![int_argument(self.word(*job)), pointer_argument(p)];
                    let kinds = vec![ParamTy::U32, ParamTy::BytePtr];
                    self.emit_call(None, self.codec[1], &kinds, &list, &kinds, Returns::Nothing)
                },
                None => Err(RenderError::Backend),
            },
            Instr::EncodeVector { dst, job } => {
                let list = vec![int_argument(self.word(*job))];
                let kinds = vec![ParamTy::U32];
                self.emit_call(Some(*dst), self.codec[2], &kinds, &list, &kinds, Returns::Pointer)
            },
            Instr::Decode { first, data, len, job } => {
                match (self.pointer_of(*data), self.int_of(*len)) {
                    (Some(p), Some((n, 32))) => {
                        let list = vec![
                            int_argument(self.word(*job)),
                            pointer_argument(p),
                            int_argument(n),
                        ];
                        let kinds = vec![ParamTy::U32, ParamTy::BytePtr, ParamTy::U32];
                        self.emit_call(None, self.codec[3], &kinds, &list, &kinds, Returns::Nothing)
                    },
                    _ => Err(RenderError::Backend),
                }
            },
            _ => Ok(()),
        }
    }

    /// Renders the instruction at index `pc`.
    fn instruction(&mut self, instr: &Instr, pc: usize) -> (out: Result<(), RenderError>)
        requires
            old(self).wf(),
        ensures
            final(self).wf(),
            old(self).rendered(*final(self), *instr, pc, out),
    {
        match instr {
            Instr::Alloca { dst, bytes } => {
                // a scratch word is one integer, which gives it the
                // integer's alignment; a longer buffer is an array of bytes
                let p = if 1 <= *bytes && *bytes <= 32 {
                    let scratch = build_alloca(&self.builder, int_type(self.context, 8 * *bytes));
                    build_pointer_cast(&self.builder, scratch, self.types.byte_ptr)
                } else {
                    let size = const_int(self.types.word, *bytes as u64);
                    build_array_alloca(&self.builder, self.types.byte, size)
                };
                self.bind(*dst, Value::Pointer(p));
                Ok(())
            },
            Instr::Load { dst, ptr, bytes } => {
                if *bytes < 1 || *bytes > 32 {
                    return Err(RenderError::Backend);
                }
                match self.pointer_of(*ptr) {
                    Some(p) => {
                        let to = ptr_type(int_type(self.context, 8 * *bytes));
                        let typed = build_pointer_cast(&self.builder, p, to);
                        match as_int(build_load(&self.builder, typed)) {
                            Some(v) => {
                                self.bind(*dst, Value::Int(v, 8 * *bytes));
                                Ok(())
                            },
                            None => Err(RenderError::Backend),
                        }
                    },
                    None => Err(RenderError::Backend),
                }
            },
            Instr::Store { ptr, value } => match (self.pointer_of(*ptr), self.int_of(*value)) {
                (Some(p), Some((v, bits))) => {
                    if bits < 1 || bits > 256 {
                        return Err(RenderError::Backend);
                    }
                    let to = ptr_type(int_type(self.context, bits));
                    let typed = build_pointer_cast(&self.builder, p, to);
                    build_store(&self.builder, typed, bits, v, bits);
                    Ok(())
                },
                _ => Err(RenderError::Backend),
            },
            Instr::Offset { dst, base, delta } => {
                match (self.int_of(*base), self.int_of(*delta)) {
                    (Some((b, b_bits)), Some((d, d_bits))) => {
                        if b_bits != d_bits {
                            return Err(RenderError::Backend);
                        }
                        let sum = build_int_add(&self.builder, b, b_bits, d, d_bits);
                        let p = build_int_to_ptr(&self.builder, sum, self.types.byte_ptr);
                        self.bind(*dst, Value::Pointer(p));
                        Ok(())
                    },
                    _ => Err(RenderError::Backend),
                }
            },
            Instr::Arith { dst, op, lhs, rhs } => match (self.int_of(*lhs), self.int_of(*rhs)) {
                (Some((a, a_bits)), Some((b, b_bits))) => {
                    if a_bits != b_bits {
                        return Err(RenderError::Backend);
                    }
                    let v = match op {
                        ArithOp::Add => build_int_add(&self.builder, a, a_bits, b, b_bits),
                        ArithOp::Sub => build_int_sub(&self.builder, a, a_bits, b, b_bits),
                    };
                    self.bind(*dst, Value::Int(v, a_bits));
                    Ok(())
                },
                _ => Err(RenderError::Backend),
            },
            Instr::Compare { dst, pred, lhs, rhs } => {
                match (self.int_of(*lhs), self.int_of(*rhs)) {
                    (Some((a, a_bits)), Some((b, b_bits))) => {
                        if a_bits != b_bits {
                            return Err(RenderError::Backend);
                        }
                        let op = match pred {
                            Predicate::Eq => predicate_eq(),
                            Predicate::Ne => predicate_ne(),
                            Predicate::Uge => predicate_uge(),
                        };
                        let v = build_int_compare(&self.builder, op, a, a_bits, b, b_bits);
                        self.bind(*dst, Value::Int(v, 1));
                        Ok(())
                    },
                    _ => Err(RenderError::Backend),
                }
            },
            Instr::Call { result, callee, args } => self.call(*result, *callee, *args),
            Instr::Invoke { function, first, count } => {
                let body = self.body(*function);
                // a body is declared without parameters
                let none: Vec<ParamTy> = Vec::new();
                self.emit_call(None, body, &none, &Vec::new(), &none, Returns::Nothing)
            },
            Instr::SkipIf { cond, count } => match self.value_of(*cond) {
                Some(Value::Int(c, bits)) => {
                    if bits != 1 || pc == usize::MAX || *count >= usize::MAX - pc {
                        return Err(RenderError::Backend);
                    }
                    let guarded = append_basic_block(self.context, self.function, "guarded");
                    let after = append_basic_block(self.context, self.function, "after");
                    build_conditional_branch(&self.builder, c, bits, after, guarded);
                    position_at_end(&self.builder, guarded);
                    self.joins.push(Join { at: pc + 1 + *count, block: after });
                    assert(self.joins@.drop_last() =~= old(self).joins@);
                    Ok(())
                },
                _ => Err(RenderError::Backend),
            },
            Instr::Unreachable => {
                build_unreachable(&self.builder);
                self.terminated = true;
                Ok(())
            },
            _ => self.codec_call(instr),
        }
    }
}

/// The runtime helpers, in the order of their indices.
fn all_helpers() -> (out: Vec<Helper>)
    ensures
        out@.len() == 6,
        forall|i: int| 0 <= i < 6 ==> (#[trigger] out@[i]).index_of() == i,
{
    vec![
        Helper::InitHeap,
        Helper::Malloc,
        Helper::Memcpy,
        Helper::Bzero8,
        Helper::Be32ToLeN,
        Helper::BeNToLeN,
    ]
}

/// Whether every datum of the module is short enough for LLVM, which
/// counts the elements of an array in 32 bits.
pub open spec fn data_fit(binary: Binary) -> bool {
    forall|g: int| 0 <= g < binary.globals@.len() ==> (#[trigger] binary.globals@[g])@.len()
        <= u32::MAX
}

/// Renders `binary` as an LLVM module in `context`, with the code as the
/// body of the routine of `LachainTarget::entry_routine`. The code has to
/// pass the check of `typecheck` with no register bound on entry; where it
/// does not, the answer is the fault that the check found. A module with a
/// datum that is too long for LLVM is not rendered.
pub fn render<'ctx>(context: &'ctx Context, binary: &Binary) -> (out: Result<Rendered, RenderError>)
    ensures
        match code_kinds(*binary, 0, Seq::empty()) {
            Err(e) => out == Err::<Rendered, RenderError>(RenderError::Type(e)),
            Ok(_) => out is Ok || out == Err::<Rendered, RenderError>(RenderError::Backend),
        },
        code_kinds(*binary, 0, Seq::empty()) is Ok && !data_fit(*binary) ==> out == Err::<
            Rendered,
            RenderError,
        >(RenderError::Backend),
{
    match binary.typecheck(&Vec::new()) {
        Err(e) => {
            return Err(RenderError::Type(e));
        },
        Ok(_) => {},
    }
    let byte = int_type(context, 8);
    let types = Types {
        byte,
        word: int_type(context, 32),
        byte_ptr: ptr_type(byte),
        void: void_type(context),
    };
    let module = create_module(context, binary.name.as_str());
    set_source_file_name(&module, binary.filename.as_str());
    // host primitives
    let mut hosts: Vec<Option<FunctionValue<'ctx>>> = Vec::new();
    while hosts.len() < 38
        invariant
            hosts@.len() <= 38,
        decreases 38 - hosts@.len(),
    {
        hosts.push(None);
    }
    let mut i: usize = 0;
    while i < binary.externals.len()
        invariant
            i <= binary.externals@.len(),
            hosts@.len() == 38,
        decreases binary.externals@.len() - i,
    {
        let p = binary.externals[i];
        let ret = match p.ret() {
            RetTy::U32 => Returns::Word,
            RetTy::Void => Returns::Nothing,
        };
        let f = declare(types, &module, p.name(), &p.params(), ret);
        if p.noreturn() {
            add_attribute(f, noreturn_attribute(context));
        }
        hosts.set(p.index(), Some(f));
        i += 1;
    }
    // runtime helpers
    let list = all_helpers();
    let mut helpers: Vec<FunctionValue<'ctx>> = Vec::new();
    let mut j: usize = 0;
    while j < 6
        invariant
            j <= 6,
            list@.len() == 6,
            helpers@.len() == j,
        decreases 6 - j,
    {
        let h = list[j];
        let ret = match h {
            Helper::Malloc => Returns::Pointer,
            _ => Returns::Nothing,
        };
        helpers.push(declare(types, &module, h.name(), &h.params(), ret));
        j += 1;
    }
    // the codec
    let job = vec![ParamTy::U32];
    let job_dest = vec![ParamTy::U32, ParamTy::BytePtr];
    let job_data = vec![ParamTy::U32, ParamTy::BytePtr, ParamTy::U32];
    let codec = vec![
        declare(types, &module, "__abi_encoded_length", &job, Returns::Word),
        declare(types, &module, "__abi_encode", &job_dest, Returns::Nothing),
        declare(types, &module, "__abi_encode_to_vector", &job, Returns::Pointer),
        declare(types, &module, "__abi_decode", &job_data, Returns::Nothing),
    ];
    // module-level data
    let mut data: Vec<PointerValue<'ctx>> = Vec::new();
    let mut g: usize = 0;
    while g < binary.globals.len()
        invariant
            g <= binary.globals@.len(),
            code_kinds(*binary, 0, Seq::empty()) is Ok,
            forall|j: int| 0 <= j < g ==> (#[trigger] binary.globals@[j])@.len() <= u32::MAX,
        decreases binary.globals@.len() - g,
    {
        let bytes = &binary.globals[g];
        if bytes.len() > u32::MAX as usize {
            return Err(RenderError::Backend);
        }
        let name = symbol("data_", g);
        let size: u32 = bytes.len() as u32;
        let global = add_global(&module, array_type(types.byte, size), name.as_str());
        set_initializer(global, size, const_string(context, bytes), bytes.len());
        data.push(as_pointer_value(global));
        g += 1;
    }
    // the entry point
    let routine = LachainTarget::entry_routine();
    let function = declare(types, &module, routine.name, &routine.params, Returns::Nothing);
    let entry = append_basic_block(context, function, "entry");
    let builder = builder_at(context, entry);
    let mut emitter = Emitter {
        context,
        types,
        module,
        builder,
        function,
        values: Vec::new(),
        data,
        hosts,
        helpers,
        codec,
        bodies: Vec::new(),
        joins: Vec::new(),
        terminated: false,
    };
    let mut pc: usize = 0;
    while pc < binary.code.len()
        invariant
            pc <= binary.code@.len(),
            emitter.wf(),
            code_kinds(*binary, 0, Seq::empty()) is Ok,
            data_fit(*binary),
        decreases binary.code@.len() - pc,
    {
        emitter.arrive(pc);
        match emitter.instruction(&binary.code[pc], pc) {
            Ok(()) => {},
            Err(e) => {
                return Err(e);
            },
        }
        pc += 1;
    }
    emitter.arrive(pc);
    build_return(&emitter.builder);
    let valid = verify(&emitter.module);
    let text = print_to_string(&emitter.module);
    Ok(Rendered { text, valid })
}

} // verus!
