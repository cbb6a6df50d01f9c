use vstd::prelude::*;

verus! {

/// How many arguments a call can pass: one integer register each.
pub const MAX_CALL_ARGS: usize = 5;

/// A value that an operation reads.
#[derive(Clone, Copy, Debug, PartialEq, Eq)]
pub enum Arg {
    /// A local slot of the current frame, by index.
    AutoVar(usize),
    /// An immediate signed constant.
    Literal(i64),
    /// The address of a byte offset into the static data blob.
    DataOffset(usize),
}

/// One step of a function body.
#[derive(Clone, Debug)]
pub enum Op {
    AutoAssign { index: usize, arg: Arg },
    UnaryNot { result: usize, arg: Arg },
    Add { index: usize, lhs: Arg, rhs: Arg },
    Sub { index: usize, lhs: Arg, rhs: Arg },
    Mul { index: usize, lhs: Arg, rhs: Arg },
    Less { index: usize, lhs: Arg, rhs: Arg },
    Funcall { result: usize, name: String, args: Vec<Arg> },
    JmpIfNot { addr: usize, arg: Arg },
    Jmp { addr: usize },
}

/// A function: its name, how many local slots its frame holds, and its body.
#[derive(Clone, Debug)]
pub struct Func {
    pub name: String,
    pub auto_vars_count: usize,
    pub body: Vec<Op>,
}

/// A whole program: its functions, the outside symbols it refers to, and its static data.
#[derive(Clone, Debug)]
pub struct Program {
    pub funcs: Vec<Func>,
    pub extrns: Vec<String>,
    pub data: Vec<u8>,
}

/// Why code generation stopped.
#[derive(Clone, Debug, PartialEq, Eq)]
pub enum CodegenError {
    /// A call passes more arguments than there are argument registers.
    TooManyArguments { function: String, op_index: usize, provided: usize, supported: usize },
}

/// The operation fits the backend: a call passes at most `MAX_CALL_ARGS` arguments.
pub open spec fn op_supported(op: Op) -> bool {
    match op {
        Op::Funcall { args, .. } => args@.len() <= MAX_CALL_ARGS,
        _ => true,
    }
}

pub open spec fn body_supported(body: Seq<Op>) -> bool {
    forall|i: int| 0 <= i < body.len() ==> op_supported(#[trigger] body[i])
}

pub open spec fn funcs_supported(funcs: Seq<Func>) -> bool {
    forall|i: int| 0 <= i < funcs.len() ==> body_supported(#[trigger] funcs[i].body@)
}

/// The jump target of an operation, if it has one.
pub open spec fn jump_target(op: Op) -> Option<nat> {
    match op {
        Op::JmpIfNot { addr, .. } => Some(addr as nat),
        Op::Jmp { addr } => Some(addr as nat),
        _ => None,
    }
}

/// Every jump lands on an operation of the body or on the epilogue just past it.
pub open spec fn jumps_in_range(body: Seq<Op>) -> bool {
    forall|i: int|
        0 <= i < body.len() && (#[trigger] jump_target(body[i])) is Some ==> jump_target(
            body[i],
        )->0 <= body.len()
}

/// `e` reports the first unsupported call of `body`, in the function named `name`.
pub open spec fn reports_first_unsupported(e: CodegenError, name: Seq<char>, body: Seq<Op>) -> bool {
    match e {
        CodegenError::TooManyArguments { function, op_index, provided, supported } => {
            &&& function@ == name
            &&& op_index < body.len()
            &&& !op_supported(body[op_index as int])
            &&& body[op_index as int] matches Op::Funcall { args, .. } && provided == args@.len()
            &&& supported == MAX_CALL_ARGS
            &&& forall|j: int| 0 <= j < op_index ==> op_supported(#[trigger] body[j])
        },
    }
}

/// Finds the first call in `body` with more arguments than the backend can pass.
pub fn first_unsupported(body: &[Op]) -> (r: Option<usize>)
    ensures
        r is None <==> body_supported(body@),
        r matches Some(k) ==> k < body@.len() && !op_supported(body@[k as int]) && forall|j: int|
            0 <= j < k ==> op_supported(#[trigger] body@[j]),
{
    let mut i: usize = 0;
    while i < body.len()
        invariant
            i <= body@.len(),
            forall|j: int| 0 <= j < i ==> op_supported(#[trigger] body@[j]),
        decreases body@.len() - i,
    {
        match &body[i] {
            Op::Funcall { args, .. } => {
                if args.len() > MAX_CALL_ARGS {
                    return Some(i);
                }
            },
            _ => {},
        }
        i = i + 1;
    }
    None
}

} // verus!
