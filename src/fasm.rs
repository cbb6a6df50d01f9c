use crate::digits::{dec_int, dec_nat, hex_byte, push_dec, push_dec_i64, push_hex_byte};
use crate::ir::{
    body_supported, first_unsupported, funcs_supported, reports_first_unsupported, Arg,
    CodegenError, Func, Op, Program, MAX_CALL_ARGS,
};
use vstd::prelude::*;
use vstd::string::StringExecFns;

verus! {

// ---------------------------------------------------------------------------
// The text that each emitter appends
// ---------------------------------------------------------------------------

/// The instruction that puts the value of `arg` into register `reg`.
pub open spec fn load_text(arg: Arg, reg: Seq<char>) -> Seq<char> {
    match arg {
        Arg::AutoVar(i) => "    mov "@ + reg + ", [rbp-"@ + dec_nat(i as nat * 8) + "]\n"@,
        Arg::Literal(v) => "    mov "@ + reg + ", "@ + dec_int(v as int) + "\n"@,
        Arg::DataOffset(o) => "    mov "@ + reg + ", dat+"@ + dec_nat(o as nat) + "\n"@,
    }
}

/// The instruction that stores register `reg` into local slot `index`.
pub open spec fn store_text(index: nat, reg: Seq<char>) -> Seq<char> {
    "    mov [rbp-"@ + dec_nat(index * 8) + "], "@ + reg + "\n"@
}

/// The assembler name of the label of operation `i`.
pub open spec fn label_name(i: nat) -> Seq<char> {
    ".op_"@ + dec_nat(i)
}

/// The line that defines the label of operation `i`.
pub open spec fn label_text(i: nat) -> Seq<char> {
    label_name(i) + ":\n"@
}

/// The integer register that carries argument `k` of a call.
pub open spec fn arg_reg(k: int) -> Seq<char> {
    if k == 0 { "rdi"@ }
    else if k == 1 { "rsi"@ }
    else if k == 2 { "rdx"@ }
    else if k == 3 { "rcx"@ }
    else { "r8"@ }
}

/// The loads of a call's arguments into the argument registers, in order.
pub open spec fn args_text(args: Seq<Arg>) -> Seq<char>
    decreases args.len(),
{
    if args.len() == 0 {
        Seq::empty()
    } else {
        args_text(args.drop_last()) + load_text(args.last(), arg_reg(args.len() - 1))
    }
}

/// Loads of the two operands of a binary operation, left into rax, right into rbx.
pub open spec fn operands_text(lhs: Arg, rhs: Arg) -> Seq<char> {
    load_text(lhs, "rax"@) + load_text(rhs, "rbx"@)
}

/// The instructions of one operation, without its label.
pub open spec fn op_text(op: Op) -> Seq<char> {
    match op {
        Op::AutoAssign { index, arg } => load_text(arg, "rax"@) + "    mov QWORD [rbp-"@ + dec_nat(
            index as nat * 8,
        ) + "], rax\n"@,
        Op::UnaryNot { result, arg } => "    xor rbx, rbx\n"@ + load_text(arg, "rax"@)
            + "    test rax, rax\n"@ + "    setz bl\n"@ + store_text(result as nat, "rbx"@),
        Op::Add { index, lhs, rhs } => operands_text(lhs, rhs) + "    add rax, rbx\n"@ + store_text(
            index as nat,
            "rax"@,
        ),
        Op::Sub { index, lhs, rhs } => operands_text(lhs, rhs) + "    sub rax, rbx\n"@ + store_text(
            index as nat,
            "rax"@,
        ),
        Op::Mul { index, lhs, rhs } => operands_text(lhs, rhs) + "    xor rdx, rdx\n"@
            + "    mul rbx\n"@ + store_text(index as nat, "rax"@),
        Op::Less { index, lhs, rhs } => operands_text(lhs, rhs) + "    xor rdx, rdx\n"@
            + "    cmp rax, rbx\n"@ + "    setl dl\n"@ + store_text(index as nat, "rdx"@),
        Op::Funcall { result, name, args } => args_text(args@) + "    mov al, 0\n"@ + "    call "@
            + name@ + "\n"@ + store_text(result as nat, "rax"@),
        Op::JmpIfNot { addr, arg } => load_text(arg, "rax"@) + "    test rax, rax\n"@ + "    jz "@
            + label_name(addr as nat) + "\n"@,
        Op::Jmp { addr } => "    jmp "@ + label_name(addr as nat) + "\n"@,
    }
}

/// Each operation of `body` in order, each after its own label.
pub open spec fn body_text(body: Seq<Op>) -> Seq<char>
    decreases body.len(),
{
    if body.len() == 0 {
        Seq::empty()
    } else {
        body_text(body.drop_last()) + label_text((body.len() - 1) as nat) + op_text(body.last())
    }
}

/// The reservation of the frame's local slots; nothing when there are none.
pub open spec fn frame_text(slots: nat) -> Seq<char> {
    if slots == 0 {
        Seq::empty()
    } else {
        "    sub rsp, "@ + dec_nat(slots * 8) + "\n"@
    }
}

pub open spec fn prologue_text(name: Seq<char>, slots: nat) -> Seq<char> {
    "public "@ + name + "\n"@ + name + ":\n"@ + "    push rbp\n"@ + "    mov rbp, rsp\n"@
        + frame_text(slots)
}

/// The epilogue, under the label just past the last operation.
pub open spec fn epilogue_text(n: nat) -> Seq<char> {
    label_text(n) + "    mov rsp, rbp\n"@ + "    pop rbp\n"@ + "    mov rax, 0\n"@ + "    ret\n"@
}

pub open spec fn function_text(name: Seq<char>, slots: nat, body: Seq<Op>) -> Seq<char> {
    prologue_text(name, slots) + body_text(body) + epilogue_text(body.len())
}

pub open spec fn funcs_text(funcs: Seq<Func>) -> Seq<char>
    decreases funcs.len(),
{
    if funcs.len() == 0 {
        Seq::empty()
    } else {
        let f = funcs.last();
        funcs_text(funcs.drop_last()) + function_text(f.name@, f.auto_vars_count as nat, f.body@)
    }
}

pub open spec fn code_section_text(funcs: Seq<Func>) -> Seq<char> {
    "section \".text\" executable\n"@ + funcs_text(funcs)
}

pub open spec fn extrns_text(extrns: Seq<String>) -> Seq<char>
    decreases extrns.len(),
{
    if extrns.len() == 0 {
        Seq::empty()
    } else {
        extrns_text(extrns.drop_last()) + "extrn "@ + extrns.last()@ + "\n"@
    }
}

/// The bytes as comma-separated two-digit hexadecimal literals.
pub open spec fn bytes_text(data: Seq<u8>) -> Seq<char>
    decreases data.len(),
{
    if data.len() == 0 {
        Seq::empty()
    } else {
        bytes_text(data.drop_last()) + (if data.len() > 1 {
            ","@
        } else {
            Seq::empty()
        }) + "0x"@ + hex_byte(data.last())
    }
}

pub open spec fn data_section_text(data: Seq<u8>) -> Seq<char> {
    if data.len() == 0 {
        Seq::empty()
    } else {
        "section \".data\"\n"@ + "dat: db "@ + bytes_text(data) + "\n"@
    }
}

pub open spec fn program_text(p: Program) -> Seq<char> {
    "format ELF64\n"@ + code_section_text(p.funcs@) + extrns_text(p.extrns@) + data_section_text(
        p.data@,
    )
}

/// Generating `p` onto the text `before` succeeded or not (`ok`) and left the text `after`:
/// on success the whole program was appended, on failure nothing was.
pub open spec fn program_generated(p: Program, before: Seq<char>, ok: bool, after: Seq<char>) -> bool {
    &&& ok <==> funcs_supported(p.funcs@)
    &&& ok ==> after == before + program_text(p)
    &&& !ok ==> after == before
}

// ---------------------------------------------------------------------------
// Emitters
// ---------------------------------------------------------------------------

/// Appends the instruction that puts the value of `arg` into register `reg`.
pub fn load_arg_to_reg(arg: &Arg, reg: &str, output: &mut String)
    ensures
        final(output)@ == old(output)@ + load_text(*arg, reg@),
{
    output.append("    mov ");
    output.append(reg);
    match arg {
        Arg::AutoVar(index) => {
            output.append(", [rbp-");
            push_dec(output, *index as u128 * 8);
            output.append("]\n");
        },
        Arg::Literal(value) => {
            output.append(", ");
            push_dec_i64(output, *value);
            output.append("\n");
        },
        Arg::DataOffset(offset) => {
            output.append(", dat+");
            push_dec(output, *offset as u128);
            output.append("\n");
        },
    }
    assert(output@ =~= old(output)@ + load_text(*arg, reg@));
}

fn emit_store(output: &mut String, index: usize, reg: &str)
    ensures
        final(output)@ == old(output)@ + store_text(index as nat, reg@),
{
    output.append("    mov [rbp-");
    push_dec(output, index as u128 * 8);
    output.append("], ");
    output.append(reg);
    output.append("\n");
    assert(output@ =~= old(output)@ + store_text(index as nat, reg@));
}

fn emit_label_name(output: &mut String, i: usize)
    ensures
        final(output)@ == old(output)@ + label_name(i as nat),
{
    output.append(".op_");
    push_dec(output, i as u128);
}

fn emit_label(output: &mut String, i: usize)
    ensures
        final(output)@ == old(output)@ + label_text(i as nat),
{
    emit_label_name(output, i);
    output.append(":\n");
    assert(output@ =~= old(output)@ + label_text(i as nat));
}

fn emit_operands(output: &mut String, lhs: &Arg, rhs: &Arg)
    ensures
        final(output)@ == old(output)@ + operands_text(*lhs, *rhs),
{
    load_arg_to_reg(lhs, "rax", output);
    load_arg_to_reg(rhs, "rbx", output);
    assert(output@ =~= old(output)@ + operands_text(*lhs, *rhs));
}

fn arg_register(k: usize) -> (r: &'static str)
    requires
        k < MAX_CALL_ARGS,
    ensures
        r@ == arg_reg(k as int),
{
    if k == 0 { "rdi" }
    else if k == 1 { "rsi" }
    else if k == 2 { "rdx" }
    else if k == 3 { "rcx" }
    else { "r8" }
}

fn emit_args(output: &mut String, args: &Vec<Arg>)
    requires
        args@.len() <= MAX_CALL_ARGS,
    ensures
        final(output)@ == old(output)@ + args_text(args@),
{
    let mut i: usize = 0;
    while i < args.len()
        invariant
            i <= args@.len() <= MAX_CALL_ARGS,
            output@ == old(output)@ + args_text(args@.take(i as int)),
        decreases args@.len() - i,
    {
        load_arg_to_reg(&args[i], arg_register(i), output);
        assert(args@.take(i + 1).drop_last() =~= args@.take(i as int));
        i = i + 1;
        assert(output@ =~= old(output)@ + args_text(args@.take(i as int)));
    }
    assert(args@.take(i as int) =~= args@);
}

fn emit_op(output: &mut String, op: &Op)
    requires
        crate::ir::op_supported(*op),
    ensures
        final(output)@ == old(output)@ + op_text(*op),
{
    match op {
        Op::AutoAssign { index, arg } => {
            load_arg_to_reg(arg, "rax", output);
            output.append("    mov QWORD [rbp-");
            push_dec(output, *index as u128 * 8);
            output.append("], rax\n");
        },
        Op::UnaryNot { result, arg } => {
            output.append("    xor rbx, rbx\n");
            load_arg_to_reg(arg, "rax", output);
            output.append("    test rax, rax\n");
            output.append("    setz bl\n");
            emit_store(output, *result, "rbx");
        },
        Op::Add { index, lhs, rhs } => {
            emit_operands(output, lhs, rhs);
            output.append("    add rax, rbx\n");
            emit_store(output, *index, "rax");
        },
        Op::Sub { index, lhs, rhs } => {
            emit_operands(output, lhs, rhs);
            output.append("    sub rax, rbx\n");
            emit_store(output, *index, "rax");
        },
        Op::Mul { index, lhs, rhs } => {
            emit_operands(output, lhs, rhs);
            output.append("    xor rdx, rdx\n");
            output.append("    mul rbx\n");
            emit_store(output, *index, "rax");
        },
        Op::Less { index, lhs, rhs } => {
            emit_operands(output, lhs, rhs);
            output.append("    xor rdx, rdx\n");
            output.append("    cmp rax, rbx\n");
            output.append("    setl dl\n");
            emit_store(output, *index, "rdx");
        },
        Op::Funcall { result, name, args } => {
            emit_args(output, args);
            // The ABI passes the count of vector-register arguments in al, which a
            // variadic callee reads; calls here carry none.
            output.append("    mov al, 0\n");
            output.append("    call ");
            output.append(name.as_str());
            output.append("\n");
            emit_store(output, *result, "rax");
        },
        Op::JmpIfNot { addr, arg } => {
            load_arg_to_reg(arg, "rax", output);
            output.append("    test rax, rax\n");
            output.append("    jz ");
            emit_label_name(output, *addr);
            output.append("\n");
        },
        Op::Jmp { addr } => {
            output.append("    jmp ");
            emit_label_name(output, *addr);
            output.append("\n");
        },
    }
    assert(output@ =~= old(output)@ + op_text(*op));
}


fn emit_prologue(name: &str, auto_vars_count: usize, output: &mut String)
    ensures
        final(output)@ == old(output)@ + prologue_text(name@, auto_vars_count as nat),
{
    output.append("public ");
    output.append(name);
    output.append("\n");
    output.append(name);
    output.append(":\n");
    output.append("    push rbp\n");
    output.append("    mov rbp, rsp\n");
    if auto_vars_count > 0 {
        output.append("    sub rsp, ");
        push_dec(output, auto_vars_count as u128 * 8);
        output.append("\n");
    }
    assert(output@ =~= old(output)@ + prologue_text(name@, auto_vars_count as nat));
}

fn emit_body(body: &[Op], output: &mut String)
    requires
        body_supported(body@),
    ensures
        final(output)@ == old(output)@ + body_text(body@),
{
    let mut i: usize = 0;
    while i < body.len()
        invariant
            i <= body@.len(),
            body_supported(body@),
            output@ == old(output)@ + body_text(body@.take(i as int)),
        decreases body@.len() - i,
    {
        emit_label(output, i);
        emit_op(output, &body[i]);
        assert(body@.take(i + 1).drop_last() =~= body@.take(i as int));
        i = i + 1;
        assert(output@ =~= old(output)@ + body_text(body@.take(i as int)));
    }
    assert(body@.take(i as int) =~= body@);
}

fn emit_epilogue(n: usize, output: &mut String)
    ensures
        final(output)@ == old(output)@ + epilogue_text(n as nat),
{
    emit_label(output, n);
    output.append("    mov rsp, rbp\n");
    output.append("    pop rbp\n");
    output.append("    mov rax, 0\n");
    output.append("    ret\n");
    assert(output@ =~= old(output)@ + epilogue_text(n as nat));
}

fn emit_function(name: &str, auto_vars_count: usize, body: &[Op], output: &mut String)
    requires
        body_supported(body@),
    ensures
        final(output)@ == old(output)@ + function_text(name@, auto_vars_count as nat, body@),
{
    emit_prologue(name, auto_vars_count, output);
    emit_body(body, output);
    emit_epilogue(body.len(), output);
    assert(output@ =~= old(output)@ + function_text(name@, auto_vars_count as nat, body@));
}

/// Appends one function: its public label, prologue, each operation under its own
/// label, and the epilogue under the label just past the last operation.
/// A call with more arguments than the backend can pass fails, and then nothing is appended.
pub fn generate_function(name: &str, auto_vars_count: usize, body: &[Op], output: &mut String) -> (r:
    Result<(), CodegenError>)
    ensures
        r is Ok <==> body_supported(body@),
        r is Ok ==> final(output)@ == old(output)@ + function_text(
            name@,
            auto_vars_count as nat,
            body@,
        ),
        r matches Err(e) ==> final(output)@ == old(output)@ && reports_first_unsupported(
            e,
            name@,
            body@,
        ),
{
    match first_unsupported(body) {
        Some(k) => {
            let provided = match &body[k] {
                Op::Funcall { args, .. } => args.len(),
                _ => 0,
            };
            Err(
                CodegenError::TooManyArguments {
                    function: String::from_str(name),
                    op_index: k,
                    provided,
                    supported: MAX_CALL_ARGS,
                },
            )
        },
        None => {
            emit_function(name, auto_vars_count, body, output);
            Ok(())
        },
    }
}

/// Finds the first function of `funcs` that holds an unsupported call, with that call's index.
fn first_unsupported_func(funcs: &[Func]) -> (r: Option<(usize, usize)>)
    ensures
        r is None <==> funcs_supported(funcs@),
        r matches Some((i, k)) ==> i < funcs@.len() && (forall|j: int|
            0 <= j < i ==> body_supported(#[trigger] funcs@[j].body@)) && k < funcs@[i as int].body@.len()
            && !crate::ir::op_supported(funcs@[i as int].body@[k as int]) && forall|j: int|
            0 <= j < k ==> crate::ir::op_supported(#[trigger] funcs@[i as int].body@[j]),
{
    let mut i: usize = 0;
    while i < funcs.len()
        invariant
            i <= funcs@.len(),
            forall|j: int| 0 <= j < i ==> body_supported(#[trigger] funcs@[j].body@),
        decreases funcs@.len() - i,
    {
        match first_unsupported(funcs[i].body.as_slice()) {
            Some(k) => {
                return Some((i, k));
            },
            None => {},
        }
        i = i + 1;
    }
    None
}

fn emit_funcs(output: &mut String, funcs: &[Func])
    requires
        funcs_supported(funcs@),
    ensures
        final(output)@ == old(output)@ + code_section_text(funcs@),
{
    output.append("section \".text\" executable\n");
    let ghost start = output@;
    let mut i: usize = 0;
    while i < funcs.len()
        invariant
            i <= funcs@.len(),
            funcs_supported(funcs@),
            output@ == start + funcs_text(funcs@.take(i as int)),
        decreases funcs@.len() - i,
    {
        let f = &funcs[i];
        assert(body_supported(funcs@[i as int].body@));
        emit_function(f.name.as_str(), f.auto_vars_count, f.body.as_slice(), output);
        assert(funcs@.take(i + 1).drop_last() =~= funcs@.take(i as int));
        i = i + 1;
        assert(output@ =~= start + funcs_text(funcs@.take(i as int)));
    }
    assert(funcs@.take(i as int) =~= funcs@);
    assert(output@ =~= old(output)@ + code_section_text(funcs@));
}

/// The error for the first unsupported call, given where `first_unsupported_func` found it.
fn unsupported_error(funcs: &[Func], i: usize, k: usize) -> (e: CodegenError)
    requires
        i < funcs@.len(),
        k < funcs@[i as int].body@.len(),
        !crate::ir::op_supported(funcs@[i as int].body@[k as int]),
        forall|j: int| 0 <= j < k ==> crate::ir::op_supported(#[trigger] funcs@[i as int].body@[j]),
    ensures
        reports_first_unsupported(e, funcs@[i as int].name@, funcs@[i as int].body@),
{
    let f = &funcs[i];
    let provided = match &f.body[k] {
        Op::Funcall { args, .. } => args.len(),
        _ => 0,
    };
    CodegenError::TooManyArguments {
        function: String::from_str(f.name.as_str()),
        op_index: k,
        provided,
        supported: MAX_CALL_ARGS,
    }
}

/// Appends the code section: its header, then every function in order.
/// Where some function holds an unsupported call, it fails on the first such
/// function and appends nothing.
pub fn generate_funcs(output: &mut String, funcs: &[Func]) -> (r: Result<(), CodegenError>)
    ensures
        r is Ok <==> funcs_supported(funcs@),
        r is Ok ==> final(output)@ == old(output)@ + code_section_text(funcs@),
        r matches Err(e) ==> final(output)@ == old(output)@ && exists|i: int|
            0 <= i < funcs@.len() && (forall|j: int|
                0 <= j < i ==> body_supported(#[trigger] funcs@[j].body@))
                && reports_first_unsupported(e, #[trigger] funcs@[i].name@, funcs@[i].body@),
{
    match first_unsupported_func(funcs) {
        Some((i, k)) => Err(unsupported_error(funcs, i, k)),
        None => {
            emit_funcs(output, funcs);
            Ok(())
        },
    }
}

/// Appends one `extrn` declaration per name, in order, duplicates included.
pub fn generate_extrns(output: &mut String, extrns: &[String])
    ensures
        final(output)@ == old(output)@ + extrns_text(extrns@),
{
    let mut i: usize = 0;
    while i < extrns.len()
        invariant
            i <= extrns@.len(),
            output@ == old(output)@ + extrns_text(extrns@.take(i as int)),
        decreases extrns@.len() - i,
    {
        output.append("extrn ");
        output.append(extrns[i].as_str());
        output.append("\n");
        assert(extrns@.take(i + 1).drop_last() =~= extrns@.take(i as int));
        i = i + 1;
        assert(output@ =~= old(output)@ + extrns_text(extrns@.take(i as int)));
    }
    assert(extrns@.take(i as int) =~= extrns@);
}

/// Appends the data section with every byte of `data`; nothing when `data` is empty.
pub fn generate_data_section(output: &mut String, data: &[u8])
    ensures
        final(output)@ == old(output)@ + data_section_text(data@),
{
    if data.len() > 0 {
        output.append("section \".data\"\n");
        output.append("dat: db ");
        let ghost start = output@;
        let mut i: usize = 0;
        while i < data.len()
            invariant
                i <= data@.len(),
                output@ == start + bytes_text(data@.take(i as int)),
            decreases data@.len() - i,
        {
            if i > 0 {
                output.append(",");
            }
            output.append("0x");
            push_hex_byte(output, data[i]);
            assert(data@.take(i + 1).drop_last() =~= data@.take(i as int));
            i = i + 1;
            assert(output@ =~= start + bytes_text(data@.take(i as int)));
        }
        assert(data@.take(i as int) =~= data@);
        output.append("\n");
        assert(output@ =~= old(output)@ + data_section_text(data@));
    } else {
        assert(output@ =~= old(output)@ + data_section_text(data@));
    }
}

/// Appends the whole program: the format header, the code section, the outside
/// declarations and the data section, in that order. Where some function holds an
/// unsupported call, it fails and appends nothing.
pub fn generate_program(output: &mut String, p: &Program) -> (r: Result<(), CodegenError>)
    ensures
        program_generated(*p, old(output)@, r is Ok, final(output)@),
        r matches Err(e) ==> exists|i: int|
            0 <= i < p.funcs@.len() && (forall|j: int|
                0 <= j < i ==> body_supported(#[trigger] p.funcs@[j].body@))
                && reports_first_unsupported(e, #[trigger] p.funcs@[i].name@, p.funcs@[i].body@),
{
    match first_unsupported_func(p.funcs.as_slice()) {
        Some((i, k)) => Err(unsupported_error(p.funcs.as_slice(), i, k)),
        None => {
            output.append("format ELF64\n");
            emit_funcs(output, p.funcs.as_slice());
            generate_extrns(output, p.extrns.as_slice());
            generate_data_section(output, p.data.as_slice());
            assert(output@ =~= old(output)@ + program_text(*p));
            Ok(())
        },
    }
}

} // verus!
