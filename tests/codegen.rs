use fasm_codegen::{
    generate_data_section, generate_extrns, generate_function, generate_funcs, generate_program,
    load_arg_to_reg, Arg, CodegenError, Func, Op, Program,
};

fn emit_function(name: &str, slots: usize, body: &[Op]) -> String {
    let mut out = String::new();
    generate_function(name, slots, body, &mut out).unwrap();
    out
}

fn call(result: usize, name: &str, n: usize) -> Op {
    let mut args = Vec::new();
    for i in 0..n {
        args.push(Arg::Literal(i as i64 + 1));
    }
    Op::Funcall { result, name: name.to_string(), args }
}

#[test]
fn load_auto_var() {
    let mut out = String::new();
    load_arg_to_reg(&Arg::AutoVar(3), "rax", &mut out);
    assert_eq!(out, "    mov rax, [rbp-24]\n");
}

#[test]
fn load_literals() {
    let mut out = String::new();
    load_arg_to_reg(&Arg::Literal(42), "rbx", &mut out);
    load_arg_to_reg(&Arg::Literal(-7), "rbx", &mut out);
    load_arg_to_reg(&Arg::Literal(0), "rbx", &mut out);
    load_arg_to_reg(&Arg::Literal(i64::MIN), "rbx", &mut out);
    load_arg_to_reg(&Arg::Literal(i64::MAX), "rbx", &mut out);
    assert_eq!(
        out,
        "    mov rbx, 42\n    mov rbx, -7\n    mov rbx, 0\n    mov rbx, -9223372036854775808\n    mov rbx, 9223372036854775807\n"
    );
}

#[test]
fn load_data_offset() {
    let mut out = String::from("x");
    load_arg_to_reg(&Arg::DataOffset(17), "rdi", &mut out);
    assert_eq!(out, "x    mov rdi, dat+17\n");
}

#[test]
fn load_largest_slot_index() {
    let mut out = String::new();
    load_arg_to_reg(&Arg::AutoVar(usize::MAX), "rax", &mut out);
    let expected = format!("    mov rax, [rbp-{}]\n", (usize::MAX as u128) * 8);
    assert_eq!(out, expected);
}

#[test]
fn frame_reservation_is_eight_bytes_per_slot() {
    let out = emit_function("g", 3, &[]);
    assert!(out.contains("    sub rsp, 24\n"));
}

#[test]
fn no_reservation_without_slots() {
    let out = emit_function("g", 0, &[]);
    assert_eq!(
        out,
        "public g\ng:\n    push rbp\n    mov rbp, rsp\n.op_0:\n    mov rsp, rbp\n    pop rbp\n    mov rax, 0\n    ret\n"
    );
    assert!(!out.contains("sub rsp"));
}

#[test]
fn end_to_end_single_function() {
    let body = vec![
        Op::AutoAssign { index: 0, arg: Arg::Literal(2) },
        Op::Add { index: 0, lhs: Arg::AutoVar(0), rhs: Arg::Literal(3) },
        Op::JmpIfNot { addr: 3, arg: Arg::AutoVar(0) },
        Op::Jmp { addr: 0 },
    ];
    let out = emit_function("f", 1, &body);
    let expected = "public f\nf:\n    push rbp\n    mov rbp, rsp\n    sub rsp, 8\n\
.op_0:\n    mov rax, 2\n    mov QWORD [rbp-0], rax\n\
.op_1:\n    mov rax, [rbp-0]\n    mov rbx, 3\n    add rax, rbx\n    mov [rbp-0], rax\n\
.op_2:\n    mov rax, [rbp-0]\n    test rax, rax\n    jz .op_3\n\
.op_3:\n    jmp .op_0\n\
.op_4:\n    mov rsp, rbp\n    pop rbp\n    mov rax, 0\n    ret\n";
    assert_eq!(out, expected);
}

#[test]
fn labels_for_every_index() {
    let body = vec![Op::Jmp { addr: 2 }, Op::Jmp { addr: 0 }];
    let out = emit_function("h", 0, &body);
    for i in 0..=2 {
        assert_eq!(out.matches(&format!(".op_{}:\n", i)).count(), 1);
    }
    assert_eq!(out.matches(":\n").count(), 4);
    assert!(out.contains("    jmp .op_2\n"));
}

#[test]
fn unary_not_and_sub_and_less() {
    let body = vec![
        Op::UnaryNot { result: 1, arg: Arg::AutoVar(0) },
        Op::Sub { index: 2, lhs: Arg::Literal(5), rhs: Arg::DataOffset(1) },
        Op::Less { index: 0, lhs: Arg::AutoVar(1), rhs: Arg::AutoVar(2) },
    ];
    let out = emit_function("k", 3, &body);
    let expected = "public k\nk:\n    push rbp\n    mov rbp, rsp\n    sub rsp, 24\n\
.op_0:\n    xor rbx, rbx\n    mov rax, [rbp-0]\n    test rax, rax\n    setz bl\n    mov [rbp-8], rbx\n\
.op_1:\n    mov rax, 5\n    mov rbx, dat+1\n    sub rax, rbx\n    mov [rbp-16], rax\n\
.op_2:\n    mov rax, [rbp-8]\n    mov rbx, [rbp-16]\n    xor rdx, rdx\n    cmp rax, rbx\n    setl dl\n    mov [rbp-0], rdx\n\
.op_3:\n    mov rsp, rbp\n    pop rbp\n    mov rax, 0\n    ret\n";
    assert_eq!(out, expected);
}

#[test]
fn multiply_clears_high_register_first() {
    let body = vec![Op::Mul { index: 1, lhs: Arg::AutoVar(0), rhs: Arg::Literal(6) }];
    let out = emit_function("m", 2, &body);
    assert!(out.contains(
        "    mov rax, [rbp-0]\n    mov rbx, 6\n    xor rdx, rdx\n    mul rbx\n    mov [rbp-8], rax\n"
    ));
}

#[test]
fn call_with_five_arguments() {
    let out = emit_function("c", 1, &[call(0, "foo", 5)]);
    assert!(out.contains(
        ".op_0:\n    mov rdi, 1\n    mov rsi, 2\n    mov rdx, 3\n    mov rcx, 4\n    mov r8, 5\n    mov al, 0\n    call foo\n    mov [rbp-0], rax\n"
    ));
}

#[test]
fn call_without_arguments() {
    let out = emit_function("c", 1, &[call(0, "bar", 0)]);
    assert!(out.contains(".op_0:\n    mov al, 0\n    call bar\n    mov [rbp-0], rax\n"));
}

#[test]
fn call_with_six_arguments_is_refused() {
    let body = vec![Op::Jmp { addr: 2 }, call(0, "foo", 6), call(0, "bar", 7)];
    let mut out = String::from("keep");
    let r = generate_function("c", 1, &body, &mut out);
    assert_eq!(
        r,
        Err(CodegenError::TooManyArguments {
            function: "c".to_string(),
            op_index: 1,
            provided: 6,
            supported: 5
        })
    );
    assert_eq!(out, "keep");
}

#[test]
fn funcs_in_order() {
    let funcs = vec![
        Func { name: "a".to_string(), auto_vars_count: 0, body: vec![] },
        Func { name: "b".to_string(), auto_vars_count: 0, body: vec![] },
    ];
    let mut out = String::new();
    generate_funcs(&mut out, &funcs).unwrap();
    let expected = format!(
        "section \".text\" executable\n{}{}",
        emit_function("a", 0, &[]),
        emit_function("b", 0, &[])
    );
    assert_eq!(out, expected);
}

#[test]
fn funcs_report_first_failing_function() {
    let funcs = vec![
        Func { name: "ok".to_string(), auto_vars_count: 0, body: vec![call(0, "x", 5)] },
        Func { name: "bad".to_string(), auto_vars_count: 1, body: vec![call(0, "y", 6)] },
        Func { name: "worse".to_string(), auto_vars_count: 1, body: vec![call(0, "z", 9)] },
    ];
    let mut out = String::new();
    let r = generate_funcs(&mut out, &funcs);
    assert_eq!(
        r,
        Err(CodegenError::TooManyArguments {
            function: "bad".to_string(),
            op_index: 0,
            provided: 6,
            supported: 5
        })
    );
    assert_eq!(out, "");
}

#[test]
fn extrns_keep_order_and_duplicates() {
    let mut out = String::new();
    let names = vec!["malloc".to_string(), "free".to_string(), "malloc".to_string()];
    generate_extrns(&mut out, &names);
    assert_eq!(out, "extrn malloc\nextrn free\nextrn malloc\n");
}

#[test]
fn empty_data_section_is_omitted() {
    let mut out = String::new();
    generate_data_section(&mut out, &[]);
    assert_eq!(out, "");
}

#[test]
fn data_section_bytes() {
    let mut out = String::new();
    generate_data_section(&mut out, &[0, 255, 16]);
    assert_eq!(out, "section \".data\"\ndat: db 0x00,0xFF,0x10\n");
}

#[test]
fn data_section_single_byte() {
    let mut out = String::new();
    generate_data_section(&mut out, &[0xAB]);
    assert_eq!(out, "section \".data\"\ndat: db 0xAB\n");
}

fn ordering_program(data: Vec<u8>) -> Program {
    Program {
        funcs: vec![Func { name: "main".to_string(), auto_vars_count: 0, body: vec![] }],
        extrns: vec!["malloc".to_string(), "free".to_string()],
        data,
    }
}

#[test]
fn program_section_order() {
    let mut out = String::new();
    generate_program(&mut out, &ordering_program(vec![])).unwrap();
    let expected = format!(
        "format ELF64\nsection \".text\" executable\n{}extrn malloc\nextrn free\n",
        emit_function("main", 0, &[])
    );
    assert_eq!(out, expected);
}

#[test]
fn program_section_order_with_data() {
    let mut out = String::new();
    generate_program(&mut out, &ordering_program(vec![1, 2])).unwrap();
    let expected = format!(
        "format ELF64\nsection \".text\" executable\n{}extrn malloc\nextrn free\nsection \".data\"\ndat: db 0x01,0x02\n",
        emit_function("main", 0, &[])
    );
    assert_eq!(out, expected);
}

#[test]
fn program_output_is_deterministic() {
    let p = Program {
        funcs: vec![Func {
            name: "main".to_string(),
            auto_vars_count: 2,
            body: vec![
                call(0, "malloc", 1),
                Op::Mul { index: 1, lhs: Arg::AutoVar(0), rhs: Arg::Literal(-3) },
                Op::JmpIfNot { addr: 0, arg: Arg::AutoVar(1) },
            ],
        }],
        extrns: vec!["malloc".to_string()],
        data: vec![7, 8, 9],
    };
    let mut first = String::new();
    let mut second = String::new();
    generate_program(&mut first, &p).unwrap();
    generate_program(&mut second, &p).unwrap();
    assert_eq!(first, second);
}

#[test]
fn program_refuses_wide_call() {
    let p = Program {
        funcs: vec![Func { name: "main".to_string(), auto_vars_count: 1, body: vec![call(0, "f", 6)] }],
        extrns: vec![],
        data: vec![1],
    };
    let mut out = String::new();
    let r = generate_program(&mut out, &p);
    assert!(matches!(r, Err(CodegenError::TooManyArguments { provided: 6, supported: 5, .. })));
    assert_eq!(out, "");
}
