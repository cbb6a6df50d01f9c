use crate::digits::{dec_nat, decimal_value, lemma_dec_nat_value};
use crate::fasm::{
    arg_reg, bytes_text, data_section_text, args_text, body_text, epilogue_text, frame_text, function_text, label_text,
    load_text, op_text, operands_text, program_generated, prologue_text, store_text,
};
use crate::ir::{body_supported, jump_target, jumps_in_range, op_supported, Arg, Op, Program, MAX_CALL_ARGS};
use vstd::prelude::*;

verus! {

/// `t` occurs in `s` as a contiguous piece.
pub open spec fn occurs_in(t: Seq<char>, s: Seq<char>) -> bool {
    exists|p: int| 0 <= p && p + t.len() <= s.len() && #[trigger] s.subrange(p, p + t.len()) == t
}

/// Generation is deterministic: two runs on the same program and the same starting text
/// agree on success and leave the same text.
pub proof fn lemma_deterministic(
    p: Program,
    before: Seq<char>,
    ok1: bool,
    after1: Seq<char>,
    ok2: bool,
    after2: Seq<char>,
)
    requires
        program_generated(p, before, ok1, after1),
        program_generated(p, before, ok2, after2),
    ensures
        ok1 == ok2,
        after1 == after2,
{
}

/// The frame reservation is `slots * 8` bytes, written in decimal right after the prologue's
/// fixed lines; with no slots there is no reservation instruction at all.
pub proof fn lemma_frame_reservation(name: Seq<char>, slots: nat, body: Seq<Op>)
    ensures
        function_text(name, slots, body) == "public "@ + name + "\n"@ + name + ":\n"@
            + "    push rbp\n"@ + "    mov rbp, rsp\n"@ + frame_text(slots) + body_text(body)
            + epilogue_text(body.len()),
        slots == 0 ==> frame_text(slots) == Seq::<char>::empty(),
        slots > 0 ==> frame_text(slots) == "    sub rsp, "@ + dec_nat(slots * 8) + "\n"@
            && decimal_value(dec_nat(slots * 8)) == slots * 8,
{
    lemma_dec_nat_value(slots * 8);
}

/// Operation texts in order: the text of the first `n` operations is where the text of
/// the whole body starts.
proof fn lemma_body_text_prefix(body: Seq<Op>, n: int)
    requires
        0 <= n <= body.len(),
    ensures
        body_text(body.take(n)).len() <= body_text(body).len(),
        body_text(body).subrange(0, body_text(body.take(n)).len() as int) == body_text(body.take(n)),
    decreases body.len(),
{
    if n == body.len() {
        assert(body.take(n) =~= body);
        assert(body_text(body).subrange(0, body_text(body).len() as int) =~= body_text(body));
    } else {
        let rest = body.drop_last();
        assert(rest.take(n) =~= body.take(n));
        lemma_body_text_prefix(rest, n);
        let pre = body_text(body.take(n));
        assert(body_text(body).subrange(0, pre.len() as int) =~= body_text(rest).subrange(
            0,
            pre.len() as int,
        ));
    }
}

/// Distinct operation indices get distinct labels.
pub proof fn lemma_labels_distinct(i: nat, j: nat)
    requires
        i != j,
    ensures
        label_text(i) != label_text(j),
{
    lemma_dec_nat_value(i);
    lemma_dec_nat_value(j);
    reveal_strlit(".op_");
    reveal_strlit(":\n");
    if label_text(i) == label_text(j) {
        let a = label_text(i);
        assert(a.subrange(4, a.len() - 2) =~= dec_nat(i));
        assert(label_text(j).subrange(4, a.len() - 2) =~= dec_nat(j));
    }
}

/// A function with `k` operations defines a label for every index `0..=k`, each index its
/// own; and where every jump of the body lands in range, the label it names is defined.
pub proof fn lemma_labels_complete(name: Seq<char>, slots: nat, body: Seq<Op>)
    ensures
        forall|i: nat| i <= body.len() ==> occurs_in(#[trigger] label_text(i), function_text(name, slots, body)),
        forall|i: nat, j: nat| i != j ==> #[trigger] label_text(i) != #[trigger] label_text(j),
        jumps_in_range(body) ==> forall|i: int|
            0 <= i < body.len() && (#[trigger] jump_target(body[i])) is Some ==> occurs_in(
                label_text(jump_target(body[i])->0),
                function_text(name, slots, body),
            ),
{
    let pro = prologue_text(name, slots);
    let whole = function_text(name, slots, body);
    assert forall|i: nat| i <= body.len() implies occurs_in(#[trigger] label_text(i), whole) by {
        let lab = label_text(i);
        if i == body.len() {
            let p: int = pro.len() as int + body_text(body).len() as int;
            assert(whole.subrange(p, p + lab.len() as int) =~= lab);
        } else {
            let n: int = i as int + 1;
            lemma_body_text_prefix(body, n);
            let upto = body_text(body.take(n));
            assert(body.take(n).drop_last() =~= body.take(i as int));
            let before = body_text(body.take(i as int));
            assert(upto == before + lab + op_text(body[i as int]));
            let p: int = pro.len() as int + before.len() as int;
            assert(whole.subrange(p, p + lab.len() as int) =~= upto.subrange(before.len() as int, before.len() + lab.len() as int));
            assert(upto.subrange(before.len() as int, before.len() + lab.len() as int) =~= lab);
        }
    }
    assert forall|i: nat, j: nat| i != j implies #[trigger] label_text(i) != #[trigger] label_text(j) by {
        lemma_labels_distinct(i, j);
    }
}

/// The arguments of a call operation.
pub open spec fn call_args(op: Op) -> Seq<Arg> {
    match op {
        Op::Funcall { args, .. } => args@,
        _ => Seq::empty(),
    }
}

/// A call with up to five arguments is accepted and a sixth is refused, wherever in a
/// body it stands; five arguments go to five distinct registers, in argument order.
pub proof fn lemma_call_capacity(op: Op, body: Seq<Op>, i: int)
    requires
        op is Funcall,
    ensures
        op_supported(op) <==> call_args(op).len() <= MAX_CALL_ARGS,
        0 <= i < body.len() && body[i] == op && call_args(op).len() > MAX_CALL_ARGS
            ==> !body_supported(body),
        call_args(op).len() == 5 ==> args_text(call_args(op)) == load_text(call_args(op)[0], arg_reg(0))
            + load_text(call_args(op)[1], arg_reg(1)) + load_text(call_args(op)[2], arg_reg(2))
            + load_text(call_args(op)[3], arg_reg(3)) + load_text(call_args(op)[4], arg_reg(4)),
        forall|k: int, j: int|
            0 <= k < 5 && 0 <= j < 5 && k != j ==> #[trigger] arg_reg(k) != #[trigger] arg_reg(j),
{
    let a = call_args(op);
    if a.len() == 5 {
        assert(a.drop_last().drop_last().drop_last().drop_last().drop_last() =~= Seq::<Arg>::empty());
        assert(args_text(a) == args_text(a.drop_last()) + load_text(a[4], arg_reg(4)));
        assert(args_text(a.drop_last()) == args_text(a.drop_last().drop_last()) + load_text(a[3], arg_reg(3)));
        assert(args_text(a.drop_last().drop_last()) == args_text(a.drop_last().drop_last().drop_last())
            + load_text(a[2], arg_reg(2)));
        assert(args_text(a.drop_last().drop_last().drop_last()) == args_text(
            a.drop_last().drop_last().drop_last().drop_last(),
        ) + load_text(a[1], arg_reg(1)));
        assert(args_text(a.drop_last().drop_last().drop_last().drop_last()) == args_text(
            a.drop_last().drop_last().drop_last().drop_last().drop_last(),
        ) + load_text(a[0], arg_reg(0)));
        assert(args_text(a) =~= load_text(a[0], arg_reg(0)) + load_text(a[1], arg_reg(1)) + load_text(
            a[2],
            arg_reg(2),
        ) + load_text(a[3], arg_reg(3)) + load_text(a[4], arg_reg(4)));
    }
    reveal_strlit("rdi");
    reveal_strlit("rsi");
    reveal_strlit("rdx");
    reveal_strlit("rcx");
    reveal_strlit("r8");
    assert forall|k: int, j: int|
        0 <= k < 5 && 0 <= j < 5 && k != j implies #[trigger] arg_reg(k) != #[trigger] arg_reg(j) by {
        if arg_reg(k) == arg_reg(j) {
            assert(arg_reg(k).len() == arg_reg(j).len());
            assert(arg_reg(k)[1] == arg_reg(j)[1]);
            if arg_reg(k).len() == 3 {
                assert(arg_reg(k)[2] == arg_reg(j)[2]);
            }
        }
    }
}

/// Every multiply clears the high half of the product register right before it multiplies.
pub proof fn lemma_multiply_clears_high(index: usize, lhs: Arg, rhs: Arg)
    ensures
        op_text(Op::Mul { index, lhs, rhs }) == operands_text(lhs, rhs) + "    xor rdx, rdx\n"@
            + "    mul rbx\n"@ + store_text(index as nat, "rax"@),
{
}

/// An empty data blob produces no data section at all; a non-empty one produces the
/// section header and one `db` directive holding every byte.
pub proof fn lemma_data_section_omitted(data: Seq<u8>)
    ensures
        data.len() == 0 ==> data_section_text(data) == Seq::<char>::empty(),
        data.len() > 0 ==> data_section_text(data) == "section \".data\"\n"@ + "dat: db "@
            + bytes_text(data) + "\n"@,
{
}

} // verus!
