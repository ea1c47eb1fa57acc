//! Properties of the compiler, stated and proved over the spec-level
//! pipeline: the text emitted for a literal-returning program, the
//! structure of short-circuit code, the uniqueness of minted labels, the
//! implicit `return 0`, and the determinism of the whole pipeline.

use vstd::prelude::*;

use crate::ast::ExprModel;
use crate::ast::FunModel;
use crate::ast::ProgModel;
use crate::ast::StmtModel;
use crate::codegen::GenModel;
use crate::codegen::clause_label;
use crate::codegen::end_label;
use crate::codegen::epilogue_text;
use crate::codegen::gen_body;
use crate::codegen::gen_exp;
use crate::codegen::gen_function;
use crate::codegen::gen_program;
use crate::codegen::gen_stmt;
use crate::codegen::indent_text;
use crate::codegen::initial_gen;
use crate::codegen::prologue_text;
use crate::error::ErrModel;
use crate::numeral::dec_int;
use crate::numeral::dec_nat;
use crate::numeral::is_digit;
use crate::numeral::lemma_dec_nat_digits;
use crate::numeral::lemma_dec_nat_injective;
use crate::pipeline::compile_spec;
use crate::token::BinaryOperator;

verus! {

/// Whether a text contains no newline; re-indenting such a text leaves
/// it unchanged.
spec fn newline_free(s: Seq<char>) -> bool {
    forall|i: int| 0 <= i < s.len() ==> s[i] != '\n'
}

proof fn lemma_indent_newline_free(s: Seq<char>)
    requires
        newline_free(s),
    ensures
        indent_text(s) == s,
    decreases s.len(),
{
    if s.len() > 0 {
        assert(newline_free(s.drop_last()));
        lemma_indent_newline_free(s.drop_last());
        assert(s.last() != '\n');
        assert(indent_text(s) =~= s.drop_last() + seq![s.last()]);
        assert(s.drop_last() + seq![s.last()] =~= s);
    } else {
        assert(indent_text(s) =~= s);
    }
}

/// A decimal rendering contains no newline: every character is a digit
/// or the leading minus sign.
proof fn lemma_dec_int_newline_free(n: int)
    ensures
        newline_free(dec_int(n)),
{
    if n < 0 {
        lemma_dec_nat_digits((-n) as nat);
        reveal_strlit("-");
        assert forall|i: int| 0 <= i < dec_int(n).len() implies dec_int(n)[i] != '\n' by {
            if i >= 1 {
                assert(dec_int(n)[i] == dec_nat((-n) as nat)[i - 1]);
                assert(is_digit(dec_nat((-n) as nat)[i - 1]));
            }
        }
    } else {
        lemma_dec_nat_digits(n as nat);
        assert forall|i: int| 0 <= i < dec_int(n).len() implies dec_int(n)[i] != '\n' by {
            assert(is_digit(dec_nat(n as nat)[i]));
        }
    }
}

/// The assembly text for `int <name>(){ return <n>; }`: the `.globl`
/// header, the prologue, a load of the literal, and the epilogue.
pub open spec fn return_literal_text(name: Seq<char>, n: int) -> Seq<char> {
    "\n\t.globl "@ + name + "\n"@ + name + ":\n\t"@ + prologue_text() + "\n\t"@ + "mov\t$"@
        + dec_int(n) + ", %rax"@ + "\n\t"@ + epilogue_text() + "\n\t"@ + "\n"@
}

/// Compiling a program whose single function body is `return n;` emits
/// exactly [`return_literal_text`]: the value `n`, rendered in decimal,
/// is loaded into the result register directly before the epilogue. The
/// generator state is left untouched: no variable is declared and no
/// label is minted.
pub proof fn lemma_return_literal_program(name: Seq<char>, n: int)
    ensures
        gen_program(
            initial_gen(),
            ProgModel {
                func: FunModel { name, body: seq![StmtModel::Return(ExprModel::Const(n))] },
            },
        ) == Ok::<(Seq<char>, GenModel), Seq<char>>((return_literal_text(name, n), initial_gen())),
{
    let stmts = seq![StmtModel::Return(ExprModel::Const(n))];
    let m0 = initial_gen();
    let t1 = "mov\t$"@ + dec_int(n) + ", %rax"@;
    lemma_dec_int_newline_free(n);
    reveal_strlit("mov\t$");
    reveal_strlit(", %rax");
    assert(newline_free(t1));
    lemma_indent_newline_free(t1);
    assert(stmts.drop_first() =~= Seq::<StmtModel>::empty());
    let e = ExprModel::Const(n);
    assert(stmts[0] == StmtModel::Return(e));
    assert(gen_exp(m0.table, m0.clause_count, e) == Ok::<(Seq<char>, nat), Seq<char>>((t1, 0)));
    assert(gen_stmt(m0, stmts[0]) == Ok::<(Seq<char>, GenModel), Seq<char>>(
        (t1, m0),
    ));
    let piece = indent_text(t1) + ("\n\t"@ + epilogue_text());
    assert(gen_body(m0, stmts.drop_first(), piece, true, false) == Ok::<
        (Seq<char>, bool, GenModel),
        Seq<char>,
    >((piece, true, m0)));
    assert(gen_body(m0, stmts, Seq::<char>::empty(), false, true) == Ok::<
        (Seq<char>, bool, GenModel),
        Seq<char>,
    >((piece, true, m0)));
    assert(piece =~= t1 + "\n\t"@ + epilogue_text());
    assert(("\n\t.globl "@ + name + "\n"@ + name + ":\n\t"@ + prologue_text() + "\n\t"@ + piece
        + "\n\t"@ + Seq::<char>::empty() + "\n"@) =~= return_literal_text(name, n));
}

/// The code emitted for `lhs && rhs`: the left operand's code, a test of
/// its value against zero that jumps over everything else to the end
/// label when it is zero, and — only behind the freshly minted clause
/// label — the right operand's code with its boolean normalization: a
/// compare against zero, a zero load that leaves the flags alone, and a
/// conditional-set, so the result register holds exactly 0 or 1. The
/// right operand's code is thus never reached when the left operand
/// evaluates to zero.
pub proof fn lemma_and_emits_short_circuit(
    table: Seq<(Seq<char>, int)>,
    c: nat,
    e1: ExprModel,
    e2: ExprModel,
    t1: Seq<char>,
    c1: nat,
    t2: Seq<char>,
    c2: nat,
)
    requires
        gen_exp(table, c, e1) == Ok::<(Seq<char>, nat), Seq<char>>((t1, c1)),
        gen_exp(table, c1, e2) == Ok::<(Seq<char>, nat), Seq<char>>((t2, c2)),
    ensures
        gen_exp(
            table,
            c,
            ExprModel::Binary {
                exp1: Box::new(e1),
                op: BinaryOperator::And,
                exp2: Box::new(e2),
            },
        ) == Ok::<(Seq<char>, nat), Seq<char>>(
            (
                t1 + "\ncmp\t$0, %rax\njne\t"@ + clause_label((c2 + 1) as nat) + "\njmp\t"@
                    + end_label((c2 + 1) as nat) + "\n"@ + clause_label((c2 + 1) as nat) + ":\n"@
                    + t2 + "\ncmp\t$0, %rax\nmov\t$0, %rax\nsetne\t%al\n"@ + end_label(
                    (c2 + 1) as nat,
                ) + ":"@,
                (c2 + 1) as nat,
            ),
        ),
{
}

/// The code emitted for `lhs || rhs`: the left operand's code, a test
/// that falls into the clause label only when it is zero, and otherwise
/// a load of one followed by a jump over the right operand's code to the
/// end label; the right operand's path ends in the same exact-0-or-1
/// normalization as for `&&`.
pub proof fn lemma_or_emits_short_circuit(
    table: Seq<(Seq<char>, int)>,
    c: nat,
    e1: ExprModel,
    e2: ExprModel,
    t1: Seq<char>,
    c1: nat,
    t2: Seq<char>,
    c2: nat,
)
    requires
        gen_exp(table, c, e1) == Ok::<(Seq<char>, nat), Seq<char>>((t1, c1)),
        gen_exp(table, c1, e2) == Ok::<(Seq<char>, nat), Seq<char>>((t2, c2)),
    ensures
        gen_exp(
            table,
            c,
            ExprModel::Binary {
                exp1: Box::new(e1),
                op: BinaryOperator::Or,
                exp2: Box::new(e2),
            },
        ) == Ok::<(Seq<char>, nat), Seq<char>>(
            (
                t1 + "\ncmp\t$0, %rax\nje\t"@ + clause_label((c2 + 1) as nat)
                    + "\nmov\t$1, %rax\njmp\t"@ + end_label((c2 + 1) as nat) + "\n"@
                    + clause_label((c2 + 1) as nat) + ":\n"@ + t2
                    + "\ncmp\t$0, %rax\nmov\t$0, %rax\nsetne\t%al\n"@ + end_label(
                    (c2 + 1) as nat,
                ) + ":"@,
                (c2 + 1) as nat,
            ),
        ),
{
}

/// Labels minted from distinct counter values never collide, and a
/// clause label never collides with any end label; every short-circuit
/// occurrence advances the counter, so every minted pair is distinct
/// from every other pair in the same output.
pub proof fn lemma_labels_distinct(a: nat, b: nat)
    ensures
        a != b ==> clause_label(a) != clause_label(b),
        a != b ==> end_label(a) != end_label(b),
        clause_label(a) != end_label(b),
{
    reveal_strlit("_clause");
    reveal_strlit("_end");
    if a != b {
        lemma_dec_nat_injective(a, b);
        if clause_label(a) == clause_label(b) {
            assert(clause_label(a).subrange(7, clause_label(a).len() as int) =~= dec_nat(a));
            assert(clause_label(b).subrange(7, clause_label(b).len() as int) =~= dec_nat(b));
        }
        if end_label(a) == end_label(b) {
            assert(end_label(a).subrange(4, end_label(a).len() as int) =~= dec_nat(a));
            assert(end_label(b).subrange(4, end_label(b).len() as int) =~= dec_nat(b));
        }
    }
    if clause_label(a) == end_label(b) {
        assert(clause_label(a)[1] == 'c');
        assert(end_label(b)[1] == 'e');
    }
}

/// A body with no `return` statement leaves the seen-a-return flag as it
/// was given.
proof fn lemma_gen_body_flag(
    m: GenModel,
    stmts: Seq<StmtModel>,
    acc: Seq<char>,
    ret_flag: bool,
    first: bool,
)
    requires
        forall|i: int| 0 <= i < stmts.len() ==> !(#[trigger] stmts[i] is Return),
    ensures
        (match gen_body(m, stmts, acc, ret_flag, first) {
            Ok((t, fo, m2)) => fo == ret_flag,
            Err(_) => true,
        }),
    decreases stmts.len(),
{
    if stmts.len() > 0 {
        assert(!(stmts[0] is Return));
        assert(forall|i: int|
            0 <= i < stmts.drop_first().len() ==> !(#[trigger] stmts.drop_first()[i] is Return));
        match gen_stmt(m, stmts[0]) {
            Ok((t1, m2)) => {
                let piece = indent_text(t1);
                lemma_gen_body_flag(
                    m2,
                    stmts.drop_first(),
                    (if first {
                        piece + Seq::<char>::empty()
                    } else {
                        acc + "\n\t"@ + (piece + Seq::<char>::empty())
                    }),
                    ret_flag,
                    false,
                );
            },
            Err(_) => {},
        }
    }
}

/// A function none of whose statements is a `return` behaves as if it
/// ended with `return 0;`: its emitted text ends with a load of zero
/// followed by the epilogue.
pub proof fn lemma_implicit_return(m: GenModel, f: FunModel, text: Seq<char>, m2: GenModel)
    requires
        gen_function(m, f) == Ok::<(Seq<char>, GenModel), Seq<char>>((text, m2)),
        forall|i: int| 0 <= i < f.body.len() ==> !(#[trigger] f.body[i] is Return),
    ensures
        text.len() >= ("mov\t$0, %rax\n\t"@ + epilogue_text() + "\n"@).len(),
        text.subrange(
            text.len() - ("mov\t$0, %rax\n\t"@ + epilogue_text() + "\n"@).len(),
            text.len() as int,
        ) == "mov\t$0, %rax\n\t"@ + epilogue_text() + "\n"@,
{
    let suffix = "mov\t$0, %rax\n\t"@ + epilogue_text() + "\n"@;
    lemma_gen_body_flag(m, f.body, Seq::<char>::empty(), false, true);
    match gen_body(m, f.body, Seq::<char>::empty(), false, true) {
        Ok((body_text, ret_flag, mx)) => {
            let head = "\n\t.globl "@ + f.name + "\n"@ + f.name + ":\n\t"@ + prologue_text()
                + "\n\t"@ + body_text + "\n\t"@;
            assert(text =~= head + suffix);
            assert((head + suffix).subrange(head.len() as int, (head + suffix).len() as int)
                =~= suffix);
        },
        Err(_) => {
            assert(false);
        },
    }
}

/// The pipeline is a function of the source text alone: two runs on
/// identical source lines yield identical results — in particular,
/// byte-identical assembly text, label numbering included.
pub proof fn lemma_compile_deterministic(
    ls: Seq<Seq<char>>,
    r1: Result<Seq<char>, ErrModel>,
    r2: Result<Seq<char>, ErrModel>,
)
    requires
        r1 == compile_spec(ls),
        r2 == compile_spec(ls),
    ensures
        r1 == r2,
{
}

} // verus!

