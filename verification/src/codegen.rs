//! The code generator: a stateful visitor producing x86-64 assembly text
//! from the syntax tree.
//!
//! Expressions are evaluated on a stack machine whose most recent value
//! lives in `%rax`; binary operators push the left value, evaluate the
//! right one, and pop the left into `%rcx`. The generator owns a symbol
//! table mapping each declared variable to a stack-frame offset, a
//! monotonically decreasing next-free-slot cursor, and a counter minting
//! globally unique label pairs for the short-circuiting `&&` and `||`.
//!
//! Every piece of emitted text is pinned down exactly: the spec functions
//! `gen_exp`, `gen_stmt`, `gen_function` and `gen_program` compute the
//! characters of the assembly for a given generator state, and each
//! executable method's contract says its output is precisely that text.

use vstd::prelude::*;
use vstd::string::StrSliceExecFns;
use vstd::string::StringExecFns;

use crate::ast::ExprModel;
use crate::ast::Expression;
use crate::ast::FunModel;
use crate::ast::ProgModel;
use crate::ast::Program;
use crate::ast::Statement;
use crate::ast::StmtModel;
use crate::ast::Function;
use crate::ast::body_size;
use crate::ast::expr_size;
use crate::ast::fun_size;
use crate::ast::prog_size;
use crate::ast::stmt_size;
use crate::error::CompilerStage;
use crate::error::SyntaxError;
use crate::numeral::dec_int;
use crate::numeral::dec_nat;
use crate::numeral::i128_to_string;
use crate::numeral::u128_to_string;
use crate::text::str_eq;
use crate::token::BinaryOperator;
use crate::token::UnaryOperator;

verus! {

/// The frame-setup prologue emitted at the top of a function.
pub open spec fn prologue_text() -> Seq<char> {
    "push\t%rbp\n\tmov\t%rsp, %rbp"@
}

/// The frame-teardown epilogue emitted by every `return` and by the
/// implicit final `return 0`.
pub open spec fn epilogue_text() -> Seq<char> {
    "mov\t%rbp, %rsp\n\tpop\t%rbp\n\tret\n"@
}

/// The name of the clause label minted for counter value `n`.
pub open spec fn clause_label(n: nat) -> Seq<char> {
    "_clause"@ + dec_nat(n)
}

/// The name of the end label minted for counter value `n`.
pub open spec fn end_label(n: nat) -> Seq<char> {
    "_end"@ + dec_nat(n)
}

/// The in-place instruction sequence for a unary operator.
pub open spec fn unary_text(op: UnaryOperator) -> Seq<char> {
    match op {
        UnaryOperator::Negation => "neg\t%rax"@,
        UnaryOperator::BitwiseComplement => "not\t%rax"@,
        UnaryOperator::LogicalNegation => "cmp\t$0, %rax\nmov\t$0, %rax\nsete\t%al"@,
    }
}

/// The combining instruction sequence for a non-short-circuit binary
/// operator, with the left value in `%rcx` and the right in `%rax`.
/// Each comparison is one flag-setting compare, a load of zero into the
/// result register (which leaves the flags untouched), and one
/// conditional-set of its low byte, so the result is exactly 0 or 1.
/// `&&` and `||` emit control flow instead and never use this.
pub open spec fn binop_text(op: BinaryOperator) -> Seq<char> {
    match op {
        BinaryOperator::Addition => "add\t%rcx, %rax"@,
        BinaryOperator::Multiplication => "imul\t%rcx, %rax"@,
        BinaryOperator::Minus => "sub\t%rax, %rcx\nmov\t%rcx, %rax"@,
        BinaryOperator::Division => "mov\t%rax, %rbx\nmov\t%rcx, %rax\ncqo\nidiv\t%rbx"@,
        BinaryOperator::Equal => "cmp\t%rax, %rcx\nmov\t$0, %rax\nsete\t%al"@,
        BinaryOperator::NotEqual => "cmp\t%rax, %rcx\nmov\t$0, %rax\nsetne\t%al"@,
        BinaryOperator::LessThan => "cmp\t%rax, %rcx\nmov\t$0, %rax\nsetl\t%al"@,
        BinaryOperator::LessThanOrEqual => "cmp\t%rax, %rcx\nmov\t$0, %rax\nsetle\t%al"@,
        BinaryOperator::GreaterThan => "cmp\t%rax, %rcx\nmov\t$0, %rax\nsetg\t%al"@,
        BinaryOperator::GreaterThanOrEqual => "cmp\t%rax, %rcx\nmov\t$0, %rax\nsetge\t%al"@,
        BinaryOperator::And => Seq::<char>::empty(),
        BinaryOperator::Or => Seq::<char>::empty(),
    }
}

/// The offset recorded for `name` in a symbol table, searched in
/// insertion order; names are never inserted twice.
pub open spec fn lookup(table: Seq<(Seq<char>, int)>, name: Seq<char>) -> Option<int>
    decreases table.len(),
{
    if table.len() == 0 {
        None
    } else if table[0].0 == name {
        Some(table[0].1)
    } else {
        lookup(table.drop_first(), name)
    }
}

/// A statement's text re-indented for the function body: every newline
/// gains one following tab.
pub open spec fn indent_text(s: Seq<char>) -> Seq<char>
    decreases s.len(),
{
    if s.len() == 0 {
        Seq::<char>::empty()
    } else {
        indent_text(s.drop_last()) + (if s.last() == '\n' {
            "\n\t"@
        } else {
            seq![s.last()]
        })
    }
}

/// The mathematical model of a [`CodeGenerator`]: the symbol table as a
/// sequence of name/offset pairs in insertion order, the next-free-slot
/// cursor, and the label counter.
pub ghost struct GenModel {
    pub table: Seq<(Seq<char>, int)>,
    pub stack_index: int,
    pub clause_count: nat,
}

/// The state of a fresh generator: empty symbol table, slot cursor and
/// label counter at zero.
pub open spec fn initial_gen() -> GenModel {
    GenModel { table: Seq::<(Seq<char>, int)>::empty(), stack_index: 0, clause_count: 0 }
}

/// Well-formedness of a generator state: the slot cursor starts at zero
/// and only ever decreases without underflowing, and every recorded
/// offset lies at or above it. A fresh generator is well formed, and
/// every generation step preserves well-formedness.
pub open spec fn gen_wf(m: GenModel) -> bool {
    m.stack_index <= 0 && m.stack_index > i128::MIN && (forall|j: int|
        0 <= j < m.table.len() ==> (#[trigger] m.table[j]).1 >= m.stack_index)
}

/// A successful lookup returns one of the table's offsets, so any lower
/// bound on the table's offsets bounds it.
proof fn lemma_lookup_bound(table: Seq<(Seq<char>, int)>, name: Seq<char>, lo: int)
    requires
        forall|j: int| 0 <= j < table.len() ==> (#[trigger] table[j]).1 >= lo,
    ensures
        match lookup(table, name) {
            Some(off) => off >= lo,
            None => true,
        },
    decreases table.len(),
{
    if table.len() > 0 && table[0].0 != name {
        assert(forall|j: int|
            0 <= j < table.drop_first().len() ==> (#[trigger] table.drop_first()[j]).1 >= lo);
        lemma_lookup_bound(table.drop_first(), name, lo);
    }
}

/// The assembly text for an expression, given the symbol table and the
/// label counter, together with the counter afterwards; or the message of
/// the code-generation error.
pub open spec fn gen_exp(table: Seq<(Seq<char>, int)>, c: nat, e: ExprModel) -> Result<
    (Seq<char>, nat),
    Seq<char>,
>
    decreases e,
{
    match e {
        ExprModel::Const(v) => Ok(("mov\t$"@ + dec_int(v) + ", %rax"@, c)),
        ExprModel::Unary { op, exp } => match gen_exp(table, c, *exp) {
            Ok((t1, c1)) => Ok((t1 + "\n"@ + unary_text(op), c1)),
            Err(m) => Err(m),
        },
        ExprModel::Binary { exp1, op, exp2 } => match gen_exp(table, c, *exp1) {
            Ok((t1, c1)) => match gen_exp(table, c1, *exp2) {
                Ok((t2, c2)) => match op {
                    BinaryOperator::And => Ok(
                        (
                            t1 + "\ncmp\t$0, %rax\njne\t"@ + clause_label((c2 + 1) as nat)
                                + "\njmp\t"@ + end_label((c2 + 1) as nat) + "\n"@ + clause_label(
                                (c2 + 1) as nat,
                            ) + ":\n"@ + t2 + "\ncmp\t$0, %rax\nmov\t$0, %rax\nsetne\t%al\n"@
                                + end_label((c2 + 1) as nat) + ":"@,
                            (c2 + 1) as nat,
                        ),
                    ),
                    BinaryOperator::Or => Ok(
                        (
                            t1 + "\ncmp\t$0, %rax\nje\t"@ + clause_label((c2 + 1) as nat)
                                + "\nmov\t$1, %rax\njmp\t"@ + end_label((c2 + 1) as nat) + "\n"@
                                + clause_label((c2 + 1) as nat) + ":\n"@ + t2
                                + "\ncmp\t$0, %rax\nmov\t$0, %rax\nsetne\t%al\n"@ + end_label(
                                (c2 + 1) as nat,
                            ) + ":"@,
                            (c2 + 1) as nat,
                        ),
                    ),
                    _ => Ok(
                        (
                            t1 + "\npush\t%rax\n"@ + t2 + "\npop\t%rcx"@ + "\n"@ + binop_text(op),
                            c2,
                        ),
                    ),
                },
                Err(m) => Err(m),
            },
            Err(m) => Err(m),
        },
        ExprModel::Assign { name, exp } => match lookup(table, name) {
            None => Err("variable not declared "@ + name),
            Some(offset) => match gen_exp(table, c, *exp) {
                Ok((t1, c1)) => Ok((t1 + "\nmov\t%rax, "@ + dec_int(offset) + "(%rbp)"@, c1)),
                Err(m) => Err(m),
            },
        },
        ExprModel::Var { name } => match lookup(table, name) {
            None => Err("variable not declared "@ + name),
            Some(offset) => Ok(("mov\t"@ + dec_int(offset) + "(%rbp), %rax"@, c)),
        },
    }
}

/// The assembly text for a statement, together with the generator state
/// afterwards; or the message of the code-generation error.
pub open spec fn gen_stmt(m: GenModel, s: StmtModel) -> Result<(Seq<char>, GenModel), Seq<char>> {
    match s {
        StmtModel::Return(e) => match gen_exp(m.table, m.clause_count, e) {
            Ok((t1, c1)) => Ok(
                (t1, GenModel { table: m.table, stack_index: m.stack_index, clause_count: c1 }),
            ),
            Err(msg) => Err(msg),
        },
        StmtModel::Exp(e) => match gen_exp(m.table, m.clause_count, e) {
            Ok((t1, c1)) => Ok(
                (t1, GenModel { table: m.table, stack_index: m.stack_index, clause_count: c1 }),
            ),
            Err(msg) => Err(msg),
        },
        StmtModel::Declare { name, exp } => if lookup(m.table, name) is Some {
            Err("re-declaration of variable "@ + name)
        } else {
            match (match exp {
                Some(e) => gen_exp(m.table, m.clause_count, e),
                None => Ok(("mov\t$0, %rax"@, m.clause_count)),
            }) {
                Ok((t1, c1)) => Ok(
                    (
                        t1 + "\npush\t%rax"@,
                        GenModel {
                            table: m.table.push((name, m.stack_index - 8)),
                            stack_index: m.stack_index - 8,
                            clause_count: c1,
                        },
                    ),
                ),
                Err(msg) => Err(msg),
            }
        },
    }
}

/// The joined body text of a function, statement by statement: each
/// statement's text is re-indented, a `return` statement additionally
/// emits the epilogue, and the pieces are joined with a newline and tab.
/// `acc`, `ret_flag` and `first` carry the text joined so far, whether a
/// `return` statement has been seen, and whether no piece has been
/// emitted yet.
pub open spec fn gen_body(
    m: GenModel,
    stmts: Seq<StmtModel>,
    acc: Seq<char>,
    ret_flag: bool,
    first: bool,
) -> Result<(Seq<char>, bool, GenModel), Seq<char>>
    decreases stmts.len(),
{
    if stmts.len() == 0 {
        Ok((acc, ret_flag, m))
    } else {
        match gen_stmt(m, stmts[0]) {
            Ok((t1, m2)) => {
                let piece = indent_text(t1) + (if stmts[0] is Return {
                    "\n\t"@ + epilogue_text()
                } else {
                    Seq::<char>::empty()
                });
                let acc2 = if first {
                    piece
                } else {
                    acc + "\n\t"@ + piece
                };
                gen_body(m2, stmts.drop_first(), acc2, ret_flag || stmts[0] is Return, false)
            },
            Err(msg) => Err(msg),
        }
    }
}

/// The full assembly text for a function: the `.globl` directive and the
/// label, the prologue, the joined body, and — when no statement of the
/// body is a `return` — a final load of zero and the epilogue.
pub open spec fn gen_function(m: GenModel, f: FunModel) -> Result<(Seq<char>, GenModel), Seq<char>> {
    match gen_body(m, f.body, Seq::<char>::empty(), false, true) {
        Ok((body_text, ret_flag, m2)) => {
            let end = if ret_flag {
                Seq::<char>::empty()
            } else {
                "mov\t$0, %rax\n\t"@ + epilogue_text()
            };
            Ok(
                (
                    "\n\t.globl "@ + f.name + "\n"@ + f.name + ":\n\t"@ + prologue_text() + "\n\t"@
                        + body_text + "\n\t"@ + end + "\n"@,
                    m2,
                ),
            )
        },
        Err(msg) => Err(msg),
    }
}

/// The full assembly text for a program.
pub open spec fn gen_program(m: GenModel, p: ProgModel) -> Result<(Seq<char>, GenModel), Seq<char>> {
    gen_function(m, p.func)
}

/// One symbol table entry: a declared variable and its stack-frame offset.
struct SymbolEntry {
    name: String,
    offset: i128,
}

impl DeepView for SymbolEntry {
    type V = (Seq<char>, int);

    closed spec fn deep_view(&self) -> (Seq<char>, int) {
        (self.name@, self.offset as int)
    }
}

/// The code generator: symbol table, next-free-slot cursor, and label
/// counter. One instance serves one generation pass over one program.
pub struct CodeGenerator {
    symbol_table: Vec<SymbolEntry>,
    stack_index: i128,
    clause_count: u128,
}

impl View for CodeGenerator {
    type V = GenModel;

    closed spec fn view(&self) -> GenModel {
        GenModel {
            table: self.symbol_table.deep_view(),
            stack_index: self.stack_index as int,
            clause_count: self.clause_count as nat,
        }
    }
}

impl CodeGenerator {
    /// A fresh generator: empty symbol table, slot cursor and label
    /// counter at zero.
    pub fn new() -> (g: Self)
        ensures
            g@ == initial_gen(),
    {
        let g = CodeGenerator { symbol_table: Vec::new(), stack_index: 0, clause_count: 0 };
        proof {
            assert(g.symbol_table.deep_view() =~= Seq::<(Seq<char>, int)>::empty());
        }
        g
    }

    /// The offset recorded for `name`, if it was ever declared.
    fn find_symbol(&self, name: &String) -> (r: Option<i128>)
        ensures
            match r {
                Some(off) => lookup(self@.table, name@) == Some(off as int),
                None => lookup(self@.table, name@) == None::<int>,
            },
    {
        let mut i: usize = 0;
        let n = self.symbol_table.len();
        proof {
            assert(self@.table.skip(0) =~= self@.table);
        }
        while i < n
            invariant
                i <= n,
                n == self.symbol_table.len(),
                lookup(self@.table, name@) == lookup(self@.table.skip(i as int), name@),
            decreases n - i,
        {
            proof {
                assert(self@.table.skip(i as int)[0] == self@.table[i as int]);
                assert(self@.table.skip(i as int).drop_first() =~= self@.table.skip(i as int + 1));
            }
            if str_eq(self.symbol_table[i].name.as_str(), name.as_str()) {
                return Some(self.symbol_table[i].offset);
            }
            i = i + 1;
        }
        proof {
            assert(self@.table.skip(i as int) =~= Seq::<(Seq<char>, int)>::empty());
        }
        None
    }

    /// Mints the next clause label: advances the counter and renders
    /// `_clause` followed by its new value.
    fn generate_clause(&mut self) -> (r: String)
        requires
            old(self)@.clause_count + 1 <= u128::MAX,
        ensures
            final(self)@.table == old(self)@.table,
            final(self)@.stack_index == old(self)@.stack_index,
            final(self)@.clause_count == old(self)@.clause_count + 1,
            r@ == clause_label(final(self)@.clause_count),
    {
        self.clause_count = self.clause_count + 1;
        let mut s = String::from_str("_clause");
        let digits = u128_to_string(self.clause_count);
        s.append(digits.as_str());
        s
    }

    /// Renders the end label for the current counter value.
    fn generate_end(&self) -> (r: String)
        ensures
            r@ == end_label(self@.clause_count),
    {
        let mut s = String::from_str("_end");
        let digits = u128_to_string(self.clause_count);
        s.append(digits.as_str());
        s
    }

    /// Emits the code evaluating `exp` into `%rax`: exactly the text of
    /// [`gen_exp`] for the current symbol table and label counter.
    fn generate_expression(&mut self, exp: &Expression) -> (r: Result<String, SyntaxError>)
        requires
            gen_wf(old(self)@),
            old(self)@.clause_count + expr_size(exp@) <= u128::MAX,
        ensures
            final(self)@.table == old(self)@.table,
            final(self)@.stack_index == old(self)@.stack_index,
            final(self)@.clause_count <= old(self)@.clause_count + expr_size(exp@),
            match r {
                Ok(t) => gen_exp(old(self)@.table, old(self)@.clause_count, exp@) == Ok::<
                    (Seq<char>, nat),
                    Seq<char>,
                >((t@, final(self)@.clause_count)),
                Err(e) => gen_exp(old(self)@.table, old(self)@.clause_count, exp@) == Err::<
                    (Seq<char>, nat),
                    Seq<char>,
                >(e@.message) && e@.stage == CompilerStage::CodeGenerator,
            },
        decreases *exp,
    {
        match exp {
            Expression::Const(val) => {
                let mut s = String::from_str("mov\t$");
                let digits = i128_to_string(*val as i128);
                s.append(digits.as_str());
                s.append(", %rax");
                Ok(s)
            },
            Expression::Unary { op, exp: inner } => {
                let mut s = match self.generate_expression(&**inner) {
                    Ok(t) => t,
                    Err(e) => {
                        return Err(e);
                    },
                };
                s.append("\n");
                match op {
                    UnaryOperator::Negation => s.append("neg\t%rax"),
                    UnaryOperator::BitwiseComplement => s.append("not\t%rax"),
                    UnaryOperator::LogicalNegation => s.append(
                        "cmp\t$0, %rax\nmov\t$0, %rax\nsete\t%al",
                    ),
                }
                Ok(s)
            },
            Expression::Binary { exp1, op, exp2 } => {
                let t1 = match self.generate_expression(&**exp1) {
                    Ok(t) => t,
                    Err(e) => {
                        return Err(e);
                    },
                };
                let t2 = match self.generate_expression(&**exp2) {
                    Ok(t) => t,
                    Err(e) => {
                        return Err(e);
                    },
                };
                match op {
                    BinaryOperator::And => {
                        let clause_lbl = self.generate_clause();
                        let end_lbl = self.generate_end();
                        let mut s = t1;
                        s.append("\ncmp\t$0, %rax\njne\t");
                        s.append(clause_lbl.as_str());
                        s.append("\njmp\t");
                        s.append(end_lbl.as_str());
                        s.append("\n");
                        s.append(clause_lbl.as_str());
                        s.append(":\n");
                        s.append(t2.as_str());
                        s.append("\ncmp\t$0, %rax\nmov\t$0, %rax\nsetne\t%al\n");
                        s.append(end_lbl.as_str());
                        s.append(":");
                        Ok(s)
                    },
                    BinaryOperator::Or => {
                        let clause_lbl = self.generate_clause();
                        let end_lbl = self.generate_end();
                        let mut s = t1;
                        s.append("\ncmp\t$0, %rax\nje\t");
                        s.append(clause_lbl.as_str());
                        s.append("\nmov\t$1, %rax\njmp\t");
                        s.append(end_lbl.as_str());
                        s.append("\n");
                        s.append(clause_lbl.as_str());
                        s.append(":\n");
                        s.append(t2.as_str());
                        s.append("\ncmp\t$0, %rax\nmov\t$0, %rax\nsetne\t%al\n");
                        s.append(end_lbl.as_str());
                        s.append(":");
                        Ok(s)
                    },
                    _ => {
                        let mut s = t1;
                        s.append("\npush\t%rax\n");
                        s.append(t2.as_str());
                        s.append("\npop\t%rcx");
                        s.append("\n");
                        match op {
                            BinaryOperator::Addition => s.append("add\t%rcx, %rax"),
                            BinaryOperator::Multiplication => s.append("imul\t%rcx, %rax"),
                            BinaryOperator::Minus => s.append("sub\t%rax, %rcx\nmov\t%rcx, %rax"),
                            BinaryOperator::Division => s.append(
                                "mov\t%rax, %rbx\nmov\t%rcx, %rax\ncqo\nidiv\t%rbx",
                            ),
                            BinaryOperator::Equal => s.append(
                                "cmp\t%rax, %rcx\nmov\t$0, %rax\nsete\t%al",
                            ),
                            BinaryOperator::NotEqual => s.append(
                                "cmp\t%rax, %rcx\nmov\t$0, %rax\nsetne\t%al",
                            ),
                            BinaryOperator::LessThan => s.append(
                                "cmp\t%rax, %rcx\nmov\t$0, %rax\nsetl\t%al",
                            ),
                            BinaryOperator::LessThanOrEqual => s.append(
                                "cmp\t%rax, %rcx\nmov\t$0, %rax\nsetle\t%al",
                            ),
                            BinaryOperator::GreaterThan => s.append(
                                "cmp\t%rax, %rcx\nmov\t$0, %rax\nsetg\t%al",
                            ),
                            _ => s.append("cmp\t%rax, %rcx\nmov\t$0, %rax\nsetge\t%al"),
                        }
                        Ok(s)
                    },
                }
            },
            Expression::Assign { name, exp: inner } => {
                match self.find_symbol(name) {
                    None => {
                        let mut msg = String::from_str("variable not declared ");
                        msg.append(name.as_str());
                        Err(SyntaxError::new_codegen_error(msg))
                    },
                    Some(offset) => {
                        let assign_exp = match self.generate_expression(&**inner) {
                            Ok(t) => t,
                            Err(e) => {
                                return Err(e);
                            },
                        };
                        proof {
                            lemma_lookup_bound(old(self)@.table, name@, old(self)@.stack_index);
                        }
                        let mut s = assign_exp;
                        s.append("\nmov\t%rax, ");
                        let digits = i128_to_string(offset);
                        s.append(digits.as_str());
                        s.append("(%rbp)");
                        Ok(s)
                    },
                }
            },
            Expression::Var { name } => {
                match self.find_symbol(name) {
                    None => {
                        let mut msg = String::from_str("variable not declared ");
                        msg.append(name.as_str());
                        Err(SyntaxError::new_codegen_error(msg))
                    },
                    Some(offset) => {
                        proof {
                            lemma_lookup_bound(old(self)@.table, name@, old(self)@.stack_index);
                        }
                        let mut s = String::from_str("mov\t");
                        let digits = i128_to_string(offset);
                        s.append(digits.as_str());
                        s.append("(%rbp), %rax");
                        Ok(s)
                    },
                }
            },
        }
    }

    /// Emits the code for one statement: exactly the text of [`gen_stmt`]
    /// for the current generator state, which it updates in step with the
    /// model. A failing statement declares nothing: the symbol table and
    /// slot cursor are untouched, and a failed declaration of an already
    /// declared name leaves the whole state as it was.
    fn generate_statement(&mut self, st: &Statement) -> (r: Result<String, SyntaxError>)
        requires
            gen_wf(old(self)@),
            old(self)@.clause_count + stmt_size(st@) <= u128::MAX,
            old(self)@.stack_index - 8 > i128::MIN,
        ensures
            gen_wf(final(self)@),
            final(self)@.clause_count <= old(self)@.clause_count + stmt_size(st@),
            final(self)@.stack_index >= old(self)@.stack_index - 8,
            r is Err ==> final(self)@.table == old(self)@.table && final(self)@.stack_index
                == old(self)@.stack_index,
            (match st@ {
                StmtModel::Declare { name, exp: _ } => lookup(old(self)@.table, name) is Some
                    ==> final(self)@ == old(self)@,
                _ => true,
            }),
            match r {
                Ok(t) => gen_stmt(old(self)@, st@) == Ok::<(Seq<char>, GenModel), Seq<char>>(
                    (t@, final(self)@),
                ),
                Err(e) => gen_stmt(old(self)@, st@) == Err::<(Seq<char>, GenModel), Seq<char>>(
                    e@.message,
                ) && e@.stage == CompilerStage::CodeGenerator,
            },
    {
        match st {
            Statement::Return(val) => {
                match self.generate_expression(val) {
                    Ok(t) => Ok(t),
                    Err(e) => Err(e),
                }
            },
            Statement::Exp(val) => self.generate_expression(val),
            Statement::Declare { name, exp } => {
                match self.find_symbol(name) {
                    Some(_) => {
                        let mut msg = String::from_str("re-declaration of variable ");
                        msg.append(name.as_str());
                        Err(SyntaxError::new_codegen_error(msg))
                    },
                    None => {
                        let assembly_exp = match exp {
                            Some(exp_some) => match self.generate_expression(exp_some) {
                                Ok(t) => t,
                                Err(e) => {
                                    return Err(e);
                                },
                            },
                            None => String::from_str("mov\t$0, %rax"),
                        };
                        let ghost pre_table = self@.table;
                        self.stack_index = self.stack_index - 8;
                        self.symbol_table.push(
                            SymbolEntry { name: name.clone(), offset: self.stack_index },
                        );
                        proof {
                            assert(self@.table =~= pre_table.push(
                                (name@, self@.stack_index),
                            ));
                        }
                        let mut s = assembly_exp;
                        s.append("\npush\t%rax");
                        Ok(s)
                    },
                }
            },
        }
    }

    /// Emits the code for one whole function: exactly the text of
    /// [`gen_function`] for the current generator state.
    #[verifier::loop_isolation(false)]
    fn generate_function(&mut self, func: &Function) -> (r: Result<String, SyntaxError>)
        requires
            gen_wf(old(self)@),
            old(self)@.clause_count + fun_size(func@) <= u128::MAX,
            old(self)@.stack_index - 8 * fun_size(func@) > i128::MIN,
        ensures
            gen_wf(final(self)@),
            match r {
                Ok(t) => gen_function(old(self)@, func@) == Ok::<
                    (Seq<char>, GenModel),
                    Seq<char>,
                >((t@, final(self)@)),
                Err(e) => gen_function(old(self)@, func@) == Err::<
                    (Seq<char>, GenModel),
                    Seq<char>,
                >(e@.message) && e@.stage == CompilerStage::CodeGenerator,
            },
    {
        let ghost m0 = self@;
        let ghost stmts = func@.body;
        let mut body_str = String::new();
        let mut return_flag = false;
        let mut i: usize = 0;
        let n = func.body.len();
        proof {
            lemma_body_size_parts(stmts, 0);
            lemma_body_size_ge_len(stmts);
            assert(stmts.skip(0) =~= stmts);
        }
        while i < n
            invariant
                i <= n,
                gen_wf(self@),
                self@.clause_count + body_size(stmts.skip(i as int)) <= m0.clause_count
                    + body_size(stmts),
                self@.stack_index >= m0.stack_index - 8 * i,
                gen_body(m0, stmts, Seq::<char>::empty(), false, true) == gen_body(
                    self@,
                    stmts.skip(i as int),
                    body_str@,
                    return_flag,
                    i == 0,
                ),
            decreases n - i,
        {
            proof {
                assert(stmts.skip(i as int)[0] == stmts[i as int]);
                assert(stmts.skip(i as int).drop_first() =~= stmts.skip(i as int + 1));
                lemma_body_size_parts(stmts, i as int);
                lemma_body_size_ge_len(stmts.skip(i as int));
            }
            let ghost m_before = self@;
            let ghost acc_before = body_str@;
            let ghost flag_before = return_flag;
            let piece = match self.generate_statement(&func.body[i]) {
                Ok(t) => t,
                Err(e) => {
                    return Err(e);
                },
            };
            let ghost t1 = piece@;
            let mut piece_ind = indent_newlines(piece.as_str());
            let is_ret = matches!(&func.body[i], Statement::Return(_));
            if is_ret {
                piece_ind.append("\n\t");
                piece_ind.append("mov\t%rbp, %rsp\n\tpop\t%rbp\n\tret\n");
                return_flag = true;
            }
            proof {
                if is_ret {
                    assert(piece_ind@ =~= indent_text(t1) + ("\n\t"@ + epilogue_text()));
                } else {
                    assert(piece_ind@ =~= indent_text(t1) + Seq::<char>::empty());
                }
            }
            if i == 0 {
                body_str = piece_ind;
            } else {
                body_str.append("\n\t");
                body_str.append(piece_ind.as_str());
                proof {
                    assert(body_str@ =~= acc_before + "\n\t"@ + piece_ind@);
                }
            }
            i = i + 1;
        }
        proof {
            assert(stmts.skip(n as int) =~= Seq::<StmtModel>::empty());
        }
        let mut out = String::from_str("\n\t.globl ");
        out.append(func.name.as_str());
        out.append("\n");
        out.append(func.name.as_str());
        out.append(":\n\t");
        out.append("push\t%rbp\n\tmov\t%rsp, %rbp");
        out.append("\n\t");
        out.append(body_str.as_str());
        out.append("\n\t");
        if !return_flag {
            out.append("mov\t$0, %rax\n\t");
            out.append("mov\t%rbp, %rsp\n\tpop\t%rbp\n\tret\n");
        }
        out.append("\n");
        proof {
            if return_flag {
                assert(out@ =~= "\n\t.globl "@ + func@.name + "\n"@ + func@.name + ":\n\t"@
                    + prologue_text() + "\n\t"@ + body_str@ + "\n\t"@ + Seq::<char>::empty()
                    + "\n"@);
            } else {
                assert(out@ =~= "\n\t.globl "@ + func@.name + "\n"@ + func@.name + ":\n\t"@
                    + prologue_text() + "\n\t"@ + body_str@ + "\n\t"@ + ("mov\t$0, %rax\n\t"@
                    + epilogue_text()) + "\n"@);
            }
        }
        Ok(out)
    }

    /// Runs one generation pass over a program and returns its assembly
    /// text: exactly the text of [`gen_program`] for the current state.
    /// The counter widths bound the size of the program one pass can
    /// serve, hence the two arithmetic preconditions; both hold for any
    /// tree a scanner-backed parse can produce on a fresh generator.
    pub fn generate(&mut self, root: &Program) -> (r: Result<String, SyntaxError>)
        requires
            gen_wf(old(self)@),
            old(self)@.clause_count + prog_size(root@) <= u128::MAX,
            old(self)@.stack_index - 8 * prog_size(root@) > i128::MIN,
        ensures
            gen_wf(final(self)@),
            match r {
                Ok(t) => gen_program(old(self)@, root@) == Ok::<
                    (Seq<char>, GenModel),
                    Seq<char>,
                >((t@, final(self)@)),
                Err(e) => gen_program(old(self)@, root@) == Err::<
                    (Seq<char>, GenModel),
                    Seq<char>,
                >(e@.message) && e@.stage == CompilerStage::CodeGenerator,
            },
    {
        self.generate_function(&root.func)
    }
}

/// Every statement has at least one node, so a body has at least as many
/// nodes as statements.
proof fn lemma_body_size_ge_len(stmts: Seq<StmtModel>)
    ensures
        body_size(stmts) >= stmts.len(),
    decreases stmts.len(),
{
    if stmts.len() > 0 {
        lemma_body_size_ge_len(stmts.drop_first());
    }
}

/// Splitting a statement sequence at `i` splits its size.
proof fn lemma_body_size_parts(stmts: Seq<StmtModel>, i: int)
    requires
        0 <= i <= stmts.len(),
    ensures
        i < stmts.len() ==> body_size(stmts.skip(i)) == stmt_size(stmts[i]) + body_size(
            stmts.skip(i + 1),
        ),
        body_size(stmts.skip(i)) <= body_size(stmts),
    decreases i,
{
    if i < stmts.len() {
        assert(stmts.skip(i)[0] == stmts[i]);
        assert(stmts.skip(i).drop_first() =~= stmts.skip(i + 1));
    }
    if i > 0 {
        lemma_body_size_parts(stmts, i - 1);
        assert(stmts.skip(i - 1)[0] == stmts[i - 1]);
        assert(stmts.skip(i - 1).drop_first() =~= stmts.skip(i));
    } else {
        assert(stmts.skip(0) =~= stmts);
    }
}

/// Re-indents a statement's text: every newline gains one following tab.
fn indent_newlines(s: &str) -> (r: String)
    ensures
        r@ == indent_text(s@),
{
    let n = s.unicode_len();
    let mut out = String::new();
    let mut i: usize = 0;
    while i < n
        invariant
            i <= n,
            n == s@.len(),
            out@ == indent_text(s@.subrange(0, i as int)),
        decreases n - i,
    {
        let c = s.get_char(i);
        proof {
            assert(s@.subrange(0, i as int + 1).drop_last() =~= s@.subrange(0, i as int));
            assert(s@.subrange(0, i as int + 1).last() == s@[i as int]);
        }
        if c == '\n' {
            out.append("\n\t");
        } else {
            out.push(c);
            proof {
                assert(indent_text(s@.subrange(0, i as int)).push(c) =~= indent_text(
                    s@.subrange(0, i as int),
                ) + seq![c]);
            }
        }
        i = i + 1;
    }
    proof {
        assert(s@.subrange(0, n as int) =~= s@);
    }
    out
}

} // verus!
