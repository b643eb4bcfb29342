//! The front end: lowers the syntax tree of a program to the intermediate representation.

use vstd::prelude::*;
use vstd::string::*;

use super::hir::{hir_views, typed, Hir, HirMeta, HirMetaView, HirView};
use super::laws::{lemma_type_is_kept, lowering_is_sound};
use super::lowering::{
    arithmetic, convert, declare, infer, is_arithmetic, lower, lower_arithmetic, lower_assignment,
    lower_literal, resolve, second_pass, Inferred, Lowered, Program, State,
};
use super::report::{
    make_count_overflow, make_invalid_expression, make_invalid_target, make_invalid_value,
    make_type_mismatch, make_undeclared_variable, make_undefined_variable,
    make_unsupported_expression, make_unsupported_statement, make_wrong_value_type,
};
use super::symbols::SymbolTable;
use super::types::FlycatcherType;
use super::var::VariableType;
use crate::ast::{views, Ast, AstMeta, Opcode};
use crate::diagnostic::{diagnostic_views, Diagnostic, DiagnosticView};

verus! {

/// What the first pass finds out of the value of an assignment.
pub enum Inference {
    /// The value has this type.
    Type(FlycatcherType),
    /// The value is at fault, and this is the diagnostic.
    Fault(Diagnostic),
    /// The value is of a kind that has no type.
    Unknown,
}

impl Inference {
    /// The mathematical value of the finding.
    pub open spec fn view(&self) -> Inferred {
        match self {
            Inference::Type(t) => Inferred::Type(*t),
            Inference::Fault(d) => Inferred::Fault(d@),
            Inference::Unknown => Inferred::Unknown,
        }
    }
}

/// The value of a node that may be missing.
pub open spec fn optional_view(node: Option<HirMeta>) -> Option<HirMetaView> {
    match node {
        Some(h) => Some(h@),
        None => None,
    }
}

/// The front end of the compiler for one source file. It holds what it hands to a back
/// end: the lowered program, the symbol table and the diagnostics.
#[derive(Debug)]
pub struct FlycatcherFrontend<'a> {
    /// The name of the file.
    pub filename: &'a str,
    /// The text of the file.
    pub source: &'a str,
    /// The diagnostics reported while lowering.
    pub diagnostics: Vec<Diagnostic>,
    /// The lowered program, one item for each statement. It is of use only if lowering was
    /// successful.
    pub hir: Vec<HirMeta<'a>>,
    /// The variables of the program.
    pub symbols: SymbolTable,
    /// Whether nothing has been reported.
    pub successful: bool,
}

impl<'a> FlycatcherFrontend<'a> {
    /// The state of lowering.
    pub open spec fn state(&self) -> State {
        State {
            symbols: self.symbols@,
            errors: diagnostic_views(self.diagnostics@),
            ok: self.successful,
        }
    }

    /// The lowered program.
    pub open spec fn program(&self) -> Seq<HirMetaView> {
        hir_views(self.hir@)
    }

    /// No name occurs twice in the symbol table.
    pub open spec fn wf(&self) -> bool {
        self.symbols.wf()
    }

    /// The front end is at work on the same file as `before`, with the same program
    /// lowered.
    pub open spec fn keeps(&self, before: &Self) -> bool {
        &&& self.wf()
        &&& self.filename == before.filename
        &&& self.source == before.source
        &&& self.hir == before.hir
    }

    /// A front end for the file `filename` with the text `source`: nothing lowered, no
    /// variables, no diagnostics.
    pub fn new(filename: &'a str, source: &'a str) -> (r: Self)
        ensures
            r.wf(),
            r.filename == filename,
            r.source == source,
            r.successful,
            r.program() == Seq::<HirMetaView>::empty(),
            r.state() == (State { symbols: Map::empty(), errors: Seq::empty(), ok: true }),
    {
        let r = FlycatcherFrontend {
            filename,
            source,
            diagnostics: Vec::new(),
            hir: Vec::new(),
            symbols: SymbolTable::new(),
            successful: true,
        };
        assert(r.program() =~= Seq::<HirMetaView>::empty());
        assert(r.state().errors =~= Seq::<DiagnosticView>::empty());
        r
    }

    /// Whether lowering has reported nothing.
    pub fn successful(&self) -> (r: bool)
        ensures
            r == self.successful,
    {
        self.successful
    }

    /// Reports `diagnostic` and marks the front end unsuccessful.
    pub(crate) fn fail(&mut self, diagnostic: Diagnostic)
        requires
            old(self).wf(),
        ensures
            final(self).keeps(old(self)),
            final(self).state() == old(self).state().fail(diagnostic@),
    {
        self.diagnostics.push(diagnostic);
        self.successful = false;
        assert(self.state().errors =~= old(self).state().errors.push(diagnostic@));
    }

    /// Reports `diagnostic` if nothing was reported before.
    pub(crate) fn flag(&mut self, diagnostic: Diagnostic)
        requires
            old(self).wf(),
        ensures
            final(self).keeps(old(self)),
            final(self).state() == old(self).state().flag(diagnostic@),
    {
        if self.successful {
            self.fail(diagnostic);
        }
    }

    /// Lowers a literal.
    ///
    /// A boolean, an integer, a floating point number and a string become the item of
    /// their kind. A name has to be that of a variable with a value: it becomes a
    /// reference, and the count of the variable goes up by one. A name that no statement
    /// declares, and one that has no value yet, is reported. For a node that is no
    /// literal the result is `None` and nothing changes.
    pub fn ast_literal(&mut self, ast: &AstMeta) -> (r: Option<HirMeta<'a>>)
        requires
            old(self).wf(),
        ensures
            final(self).keeps(old(self)),
            (Lowered { hir: optional_view(r), state: final(self).state() }) == lower_literal(
                ast@,
                old(self).state(),
                old(self).filename@,
            ),
    {
        let range = ast.range.start..ast.range.end;
        match &ast.item {
            Ast::BooleanLiteral(b) => Some(HirMeta::new(range, self.filename, Hir::Boolean(*b))),
            Ast::IntegerLiteral(i) => {
                let item = if *i <= i64::MAX as u64 {
                    Hir::Integer(*i as i64)
                } else {
                    Hir::UnsignedInteger(*i)
                };
                Some(HirMeta::new(range, self.filename, item))
            },
            Ast::FloatLiteral(t) => Some(HirMeta::new(range, self.filename, Hir::Float(t.clone()))),
            Ast::StringLiteral(t) => Some(
                HirMeta::new(range, self.filename, Hir::NullString(t.clone())),
            ),
            Ast::IdentifierLiteral(n) => {
                match self.symbols.get(n.as_str()) {
                    None => {
                        self.fail(make_undeclared_variable(&range));
                        None
                    },
                    Some(VariableType::Declared(_)) => {
                        self.fail(make_undefined_variable(&range));
                        None
                    },
                    Some(VariableType::Defined(t, count, index)) => {
                        if count == usize::MAX {
                            self.fail(make_count_overflow(&range));
                            None
                        } else {
                            self.symbols.insert(n.clone(), VariableType::Defined(t, count + 1, index));
                            Some(HirMeta::new(range, self.filename, Hir::Named(n.clone())))
                        }
                    },
                }
            },
            _ => None,
        }
    }

    /// Forms the arithmetic item of two lowered operands, which have to be of one type.
    pub(crate) fn finish_arithmetic(
        &mut self,
        ast: &AstMeta,
        op: Opcode,
        a: HirMeta<'a>,
        b: HirMeta<'a>,
    ) -> (r: Option<HirMeta<'a>>)
        requires
            old(self).wf(),
            is_arithmetic(op),
            typed(a@.item, old(self).symbols@),
            typed(b@.item, old(self).symbols@),
        ensures
            final(self).keeps(old(self)),
            (Lowered { hir: optional_view(r), state: final(self).state() }) == lower_arithmetic(
                ast@,
                op,
                a@,
                b@,
                old(self).state(),
                old(self).filename@,
            ),
    {
        let left = a.item.get_type(&self.symbols);
        let right = b.item.get_type(&self.symbols);
        if left != right {
            self.fail(make_type_mismatch(left, right, &a.range, &b.range, &ast.range));
            None
        } else {
            let range = ast.range.start..ast.range.end;
            let item = match op {
                Opcode::Plus => Hir::Add(Box::new(a), Box::new(b)),
                Opcode::Minus => Hir::Subtract(Box::new(a), Box::new(b)),
                Opcode::Asterisk => Hir::Multiply(Box::new(a), Box::new(b)),
                _ => Hir::Divide(Box::new(a), Box::new(b)),
            };
            Some(HirMeta::new(range, self.filename, item))
        }
    }

    /// Forms the assignment of the lowered value `v` to the variable `n`.
    pub(crate) fn finish_assignment(
        &mut self,
        ast: &AstMeta,
        target: &AstMeta,
        n: &String,
        v: HirMeta<'a>,
    ) -> (r: Option<HirMeta<'a>>)
        requires
            old(self).wf(),
            typed(v@.item, old(self).symbols@),
        ensures
            final(self).keeps(old(self)),
            (Lowered { hir: optional_view(r), state: final(self).state() }) == lower_assignment(
                ast@,
                target@,
                n@,
                v@,
                old(self).state(),
                old(self).hir@.len() as usize,
                old(self).filename@,
            ),
    {
        match self.symbols.get(n.as_str()) {
            None => {
                self.fail(make_undeclared_variable(&target.range));
                None
            },
            Some(variable) => {
                let wanted = variable.get_type();
                let found = v.item.get_type(&self.symbols);
                if found != wanted {
                    self.fail(make_wrong_value_type(wanted, found, &v.range, &ast.range));
                    None
                } else {
                    let index = self.hir.len();
                    self.symbols.insert(n.clone(), VariableType::Defined(wanted, 0, index));
                    let name = HirMeta::new(
                        target.range.start..target.range.end,
                        self.filename,
                        Hir::Named(n.clone()),
                    );
                    let node = HirMeta::new(
                        ast.range.start..ast.range.end,
                        self.filename,
                        Hir::Assign(Box::new(name), Box::new(v)),
                    );
                    proof {
                        let expected = lower_assignment(
                            ast@,
                            target@,
                            n@,
                            v@,
                            old(self).state(),
                            old(self).hir@.len() as usize,
                            old(self).filename@,
                        );
                        assert(expected.state == self.state());
                        assert(node@.item == HirView::Assign(Box::new(name@), Box::new(v@)));
                    }
                    Some(node)
                }
            },
        }
    }

    /// Lowers an expression.
    ///
    /// A literal is lowered as `ast_literal` does. An arithmetic expression becomes the
    /// item of its operator, after both operands are lowered and found to be of one type.
    /// An assignment to a name becomes an `Assign`: the value has to be of the type with
    /// which the variable is declared, and the variable is defined by it. Every fault is
    /// reported, and then the result is `None`, as it is for a node that has no lowering.
    pub fn ast_expression(&mut self, ast: &AstMeta) -> (r: Option<HirMeta<'a>>)
        requires
            old(self).wf(),
        ensures
            final(self).keeps(old(self)),
            (Lowered { hir: optional_view(r), state: final(self).state() }) == lower(
                ast@,
                old(self).state(),
                old(self).hir@.len() as usize,
                old(self).filename@,
            ),
        decreases ast,
    {
        let ghost st = self.state();
        let ghost index = self.hir@.len() as usize;
        let ghost file = self.filename@;
        let first = self.ast_literal(ast);
        if first.is_some() || !self.successful {
            return first;
        }
        match &ast.item {
            Ast::BinaryExpr(op, l, r) => {
                if *op == Opcode::Plus || *op == Opcode::Minus || *op == Opcode::Asterisk || *op
                    == Opcode::Slash {
                    let ghost s0 = self.state();
                    let a = match self.ast_expression(l) {
                        Some(a) => a,
                        None => {
                            self.flag(make_invalid_expression(&ast.range));
                            return None;
                        },
                    };
                    let ghost s1 = self.state();
                    let b = match self.ast_expression(r) {
                        Some(b) => b,
                        None => {
                            self.flag(make_invalid_expression(&ast.range));
                            return None;
                        },
                    };
                    proof {
                        lowering_is_sound(l@, s0, index, file);
                        lowering_is_sound(r@, s1, index, file);
                        lemma_type_is_kept(a@.item, s1.symbols, self.state().symbols);
                    }
                    self.finish_arithmetic(ast, *op, a, b)
                } else if *op == Opcode::Equals {
                    match &l.item {
                        Ast::IdentifierLiteral(n) => {
                            let ghost s0 = self.state();
                            let v = match self.ast_expression(r) {
                                Some(v) => v,
                                None => {
                                    self.flag(make_invalid_expression(&ast.range));
                                    return None;
                                },
                            };
                            proof {
                                lowering_is_sound(r@, s0, index, file);
                            }
                            self.finish_assignment(ast, l, n, v)
                        },
                        _ => {
                            self.fail(make_invalid_target(&l.range));
                            None
                        },
                    }
                } else {
                    self.fail(make_unsupported_expression(&ast.range));
                    None
                }
            },
            _ => None,
        }
    }

    /// Finds the type that an expression will have when it is lowered. The symbol table is
    /// left as it is, and no reference is counted.
    pub fn infer_type(&self, ast: &AstMeta) -> (r: Inference)
        requires
            self.wf(),
        ensures
            r@ == infer(ast@, self.symbols@),
        decreases ast,
    {
        match &ast.item {
            Ast::BooleanLiteral(_) => Inference::Type(FlycatcherType::Boolean),
            Ast::IntegerLiteral(i) => Inference::Type(
                if *i <= i64::MAX as u64 {
                    FlycatcherType::Size
                } else {
                    FlycatcherType::Usize
                },
            ),
            Ast::FloatLiteral(_) => Inference::Type(FlycatcherType::Float64),
            Ast::StringLiteral(_) => Inference::Type(FlycatcherType::NullString),
            Ast::IdentifierLiteral(n) => match self.symbols.get(n.as_str()) {
                Some(v) => Inference::Type(v.get_type()),
                None => Inference::Fault(make_undeclared_variable(&ast.range)),
            },
            Ast::BinaryExpr(op, l, r) => {
                if *op == Opcode::Plus || *op == Opcode::Minus || *op == Opcode::Asterisk || *op
                    == Opcode::Slash {
                    let left = match self.infer_type(l) {
                        Inference::Type(t) => t,
                        Inference::Fault(d) => {
                            return Inference::Fault(d);
                        },
                        Inference::Unknown => {
                            return Inference::Fault(make_invalid_expression(&ast.range));
                        },
                    };
                    let right = match self.infer_type(r) {
                        Inference::Type(t) => t,
                        Inference::Fault(d) => {
                            return Inference::Fault(d);
                        },
                        Inference::Unknown => {
                            return Inference::Fault(make_invalid_expression(&ast.range));
                        },
                    };
                    if left != right {
                        Inference::Fault(make_type_mismatch(left, right, &l.range, &r.range, &ast.range))
                    } else {
                        Inference::Type(left)
                    }
                } else if *op == Opcode::Equals {
                    match &l.item {
                        Ast::IdentifierLiteral(n) => {
                            let found = match self.infer_type(r) {
                                Inference::Type(t) => t,
                                Inference::Fault(d) => {
                                    return Inference::Fault(d);
                                },
                                Inference::Unknown => {
                                    return Inference::Fault(make_invalid_expression(&ast.range));
                                },
                            };
                            match self.symbols.get(n.as_str()) {
                                None => Inference::Fault(make_undeclared_variable(&l.range)),
                                Some(v) => {
                                    let wanted = v.get_type();
                                    if found != wanted {
                                        Inference::Fault(
                                            make_wrong_value_type(wanted, found, &r.range, &ast.range),
                                        )
                                    } else {
                                        Inference::Type(found)
                                    }
                                },
                            }
                        },
                        _ => Inference::Fault(make_invalid_target(&l.range)),
                    }
                } else {
                    Inference::Fault(make_unsupported_expression(&ast.range))
                }
            },
            _ => Inference::Unknown,
        }
    }

    /// The first pass over one statement.
    pub(crate) fn declare_symbol(&mut self, item: &AstMeta)
        requires
            old(self).wf(),
        ensures
            final(self).keeps(old(self)),
            final(self).state() == declare(item@, old(self).state()),
    {
        match &item.item {
            Ast::BinaryExpr(op, l, r) => {
                assert(item@.item == crate::ast::AstView::BinaryExpr(*op, Box::new(l@), Box::new(r@)));
                if *op != Opcode::Equals {
                    return ;
                }
                match &l.item {
                    Ast::IdentifierLiteral(n) => {
                        assert(l@.item == crate::ast::AstView::IdentifierLiteral(n@));
                        if self.symbols.contains_key(n.as_str()) {
                            return ;
                        }
                        match self.infer_type(r) {
                            Inference::Type(t) => {
                                self.symbols.insert(n.clone(), VariableType::Declared(t));
                            },
                            Inference::Fault(d) => {
                                self.fail(d);
                            },
                            Inference::Unknown => {
                                self.fail(make_invalid_value(&r.range));
                            },
                        }
                    },
                    _ => {
                        self.fail(make_invalid_target(&l.range));
                    },
                }
            },
            _ => {},
        }
    }

    /// The first pass: declares the variable of every assignment among the statements,
    /// with the type of the value assigned. A name that is declared already keeps its
    /// declaration. The pass stops at the first statement that is reported.
    pub fn resolve_symbols(&mut self, ast: &Vec<AstMeta>)
        requires
            old(self).wf(),
        ensures
            final(self).keeps(old(self)),
            final(self).state() == resolve(views(ast@), 0, old(self).state()),
    {
        let mut i: usize = 0;
        while i < ast.len() && self.successful
            invariant
                i <= ast@.len(),
                self.keeps(old(self)),
                resolve(views(ast@), 0, old(self).state()) == resolve(views(ast@), i as int, self.state()),
            decreases ast@.len() - i,
        {
            self.declare_symbol(&ast[i]);
            i = i + 1;
        }
    }

    /// Lowers a program: the first pass over all statements, and then, if nothing was
    /// reported, the second, which appends one item to the lowered program for each
    /// statement. Lowering stops at the first statement that has no lowering, and reports
    /// it if nothing else was reported.
    pub fn convert(&mut self, ast: Vec<AstMeta>)
        requires
            old(self).wf(),
        ensures
            final(self).wf(),
            final(self).filename == old(self).filename,
            final(self).source == old(self).source,
            (Program { hir: final(self).program(), state: final(self).state() }) == convert(
                views(ast@),
                old(self).program(),
                old(self).state(),
                old(self).filename@,
            ),
    {
        let ghost nodes = views(ast@);
        let ghost file = self.filename@;
        self.resolve_symbols(&ast);
        if !self.successful {
            return ;
        }
        let ghost declared = self.state();
        let ghost start = self.program();
        let mut i: usize = 0;
        while i < ast.len()
            invariant
                i <= ast@.len(),
                self.wf(),
                self.filename == old(self).filename,
                self.source == old(self).source,
                nodes == views(ast@),
                file == self.filename@,
                declared == resolve(nodes, 0, old(self).state()),
                declared.ok,
                start == old(self).program(),
                second_pass(nodes, 0, start, declared, file) == second_pass(
                    nodes,
                    i as int,
                    self.program(),
                    self.state(),
                    file,
                ),
            decreases ast@.len() - i,
        {
            let ghost before = self.program();
            let ghost st = self.state();
            let count = self.hir.len();
            assert(nodes[i as int] == ast@[i as int]@);
            assert(before.len() == count);
            match self.ast_expression(&ast[i]) {
                Some(h) => {
                    self.hir.push(h);
                    assert(self.program() =~= before.push(h@));
                },
                None => {
                    self.flag(make_unsupported_statement(&ast[i].range));
                    return ;
                },
            }
            i = i + 1;
        }
    }
}

} // verus!
