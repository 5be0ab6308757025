//! The contexts that own the arenas: one for a module, one for each function.

use crate::ast::tree::Syntax;
use crate::ast::unit::CompilationUnitMember;
use crate::hir::arena::{
    arena_get, arena_len, expr_items, function_items, new_expr_arena, new_function_arena,
    new_statement_arena, new_variable_arena, statement_items, store, variable_items,
    InterningArena,
};
use crate::hir::nodes::{
    ExprNode, HirExpr, HirExprId, HirFunctionHeader, HirFunctionId, HirStatement, HirStatementId,
    HirString, HirStringId, HirVariable, HirVariableId, StatementNode,
};
use crate::hir::sym::{declared, pushed, SymbolTable};
use crate::span::{Span, Spanned};
use vstd::prelude::*;

verus! {

/// Why lowering failed.
#[derive(Clone, Copy, Debug, PartialEq, Eq, Structural)]
pub enum LowerError {
    /// The name is declared twice in one scope; the span is that of the
    /// second declaration.
    DuplicateDeclaration { name: HirStringId, span: Span },
    /// An arena holds as many items as there are handles.
    OutOfHandles,
}

/// What a step of lowering yields: what it made, or why it failed.
pub type LowerResult<T> = Result<T, LowerError>;

/// The mathematical value of a module context.
pub ghost struct ModuleView {
    /// The interned strings, in the order of their handles.
    pub strings: Seq<Seq<u8>>,
    /// The function headers, in the order of their handles.
    pub functions: Seq<HirFunctionHeader>,
    /// The functions that are declared, by the handle of their name.
    pub table: Seq<Map<u32, HirFunctionId>>,
}

/// What belongs to one module: the interned strings and the table of
/// functions, which all functions of the module share.
#[derive(Debug)]
pub struct HirModuleContext {
    pub(crate) string_interner: InterningArena,
    pub(crate) function_table: SymbolTable<u32, HirFunctionId>,
    pub(crate) function_arena: la_arena::Arena<HirFunctionHeader>,
}

impl View for HirModuleContext {
    type V = ModuleView;

    closed spec fn view(&self) -> ModuleView {
        ModuleView {
            strings: self.string_interner.strings(),
            functions: function_items(self.function_arena),
            table: self.function_table.frames(),
        }
    }
}

impl ModuleView {
    /// No string is interned twice, every string can be named by a handle,
    /// and the table of functions has its one scope.
    pub open spec fn wf(self) -> bool {
        &&& crate::hir::arena::distinct(self.strings)
        &&& self.strings.len() <= u32::MAX + 1
        &&& self.table.len() == 1
    }

    /// The state after `text` was interned, and the handle of `text`; or
    /// `None` where `text` is new and no handle is left.
    pub open spec fn intern(self, text: Seq<u8>) -> Option<(ModuleView, HirStringId)> {
        let place = crate::hir::arena::place_of(self.strings, text);
        if place == self.strings.len() && place > u32::MAX {
            None
        } else {
            Some(
                (
                    ModuleView { strings: crate::hir::arena::interned(self.strings, text), ..self },
                    HirStringId { raw: place as u32 },
                ),
            )
        }
    }

    /// The state after the function `name` was registered: its name is
    /// interned, its header stored and declared under the name.
    pub open spec fn register(self, name: Seq<u8>, span: Span) -> (ModuleView, LowerResult<
        HirFunctionId,
    >) {
        match self.intern(name) {
            None => (self, Err(LowerError::OutOfHandles)),
            Some((named, id)) => if named.functions.len() > u32::MAX {
                (named, Err(LowerError::OutOfHandles))
            } else {
                let handle = HirFunctionId { raw: named.functions.len() as u32 };
                let stored = ModuleView {
                    functions: named.functions.push(HirFunctionHeader { name: id }),
                    ..named
                };
                match declared(stored.table, id.raw, handle) {
                    None => (
                        stored,
                        Err(LowerError::DuplicateDeclaration { name: id, span }),
                    ),
                    Some(table) => (ModuleView { table, ..stored }, Ok(handle)),
                }
            },
        }
    }

    /// The state after the functions among the first `count` of `members`
    /// were registered in order, up to the first that fails.
    pub open spec fn pre_scan(self, members: Seq<Spanned<CompilationUnitMember>>, count: int) -> (
        ModuleView,
        LowerResult<()>,
    )
        decreases count,
    {
        if count <= 0 {
            (self, Ok(()))
        } else {
            let (before, result) = self.pre_scan(members, count - 1);
            if result is Err {
                (before, result)
            } else {
                match members[count - 1].value {
                    CompilationUnitMember::Function(decl) => {
                        let (after, registered) = before.register(
                            decl.name.value.value@,
                            decl.name.span,
                        );
                        match registered {
                            Ok(_) => (after, Ok(())),
                            Err(error) => (after, Err(error)),
                        }
                    },
                    _ => (before, Ok(())),
                }
            }
        }
    }
}

impl HirModuleContext {
    /// A module without strings and functions.
    pub fn new() -> (module: Self)
        ensures
            module@.wf(),
            module@.strings == Seq::<Seq<u8>>::empty(),
            module@.functions == Seq::<HirFunctionHeader>::empty(),
            module@.table == seq![Map::<u32, HirFunctionId>::empty()],
    {
        let mut function_table = SymbolTable::new();
        function_table.push();
        let module = HirModuleContext {
            string_interner: InterningArena::new(),
            function_table,
            function_arena: new_function_arena(),
        };
        assert(module@.table =~= seq![Map::<u32, HirFunctionId>::empty()]);
        module
    }

    /// Interns a string.
    pub fn intern(&mut self, text: Vec<u8>) -> (id: LowerResult<HirStringId>)
        requires
            old(self)@.wf(),
        ensures
            final(self)@.wf(),
            match id {
                Ok(id) => old(self)@.intern(text@) == Some((final(self)@, id)),
                Err(error) => old(self)@.intern(text@) is None && final(self)@ == old(self)@
                    && error == LowerError::OutOfHandles,
            },
            final(self)@.functions == old(self)@.functions,
            final(self)@.table == old(self)@.table,
            old(self)@.strings.len() <= final(self)@.strings.len(),
            forall|i: int|
                0 <= i < old(self)@.strings.len() ==> final(self)@.strings[i] == old(
                    self,
                )@.strings[i],
            id matches Ok(id) ==> id.raw < final(self)@.strings.len(),
    {
        proof {
            crate::hir::arena::lemma_interned(self@.strings, text@);
            crate::hir::arena::lemma_place_of(self@.strings, text@);
        }
        match self.string_interner.intern(text) {
            Some(id) => Ok(id),
            None => Err(LowerError::OutOfHandles),
        }
    }

    /// The string behind a handle of this module.
    pub fn get_string(&self, id: HirStringId) -> (text: &HirString)
        requires
            id.raw < self@.strings.len(),
        ensures
            text@ == self@.strings[id.raw as int],
    {
        self.string_interner.get(id)
    }

    /// The header behind a handle of this module.
    pub fn get_function(&self, id: HirFunctionId) -> (header: &HirFunctionHeader)
        requires
            id.raw < self@.functions.len(),
        ensures
            *header == self@.functions[id.raw as int],
    {
        arena_get(&self.function_arena, id.raw)
    }

    /// The string behind a handle, if the handle is one of this module.
    pub fn find_string(&self, id: HirStringId) -> (text: Option<&HirString>)
        ensures
            text is Some == (id.raw < self@.strings.len()),
            text matches Some(text) ==> text@ == self@.strings[id.raw as int],
    {
        if (id.raw as usize) < self.string_interner.len() {
            Some(self.string_interner.get(id))
        } else {
            None
        }
    }

    /// The header behind a handle, if the handle is one of this module.
    pub fn find_function(&self, id: HirFunctionId) -> (header: Option<&HirFunctionHeader>)
        ensures
            header is Some == (id.raw < self@.functions.len()),
            header matches Some(header) ==> *header == self@.functions[id.raw as int],
    {
        if (id.raw as usize) < arena_len(&self.function_arena) {
            Some(arena_get(&self.function_arena, id.raw))
        } else {
            None
        }
    }

    /// The function that is declared under a name, if one is.
    pub fn lookup_function(&self, name: HirStringId) -> (found: Option<HirFunctionId>)
        ensures
            found == crate::hir::sym::resolved(self@.table, name.raw),
    {
        match self.function_table.lookup(&name.raw) {
            Some(id) => Some(*id),
            None => None,
        }
    }

    /// Registers a function under its name.
    pub fn register(&mut self, name: Vec<u8>, span: Span) -> (result: LowerResult<HirFunctionId>)
        requires
            old(self)@.wf(),
        ensures
            final(self)@.wf(),
            old(self)@.register(name@, span) == (final(self)@, result),
    {
        let id = match self.intern(name) {
            Ok(id) => id,
            Err(error) => {
                return Err(error);
            },
        };
        let raw = match store(&mut self.function_arena, HirFunctionHeader { name: id }) {
            Some(raw) => raw,
            None => {
                return Err(LowerError::OutOfHandles);
            },
        };
        let handle = HirFunctionId { raw };
        match self.function_table.declare(id.raw, handle) {
            Ok(_) => Ok(handle),
            Err(_) => Err(LowerError::DuplicateDeclaration { name: id, span }),
        }
    }

    /// Registers every function among `members`, in order, before any body
    /// is lowered, so that a function can be referred to before its
    /// declaration. Stops at the first function that cannot be registered.
    pub fn pre_scan(&mut self, members: &Vec<Spanned<CompilationUnitMember>>) -> (result:
        LowerResult<()>)
        requires
            old(self)@.wf(),
        ensures
            final(self)@.wf(),
            old(self)@.pre_scan(members@, members@.len() as int) == (final(self)@, result),
    {
        let ghost start = self@;
        let mut i: usize = 0;
        while i < members.len()
            invariant
                i <= members@.len(),
                self@.wf(),
                start == old(self)@,
                start.pre_scan(members@, i as int) == (self@, Ok::<(), LowerError>(())),
            decreases members@.len() - i,
        {
            match &members[i].value {
                CompilationUnitMember::Function(decl) => {
                    let name = vstd::slice::slice_to_vec(decl.name.value.value.as_slice());
                    match self.register(name, decl.name.span) {
                        Ok(_) => {},
                        Err(error) => {
                            proof {
                                assert(start.pre_scan(members@, i + 1) == (
                                    self@,
                                    Err::<(), LowerError>(error),
                                ));
                                lemma_pre_scan_stops(start, members@, i + 1, members@.len() as int);
                            }
                            return Err(error);
                        },
                    }
                },
                _ => {},
            }
            i = i + 1;
        }
        Ok(())
    }
}

/// Once a function could not be registered, the scan goes no further.
pub proof fn lemma_pre_scan_stops(
    start: ModuleView,
    members: Seq<Spanned<CompilationUnitMember>>,
    failed: int,
    count: int,
)
    requires
        0 <= failed <= count,
        start.pre_scan(members, failed).1 is Err,
    ensures
        start.pre_scan(members, count) == start.pre_scan(members, failed),
    decreases count - failed,
{
    if failed < count {
        lemma_pre_scan_stops(start, members, failed, count - 1);
    }
}

} // verus!
