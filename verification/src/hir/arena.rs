//! Arenas: append-only stores, addressed by the index an item was given
//! when it was stored.

use crate::hir::nodes::{
    HirExpr, HirFunctionHeader, HirStatement, HirString, HirStringId, HirVariable,
};
use crate::lexer::tokenizer::bytes_equal;
use vstd::prelude::*;

verus! {

#[verifier::external_type_specification]
#[verifier::external_body]
#[verifier::reject_recursive_types(T)]
pub struct ExArena<T>(la_arena::Arena<T>);

/// The strings that an arena holds, in the order they were stored.
pub uninterp spec fn string_items(arena: la_arena::Arena<Vec<u8>>) -> Seq<Vec<u8>>;

/// The function headers that an arena holds, in the order they were stored.
pub uninterp spec fn function_items(arena: la_arena::Arena<HirFunctionHeader>) -> Seq<
    HirFunctionHeader,
>;

/// The expressions that an arena holds, in the order they were stored.
pub uninterp spec fn expr_items(arena: la_arena::Arena<HirExpr>) -> Seq<HirExpr>;

/// The statements that an arena holds, in the order they were stored.
pub uninterp spec fn statement_items(arena: la_arena::Arena<HirStatement>) -> Seq<HirStatement>;

/// The variables that an arena holds, in the order they were stored.
pub uninterp spec fn variable_items(arena: la_arena::Arena<HirVariable>) -> Seq<HirVariable>;

/// The types of item that the library stores in arenas: strings, function
/// headers, expressions, statements and variables, and no others. The trait
/// is private to the library, so that what is said of arenas below is said
/// of these five only.
pub(crate) trait Stored: Sized {
    /// What an arena of such items holds, in the order it was stored.
    spec fn items(arena: la_arena::Arena<Self>) -> Seq<Self>;
}

impl Stored for Vec<u8> {
    open spec fn items(arena: la_arena::Arena<Self>) -> Seq<Self> {
        string_items(arena)
    }
}

impl Stored for HirFunctionHeader {
    open spec fn items(arena: la_arena::Arena<Self>) -> Seq<Self> {
        function_items(arena)
    }
}

impl Stored for HirExpr {
    open spec fn items(arena: la_arena::Arena<Self>) -> Seq<Self> {
        expr_items(arena)
    }
}

impl Stored for HirStatement {
    open spec fn items(arena: la_arena::Arena<Self>) -> Seq<Self> {
        statement_items(arena)
    }
}

impl Stored for HirVariable {
    open spec fn items(arena: la_arena::Arena<Self>) -> Seq<Self> {
        variable_items(arena)
    }
}

/// `la_arena::Arena::new`, for strings: the new arena holds nothing.
#[verifier::external_body]
pub(crate) fn new_string_arena() -> (arena: la_arena::Arena<Vec<u8>>)
    ensures
        string_items(arena) == Seq::<Vec<u8>>::empty(),
{
    la_arena::Arena::new()
}

/// `la_arena::Arena::new`, for function headers: the new arena holds nothing.
#[verifier::external_body]
pub(crate) fn new_function_arena() -> (arena: la_arena::Arena<HirFunctionHeader>)
    ensures
        function_items(arena) == Seq::<HirFunctionHeader>::empty(),
{
    la_arena::Arena::new()
}

/// `la_arena::Arena::new`, for expressions: the new arena holds nothing.
#[verifier::external_body]
pub(crate) fn new_expr_arena() -> (arena: la_arena::Arena<HirExpr>)
    ensures
        expr_items(arena) == Seq::<HirExpr>::empty(),
{
    la_arena::Arena::new()
}

/// `la_arena::Arena::new`, for statements: the new arena holds nothing.
#[verifier::external_body]
pub(crate) fn new_statement_arena() -> (arena: la_arena::Arena<HirStatement>)
    ensures
        statement_items(arena) == Seq::<HirStatement>::empty(),
{
    la_arena::Arena::new()
}

/// `la_arena::Arena::new`, for variables: the new arena holds nothing.
#[verifier::external_body]
pub(crate) fn new_variable_arena() -> (arena: la_arena::Arena<HirVariable>)
    ensures
        variable_items(arena) == Seq::<HirVariable>::empty(),
{
    la_arena::Arena::new()
}

/// `la_arena::Arena::len`: the number of items stored.
#[verifier::external_body]
pub(crate) fn arena_len<T: Stored>(arena: &la_arena::Arena<T>) -> (len: usize)
    ensures
        len == T::items(*arena).len(),
{
    arena.len()
}

/// `la_arena::Arena::alloc`: the item is stored behind those that are
/// there, and its index is the number of items that were there. The index
/// is handed out as the 32-bit number that the arena makes it of, which is
/// why the arena must not hold more items than such a number can count.
#[verifier::external_body]
pub(crate) fn arena_alloc<T: Stored>(arena: &mut la_arena::Arena<T>, value: T) -> (raw: u32)
    requires
        T::items(*old(arena)).len() <= u32::MAX,
    ensures
        T::items(*final(arena)) == T::items(*old(arena)).push(value),
        raw == T::items(*old(arena)).len(),
{
    arena.alloc(value).into_raw().into_u32()
}

/// Indexing a `la_arena::Arena` by the index made of `raw`: the item that
/// is stored at that place, which must be inside the arena.
#[verifier::external_body]
pub(crate) fn arena_get<T: Stored>(arena: &la_arena::Arena<T>, raw: u32) -> (item: &T)
    requires
        raw < T::items(*arena).len(),
    ensures
        *item == T::items(*arena)[raw as int],
{
    &arena[la_arena::Idx::from_raw(la_arena::RawIdx::from_u32(raw))]
}

/// Stores `value` in `arena` if the arena has a handle left for it, and
/// hands out the new handle.
pub(crate) fn store<T: Stored>(arena: &mut la_arena::Arena<T>, value: T) -> (raw: Option<u32>)
    ensures
        match raw {
            Some(raw) => T::items(*final(arena)) == T::items(*old(arena)).push(value) && raw
                == T::items(*old(arena)).len(),
            None => T::items(*final(arena)) == T::items(*old(arena)) && T::items(*old(arena)).len()
                > u32::MAX,
        },
{
    if arena_len(arena) > 0xffff_ffff {
        None
    } else {
        Some(arena_alloc(arena, value))
    }
}

/// The texts of a run of strings.
pub open spec fn texts(strings: Seq<Vec<u8>>) -> Seq<Seq<u8>> {
    Seq::new(strings.len(), |i: int| strings[i]@)
}

/// The first place of `value` among `strings`, or their number where it is
/// not among them.
pub open spec fn place_of(strings: Seq<Seq<u8>>, value: Seq<u8>) -> int
    decreases strings.len(),
{
    if strings.len() == 0 {
        0
    } else if place_of(strings.drop_last(), value) < strings.len() - 1 {
        place_of(strings.drop_last(), value)
    } else if strings.last() == value {
        strings.len() - 1
    } else {
        strings.len() as int
    }
}

/// The strings after `value` was interned: as they were if `value` was
/// among them, with `value` behind them if it was not.
pub open spec fn interned(strings: Seq<Seq<u8>>, value: Seq<u8>) -> Seq<Seq<u8>> {
    if place_of(strings, value) < strings.len() {
        strings
    } else {
        strings.push(value)
    }
}

/// No string stands at two places.
pub open spec fn distinct(strings: Seq<Seq<u8>>) -> bool {
    forall|i: int, j: int| 0 <= i < j < strings.len() ==> strings[i] != strings[j]
}

/// `place_of` finds the first place of a value: the value stands there and
/// nowhere before, and a value that is found nowhere is not among the strings.
pub proof fn lemma_place_of(strings: Seq<Seq<u8>>, value: Seq<u8>)
    ensures
        0 <= place_of(strings, value) <= strings.len(),
        place_of(strings, value) < strings.len() ==> strings[place_of(strings, value)] == value,
        forall|i: int| 0 <= i < place_of(strings, value) ==> strings[i] != value,
    decreases strings.len(),
{
    if strings.len() > 0 {
        lemma_place_of(strings.drop_last(), value);
        assert forall|i: int| 0 <= i < place_of(strings, value) implies strings[i] != value by {
            if i < strings.len() - 1 {
                assert(strings.drop_last()[i] == strings[i]);
            }
        }
    }
}

/// Interning is idempotent and keeps what is there: a value is found at
/// the same place after it was interned, however often; the strings that
/// were there keep their places; and distinct strings stay distinct.
pub proof fn lemma_interned(strings: Seq<Seq<u8>>, value: Seq<u8>)
    ensures
        place_of(interned(strings, value), value) == place_of(strings, value),
        place_of(interned(strings, value), value) < interned(strings, value).len(),
        interned(strings, value)[place_of(strings, value)] == value,
        interned(interned(strings, value), value) == interned(strings, value),
        strings.len() <= interned(strings, value).len() <= strings.len() + 1,
        forall|i: int| 0 <= i < strings.len() ==> interned(strings, value)[i] == strings[i],
        distinct(strings) ==> distinct(interned(strings, value)),
{
    lemma_place_of(strings, value);
    let after = interned(strings, value);
    if place_of(strings, value) >= strings.len() {
        assert(after.drop_last() =~= strings);
    }
    lemma_place_of(after, value);
}

/// A store of strings that keeps each distinct string once: interning a
/// string that is there hands out the handle it has.
#[derive(Debug)]
pub struct InterningArena {
    arena: la_arena::Arena<Vec<u8>>,
}

impl InterningArena {
    /// The strings that are interned, in the order of their handles.
    pub closed spec fn strings(self) -> Seq<Seq<u8>> {
        texts(string_items(self.arena))
    }

    /// No string is interned twice, and every string has a handle.
    pub open spec fn wf(self) -> bool {
        distinct(self.strings()) && self.strings().len() <= u32::MAX + 1
    }

    pub fn new() -> (interner: Self)
        ensures
            interner.wf(),
            interner.strings() == Seq::<Seq<u8>>::empty(),
    {
        let interner = InterningArena { arena: new_string_arena() };
        assert(interner.strings() =~= Seq::<Seq<u8>>::empty());
        interner
    }

    /// The number of strings that are interned.
    pub fn len(&self) -> (len: usize)
        ensures
            len == self.strings().len(),
    {
        arena_len(&self.arena)
    }

    /// The handle of `value` if it is interned.
    pub fn find(&self, value: &[u8]) -> (found: Option<HirStringId>)
        requires
            self.wf(),
        ensures
            match found {
                Some(id) => id.raw == place_of(self.strings(), value@) && id.raw
                    < self.strings().len(),
                None => place_of(self.strings(), value@) == self.strings().len(),
            },
    {
        let len = arena_len(&self.arena);
        let ghost strings = self.strings();
        let mut i: usize = 0;
        proof {
            assert(strings.subrange(0, 0) =~= Seq::<Seq<u8>>::empty());
        }
        while i < len
            invariant
                i <= len == strings.len() <= u32::MAX + 1,
                strings == self.strings(),
                place_of(strings.subrange(0, i as int), value@) == i,
            decreases len - i,
        {
            let item = arena_get(&self.arena, i as u32);
            assert(strings.subrange(0, i + 1).drop_last() =~= strings.subrange(0, i as int));
            assert(strings.subrange(0, i + 1).last() == item@);
            if bytes_equal(item.as_slice(), value) {
                proof {
                    lemma_place_of_prefix(strings, value@, i + 1);
                }
                return Some(HirStringId { raw: i as u32 });
            }
            i = i + 1;
        }
        assert(strings.subrange(0, len as int) =~= strings);
        None
    }

    /// The string behind a handle, which must be that of an interned string.
    pub fn get(&self, id: HirStringId) -> (value: &HirString)
        requires
            id.raw < self.strings().len(),
        ensures
            value@ == self.strings()[id.raw as int],
    {
        arena_get(&self.arena, id.raw)
    }

    /// Interns `value` if it is not interned yet, and hands out its handle,
    /// which is the one it was given when it was first interned. `None`
    /// where the string is new and no handle is left for it.
    pub fn intern(&mut self, value: Vec<u8>) -> (id: Option<HirStringId>)
        requires
            old(self).wf(),
        ensures
            final(self).wf(),
            match id {
                Some(id) => final(self).strings() == interned(old(self).strings(), value@)
                    && id.raw == place_of(old(self).strings(), value@),
                None => final(self).strings() == old(self).strings() && place_of(
                    old(self).strings(),
                    value@,
                ) == old(self).strings().len() > u32::MAX,
            },
    {
        proof {
            lemma_interned(self.strings(), value@);
        }
        match self.find(value.as_slice()) {
            Some(id) => Some(id),
            None => {
                let ghost before = self.strings();
                match store(&mut self.arena, value) {
                    Some(raw) => {
                        assert(self.strings() =~= before.push(value@));
                        Some(HirStringId { raw })
                    },
                    None => None,
                }
            },
        }
    }
}

/// The place of a value among the first `k` strings is its place among all
/// of them, where it is found among the first `k`.
pub proof fn lemma_place_of_prefix(strings: Seq<Seq<u8>>, value: Seq<u8>, k: int)
    requires
        0 <= k <= strings.len(),
    ensures
        place_of(strings.subrange(0, k), value) < k ==> place_of(strings, value) == place_of(
            strings.subrange(0, k),
            value,
        ),
        place_of(strings.subrange(0, k), value) >= k ==> place_of(strings, value) >= k,
    decreases strings.len() - k,
{
    lemma_place_of(strings.subrange(0, k), value);
    if k < strings.len() {
        lemma_place_of_prefix(strings, value, k + 1);
        assert(strings.subrange(0, k + 1).drop_last() =~= strings.subrange(0, k));
    } else {
        assert(strings.subrange(0, k) =~= strings);
    }
}

} // verus!
