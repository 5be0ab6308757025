//! Scoped symbol tables.

use std::collections::HashMap;
use std::hash::Hash;
use vstd::prelude::*;
use vstd::std_specs::hash::obeys_key_model;

verus! {

broadcast use vstd::std_specs::hash::group_hash_axioms;

/// Why a declaration was refused.
#[derive(Clone, Copy, Debug, PartialEq, Eq, Structural)]
pub enum DeclareError {
    /// The name is already declared in the innermost scope.
    AlreadyDeclared,
}

/// A stack of scopes, each of which maps names to what they were declared
/// as. A name may be declared once in a scope, and hides the declarations
/// of the same name in the scopes outside it.
#[derive(Debug)]
pub struct SymbolTable<Key, Value> {
    stack: Vec<HashMap<Key, Value>>,
}

/// The scopes after a new, empty one was opened inside them.
pub open spec fn pushed<Key, Value>(frames: Seq<Map<Key, Value>>) -> Seq<Map<Key, Value>> {
    frames.push(Map::empty())
}

/// The scopes after the innermost one was left.
pub open spec fn popped<Key, Value>(frames: Seq<Map<Key, Value>>) -> Seq<Map<Key, Value>> {
    frames.drop_last()
}

/// The scopes after `key` was declared as `value` in the innermost one, or
/// `None` where the innermost scope already declares `key`, or there is no scope.
pub open spec fn declared<Key, Value>(frames: Seq<Map<Key, Value>>, key: Key, value: Value)
    -> Option<Seq<Map<Key, Value>>> {
    if frames.len() == 0 || frames.last().contains_key(key) {
        None
    } else {
        Some(frames.update(frames.len() - 1, frames.last().insert(key, value)))
    }
}

/// What `key` is declared as in the innermost scope that declares it.
pub open spec fn resolved<Key, Value>(frames: Seq<Map<Key, Value>>, key: Key) -> Option<Value>
    decreases frames.len(),
{
    if frames.len() == 0 {
        None
    } else if frames.last().contains_key(key) {
        Some(frames.last()[key])
    } else {
        resolved(frames.drop_last(), key)
    }
}

/// A name cannot be declared twice in one scope, but it can be declared
/// again in a scope that is opened inside: after a declaration of `key`, a
/// second declaration of `key` in the same scope is refused, whatever the
/// values, and one in a new scope is accepted and hides the first.
pub proof fn lemma_redeclaration<Key, Value>(
    frames: Seq<Map<Key, Value>>,
    key: Key,
    first: Value,
    second: Value,
)
    requires
        declared(frames, key, first) is Some,
    ensures
        declared(declared(frames, key, first)->0, key, second) is None,
        declared(pushed(declared(frames, key, first)->0), key, second) is Some,
        resolved(declared(frames, key, first)->0, key) == Some(first),
        resolved(declared(pushed(declared(frames, key, first)->0), key, second)->0, key) == Some(
            second,
        ),
        resolved(popped(declared(pushed(declared(frames, key, first)->0), key, second)->0), key)
            == Some(first),
{
    let once = declared(frames, key, first)->0;
    let inner = pushed(once);
    let twice = declared(inner, key, second)->0;
    assert(once.last().contains_key(key));
    assert(!inner.last().contains_key(key));
    assert(twice.last().contains_key(key));
    assert(popped(twice) =~= once);
}

impl<Key: Eq + Hash, Value> SymbolTable<Key, Value> {
    /// The scopes, the outermost first.
    pub closed spec fn frames(self) -> Seq<Map<Key, Value>> {
        Seq::new(self.stack@.len(), |i: int| self.stack@[i]@)
    }

    /// A table without a scope.
    pub fn new() -> (table: Self)
        ensures
            table.frames() == Seq::<Map<Key, Value>>::empty(),
    {
        let table = SymbolTable { stack: Vec::new() };
        assert(table.frames() =~= Seq::<Map<Key, Value>>::empty());
        table
    }

    /// The number of scopes that are open.
    pub fn depth(&self) -> (depth: usize)
        ensures
            depth == self.frames().len(),
    {
        self.stack.len()
    }

    /// Opens a new scope inside the innermost one.
    pub fn push(&mut self)
        ensures
            final(self).frames() == pushed(old(self).frames()),
    {
        self.stack.push(HashMap::new());
        assert(final(self).frames() =~= pushed(old(self).frames()));
    }

    /// Leaves the innermost scope, which must be there.
    pub fn pop(&mut self)
        requires
            old(self).frames().len() > 0,
        ensures
            final(self).frames() == popped(old(self).frames()),
    {
        let _ = self.stack.pop();
        assert(final(self).frames() =~= popped(old(self).frames()));
    }

    /// Declares `key` as `value` in the innermost scope, which must be
    /// there. A key that the innermost scope already declares is refused,
    /// and the table stays as it is; the scopes outside are not asked.
    pub fn declare(&mut self, key: Key, value: Value) -> (result: Result<(), DeclareError>)
        requires
            old(self).frames().len() > 0,
            obeys_key_model::<Key>(),
        ensures
            match result {
                Ok(_) => declared(old(self).frames(), key, value) == Some(final(self).frames()),
                Err(_) => declared(old(self).frames(), key, value) is None && final(self).frames()
                    == old(self).frames(),
            },
    {
        let ghost before = self.frames();
        let mut frame = match self.stack.pop() {
            Some(frame) => frame,
            None => {
                return Err(DeclareError::AlreadyDeclared);
            },
        };
        if frame.contains_key(&key) {
            self.stack.push(frame);
            assert(self.frames() =~= before);
            Err(DeclareError::AlreadyDeclared)
        } else {
            let _ = frame.insert(key, value);
            self.stack.push(frame);
            assert(self.frames() =~= before.update(
                before.len() - 1,
                before.last().insert(key, value),
            ));
            Ok(())
        }
    }

    /// What `key` is declared as in the innermost scope that declares it.
    pub fn lookup(&self, key: &Key) -> (found: Option<&Value>)
        requires
            obeys_key_model::<Key>(),
        ensures
            match found {
                Some(value) => resolved(self.frames(), *key) == Some(*value),
                None => resolved(self.frames(), *key) is None,
            },
    {
        let mut i: usize = self.stack.len();
        assert(self.frames().subrange(0, i as int) =~= self.frames());
        while i > 0
            invariant
                i <= self.stack@.len(),
                obeys_key_model::<Key>(),
                resolved(self.frames(), *key) == resolved(self.frames().subrange(0, i as int), *key),
            decreases i,
        {
            let ghost outer = self.frames().subrange(0, i as int);
            assert(outer.drop_last() =~= self.frames().subrange(0, i - 1));
            assert(outer.last() == self.stack@[i - 1]@);
            i = i - 1;
            match self.stack[i].get(key) {
                Some(value) => {
                    return Some(value);
                },
                None => {},
            }
        }
        None
    }
}

} // verus!
