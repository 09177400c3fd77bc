//! Scopes: frames of named variables, stacked as hints enter and exit
//! blocks. The frame on top is the one a hint sees.

use crate::assoc::{
    first_wins, lemma_first_wins_absent, lemma_first_wins_first, lemma_first_wins_prepend,
    lemma_first_wins_push, lemma_first_wins_update,
};
use crate::errors::HintError;
use crate::relocatable::{MaybeRelocatable, Value};
use vstd::prelude::*;

verus! {

/// What a variable holds, apart from how it is stored.
pub enum ScopeValueView {
    Value(Value),
    Object(u64),
}

/// What a variable of a scope holds: a value of the machine, or an object of
/// the scripting side. The machine never looks into such an object; it knows
/// it by the number that the scripting side gave it, keeps the number in the
/// scope and hands it back with the variable.
#[derive(Debug, PartialEq, Eq)]
pub enum ScopeValue {
    Value(MaybeRelocatable),
    Object(u64),
}

impl View for ScopeValue {
    type V = ScopeValueView;

    open spec fn view(&self) -> ScopeValueView {
        match self {
            ScopeValue::Value(value) => ScopeValueView::Value(value@),
            ScopeValue::Object(id) => ScopeValueView::Object(*id),
        }
    }
}

impl Clone for ScopeValue {
    fn clone(&self) -> (copy: Self)
        ensures
            copy@ == self@,
    {
        match self {
            ScopeValue::Value(value) => ScopeValue::Value(value.clone()),
            ScopeValue::Object(id) => ScopeValue::Object(*id),
        }
    }
}

/// One frame: the variables of a block, by name.
#[derive(Debug, PartialEq, Eq)]
pub struct ScopeFrame {
    entries: Vec<(String, ScopeValue)>,
}

impl View for ScopeFrame {
    type V = Map<Seq<char>, ScopeValueView>;

    closed spec fn view(&self) -> Map<Seq<char>, ScopeValueView> {
        first_wins(self.bindings())
    }
}

impl ScopeFrame {
    /// The bindings as they are stored, in order. Where a name occurs twice
    /// the first binding is the variable.
    pub closed spec fn bindings(&self) -> Seq<(Seq<char>, ScopeValueView)> {
        Seq::new(self.entries@.len(), |i: int| (self.entries@[i].0@, self.entries@[i].1@))
    }

    /// The frame is the map of its bindings.
    pub proof fn lemma_view_of_bindings(&self)
        ensures
            self@ == first_wins(self.bindings()),
    {
    }

    /// A frame without variables.
    pub fn new() -> (frame: ScopeFrame)
        ensures
            frame@ == Map::<Seq<char>, ScopeValueView>::empty(),
            frame.bindings().len() == 0,
    {
        ScopeFrame { entries: Vec::new() }
    }

    /// The number of stored bindings.
    pub fn len(&self) -> (n: usize)
        ensures
            n == self.bindings().len(),
    {
        self.entries.len()
    }

    /// The stored binding at `index`.
    pub fn binding(&self, index: usize) -> (pair: (&String, &ScopeValue))
        requires
            index < self.bindings().len(),
        ensures
            (pair.0@, pair.1@) == self.bindings()[index as int],
    {
        (&self.entries[index].0, &self.entries[index].1)
    }

    fn position(&self, name: &String) -> (found: Option<usize>)
        ensures
            match found {
                Some(i) => i < self.bindings().len() && self.bindings()[i as int].0 == name@
                    && forall|j: int| 0 <= j < i ==> self.bindings()[j].0 != name@,
                None => forall|j: int|
                    0 <= j < self.bindings().len() ==> self.bindings()[j].0 != name@,
            },
    {
        let mut i: usize = 0;
        while i < self.entries.len()
            invariant
                i <= self.entries.len(),
                forall|j: int| 0 <= j < i ==> self.bindings()[j].0 != name@,
            decreases self.entries.len() - i,
        {
            if self.entries[i].0 == *name {
                return Some(i);
            }
            i += 1;
        }
        None
    }

    /// The value of the variable `name`.
    pub fn get(&self, name: &String) -> (value: Option<&ScopeValue>)
        ensures
            match value {
                Some(v) => self@.contains_key(name@) && self@[name@] == v@,
                None => !self@.contains_key(name@),
            },
    {
        match self.position(name) {
            Some(i) => {
                proof {
                    lemma_first_wins_first(self.bindings(), i as int);
                }
                Some(&self.entries[i].1)
            },
            None => {
                proof {
                    lemma_first_wins_absent(self.bindings(), name@);
                }
                None
            },
        }
    }

    /// Gives the variable `name` the value `value`, whether it is new or not.
    pub fn insert(&mut self, name: String, value: ScopeValue)
        ensures
            final(self)@ == old(self)@.insert(name@, value@),
    {
        let ghost before = self.bindings();
        match self.position(&name) {
            Some(i) => {
                self.entries[i] = (name, value);
                proof {
                    lemma_first_wins_update(before, i as int, value@);
                    assert(self.bindings() =~= before.update(i as int, (before[i as int].0, value@)));
                }
            },
            None => {
                self.entries.push((name, value));
                proof {
                    lemma_first_wins_absent(before, name@);
                    lemma_first_wins_push(before, name@, value@);
                    assert(self.bindings() =~= before.push((name@, value@)));
                }
            },
        }
    }

    /// Takes over every variable of `other`: new names are added, known
    /// names get the value they have in `other`.
    pub fn merge(&mut self, other: &ScopeFrame)
        ensures
            final(self)@ == old(self)@.union_prefer_right(other@),
    {
        let mut i: usize = other.entries.len();
        assert(other.bindings().subrange(i as int, other.bindings().len() as int)
            =~= Seq::<(Seq<char>, ScopeValueView)>::empty());
        assert(self@ =~= old(self)@.union_prefer_right(Map::<Seq<char>, ScopeValueView>::empty()));
        while i > 0
            invariant
                i <= other.entries.len(),
                self@ == old(self)@.union_prefer_right(
                    first_wins(other.bindings().subrange(i as int, other.bindings().len() as int)),
                ),
            decreases i,
        {
            i -= 1;
            let ghost rest = other.bindings().subrange(i as int + 1, other.bindings().len() as int);
            let ghost pair = other.bindings()[i as int];
            self.insert(other.entries[i].0.clone(), other.entries[i].1.clone());
            proof {
                lemma_first_wins_prepend(rest, pair.0, pair.1);
                assert(other.bindings().subrange(i as int, other.bindings().len() as int)
                    =~= seq![pair] + rest);
                assert(self@ =~= old(self)@.union_prefer_right(
                    first_wins(rest).insert(pair.0, pair.1),
                ));
            }
        }
        assert(other.bindings().subrange(0, other.bindings().len() as int) =~= other.bindings());
    }
}

impl Clone for ScopeFrame {
    fn clone(&self) -> (copy: Self)
        ensures
            copy@ == self@,
            copy.bindings() == self.bindings(),
    {
        let mut entries: Vec<(String, ScopeValue)> = Vec::new();
        let mut i: usize = 0;
        while i < self.entries.len()
            invariant
                i <= self.entries.len(),
                entries@.len() == i,
                forall|j: int|
                    0 <= j < i ==> entries@[j].0@ == self.entries@[j].0@ && entries@[j].1@
                        == self.entries@[j].1@,
            decreases self.entries.len() - i,
        {
            entries.push((self.entries[i].0.clone(), self.entries[i].1.clone()));
            i += 1;
        }
        let copy = ScopeFrame { entries };
        assert(copy.bindings() =~= self.bindings());
        copy
    }
}

/// The stack after a frame was entered.
pub open spec fn enter(stack: Seq<Map<Seq<char>, ScopeValueView>>, frame: Map<Seq<char>, ScopeValueView>) -> Seq<
    Map<Seq<char>, ScopeValueView>,
> {
    stack.push(frame)
}

/// The stack after the top frame was left. The main frame, the one at the
/// bottom, cannot be left.
pub open spec fn exit(stack: Seq<Map<Seq<char>, ScopeValueView>>) -> Result<
    Seq<Map<Seq<char>, ScopeValueView>>,
    HintError,
> {
    if stack.len() <= 1 {
        Err(HintError::ScopeUnderflow)
    } else {
        Ok(stack.drop_last())
    }
}

/// The stack after the frames of `frames` were entered one after another.
pub open spec fn enter_all(
    stack: Seq<Map<Seq<char>, ScopeValueView>>,
    frames: Seq<Map<Seq<char>, ScopeValueView>>,
) -> Seq<Map<Seq<char>, ScopeValueView>>
    decreases frames.len(),
{
    if frames.len() == 0 {
        stack
    } else {
        enter(enter_all(stack, frames.drop_last()), frames.last())
    }
}

/// The stack after `n` frames were left one after another, or the failure
/// of the first exit that failed.
pub open spec fn exit_times(stack: Seq<Map<Seq<char>, ScopeValueView>>, n: nat) -> Result<
    Seq<Map<Seq<char>, ScopeValueView>>,
    HintError,
>
    decreases n,
{
    if n == 0 {
        Ok(stack)
    } else {
        match exit(stack) {
            Ok(rest) => exit_times(rest, (n - 1) as nat),
            Err(e) => Err(e),
        }
    }
}

/// Entering some frames and leaving as many restores the stack.
///
/// Whatever the depth: after the frames of `frames` are entered on a stack
/// that has its main frame, as many exits succeed and leave exactly the
/// stack there was.
pub proof fn lemma_scope_nesting_restores(
    stack: Seq<Map<Seq<char>, ScopeValueView>>,
    frames: Seq<Map<Seq<char>, ScopeValueView>>,
)
    requires
        stack.len() >= 1,
    ensures
        enter_all(stack, frames).len() == stack.len() + frames.len(),
        exit_times(enter_all(stack, frames), frames.len()) == Ok::<
            Seq<Map<Seq<char>, ScopeValueView>>,
            HintError,
        >(stack),
    decreases frames.len(),
{
    if frames.len() > 0 {
        lemma_scope_nesting_restores(stack, frames.drop_last());
        let inner = enter_all(stack, frames.drop_last());
        assert(inner.push(frames.last()).drop_last() =~= inner);
    }
}

/// One exit too many fails.
///
/// On a stack that holds the main frame only: after the frames of `frames`
/// are entered and as many left again, one more exit is a scope underflow.
pub proof fn lemma_scope_underflow_after_nesting(
    stack: Seq<Map<Seq<char>, ScopeValueView>>,
    frames: Seq<Map<Seq<char>, ScopeValueView>>,
)
    requires
        stack.len() == 1,
    ensures
        exit_times(enter_all(stack, frames), frames.len() + 1) == Err::<
            Seq<Map<Seq<char>, ScopeValueView>>,
            HintError,
        >(HintError::ScopeUnderflow),
    decreases frames.len(),
{
    if frames.len() == 0 {
        reveal_with_fuel(exit_times, 2);
    } else {
        lemma_scope_underflow_after_nesting(stack, frames.drop_last());
        lemma_scope_nesting_restores(stack, frames.drop_last());
        let inner = enter_all(stack, frames.drop_last());
        assert(inner.push(frames.last()).drop_last() =~= inner);
    }
}

/// The stack of scopes. It always holds the main frame; frames entered
/// later lie on top of it.
#[derive(Debug, PartialEq, Eq)]
pub struct ExecutionScopes {
    main: ScopeFrame,
    nested: Vec<ScopeFrame>,
}

impl View for ExecutionScopes {
    type V = Seq<Map<Seq<char>, ScopeValueView>>;

    closed spec fn view(&self) -> Seq<Map<Seq<char>, ScopeValueView>> {
        seq![self.main@] + Seq::new(self.nested@.len(), |i: int| self.nested@[i]@)
    }
}

impl ExecutionScopes {
    /// There is always a frame: the main one at least.
    pub proof fn lemma_never_empty(&self)
        ensures
            self@.len() >= 1,
    {
    }

    /// The stack with an empty main frame and nothing on it.
    pub fn new() -> (scopes: ExecutionScopes)
        ensures
            scopes@ == seq![Map::<Seq<char>, ScopeValueView>::empty()],
    {
        let scopes = ExecutionScopes { main: ScopeFrame::new(), nested: Vec::new() };
        assert(scopes@ =~= seq![Map::<Seq<char>, ScopeValueView>::empty()]);
        scopes
    }

    /// Enters a block: its frame, seeded with `new_scope_locals`, goes on
    /// top.
    pub fn enter_scope(&mut self, new_scope_locals: ScopeFrame)
        ensures
            final(self)@ == enter(old(self)@, new_scope_locals@),
    {
        self.nested.push(new_scope_locals);
        assert(self@ =~= enter(old(self)@, new_scope_locals@));
    }

    /// Leaves the block on top and comes back to the one below. Fails, and
    /// changes nothing, where only the main frame is left.
    pub fn exit_scope(&mut self) -> (left: Result<(), HintError>)
        ensures
            (final(self)@, left) == match exit(old(self)@) {
                Ok(rest) => (rest, Ok::<(), HintError>(())),
                Err(e) => (old(self)@, Err::<(), HintError>(e)),
            },
    {
        match self.nested.pop() {
            Some(_) => {
                assert(self@ =~= old(self)@.drop_last());
                Ok(())
            },
            None => Err(HintError::ScopeUnderflow),
        }
    }

    /// The frame on top: the variables that a hint sees.
    pub fn get_local_variables(&self) -> (frame: &ScopeFrame)
        ensures
            frame@ == self@.last(),
    {
        let depth = self.nested.len();
        if depth == 0 {
            &self.main
        } else {
            &self.nested[depth - 1]
        }
    }

    /// Gives the variable `name` of the top frame the value `value`, whether
    /// it is new or not.
    pub fn assign_or_update_variable(&mut self, name: String, value: ScopeValue)
        ensures
            final(self)@ == old(self)@.update(
                old(self)@.len() - 1,
                old(self)@.last().insert(name@, value@),
            ),
    {
        let depth = self.nested.len();
        if depth == 0 {
            self.main.insert(name, value);
        } else {
            self.nested[depth - 1].insert(name, value);
        }
        assert(self@ =~= old(self)@.update(
            old(self)@.len() - 1,
            old(self)@.last().insert(name@, value@),
        ));
    }

    /// Merges `variables` into the top frame: new names are added, known
    /// names get the value they have in `variables`.
    pub fn merge_variables(&mut self, variables: &ScopeFrame)
        ensures
            final(self)@ == old(self)@.update(
                old(self)@.len() - 1,
                old(self)@.last().union_prefer_right(variables@),
            ),
    {
        let depth = self.nested.len();
        if depth == 0 {
            self.main.merge(variables);
        } else {
            self.nested[depth - 1].merge(variables);
        }
        assert(self@ =~= old(self)@.update(
            old(self)@.len() - 1,
            old(self)@.last().union_prefer_right(variables@),
        ));
    }
}

} // verus!
