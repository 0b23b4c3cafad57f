use crate::expression::{CompileError, CompileErrorModel};
use vstd::prelude::*;

verus! {

/// What is compiled once, when a configuration is loaded.
pub trait Compile: Sized {
    /// The error that compiling meets first, if it meets one.
    spec fn fault(&self) -> Option<CompileErrorModel>;

    /// `self` is what compiling made of `before`.
    spec fn compiled_from(&self, before: &Self) -> bool;

    /// `self` is what compiling left of `before` when it met an error.
    spec fn failed_from(&self, before: &Self) -> bool;

    /// Compiles in place.
    fn compile_in_place(&mut self) -> (result: Result<(), CompileError>)
        ensures
            match result {
                Ok(()) => old(self).fault() is None && final(self).compiled_from(old(self)),
                Err(error) => old(self).fault() == Some(error@) && final(self).failed_from(
                    old(self),
                ),
            },
    ;
}

/// The error that compiling the items one after the other meets first.
pub open spec fn first_fault<T: Compile>(items: Seq<T>) -> Option<CompileErrorModel>
    decreases items.len(),
{
    if items.len() == 0 {
        None
    } else {
        match items[0].fault() {
            Some(error) => Some(error),
            None => first_fault(items.skip(1)),
        }
    }
}

/// Each item of `after` is what compiling made of the item of `before` at the
/// same place.
pub open spec fn all_compiled_from<T: Compile>(after: Seq<T>, before: Seq<T>) -> bool {
    &&& after.len() == before.len()
    &&& forall|i: int| 0 <= i < after.len() ==> (#[trigger] after[i]).compiled_from(&before[i])
}

/// Compiling the items of `before` in order stopped at the item at place
/// `at`: the items in front of it are compiled, it is what its failure left
/// of it, and the items behind it are as they were.
pub open spec fn stopped_at<T: Compile>(after: Seq<T>, before: Seq<T>, at: int) -> bool {
    &&& after.len() == before.len()
    &&& 0 <= at < after.len()
    &&& forall|i: int| 0 <= i < at ==> (#[trigger] after[i]).compiled_from(&before[i])
    &&& after[at].failed_from(&before[at])
    &&& forall|i: int| at < i < after.len() ==> #[trigger] after[i] == before[i]
}

/// Compiling the items of `before` in order stopped at one of them.
pub open spec fn stopped<T: Compile>(after: Seq<T>, before: Seq<T>) -> bool {
    exists|at: int| stopped_at(after, before, at)
}

/// Compiles the items in order and stops at the first error.
pub fn compile_all<T: Compile>(items: &mut Vec<T>) -> (result: Result<(), CompileError>)
    ensures
        match result {
            Ok(()) => first_fault(old(items)@) is None && all_compiled_from(
                final(items)@,
                old(items)@,
            ),
            Err(error) => first_fault(old(items)@) == Some(error@) && stopped(
                final(items)@,
                old(items)@,
            ),
        },
{
    let mut i: usize = 0;
    assert(old(items)@.skip(0) == old(items)@);
    while i < items.len()
        invariant
            i <= items.len(),
            items.len() == old(items).len(),
            first_fault(old(items)@) == first_fault(old(items)@.skip(i as int)),
            forall|k: int| 0 <= k < i ==> (#[trigger] items[k]).compiled_from(&old(items)[k]),
            forall|k: int| i <= k < items.len() ==> items[k] == old(items)[k],
        decreases items.len() - i,
    {
        assert(old(items)@.skip(i as int).skip(1) == old(items)@.skip(i + 1));
        assert(old(items)@.skip(i as int)[0] == old(items)[i as int]);
        match items[i].compile_in_place() {
            Ok(()) => {},
            Err(error) => {
                assert(stopped_at(items@, old(items)@, i as int));
                return Err(error);
            },
        }
        i = i + 1;
    }
    Ok(())
}

} // verus!
