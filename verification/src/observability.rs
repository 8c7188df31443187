//! The scope in which pipeline instrumentation is on.
use crate::journal::store_flag;
use crate::journal::swap_flag;
use crate::journal::Event;
use crate::journal::Journal;
use crate::journal::ObservabilityFlag;
use crate::journal::Prior;
use std::sync::atomic::AtomicBool;
use vstd::prelude::*;

verus! {

/// The journal of a scope's callback when it starts: `flag` has been raised, and held `prior`.
pub open spec fn scope_entered(before: Seq<Event>, flag: AtomicBool, prior: bool) -> Seq<Event> {
    before.push(Event::FlagSwapped { flag, to: true, prior })
}

/// The journal of a scope that has ended: after all that its callback left in the journal, `flag`
/// was given back the value `prior`.
pub open spec fn scope_left(inside: Seq<Event>, flag: AtomicBool, prior: bool) -> Seq<Event> {
    inside.push(Event::FlagStored { flag, to: prior })
}

/// Gives a flag back the value it had, at the latest when the guard is dropped, so that a callback
/// that panics does not leave the flag raised. Until then it holds the journal of its scope.
pub struct ObservabilityGuard<'a, 'j> {
    scope: Option<Scope<'a, 'j>>,
}

/// The journal of a scope that has not ended, and what its flag is to be given back.
struct Scope<'a, 'j> {
    journal: &'j mut Journal,
    prior: Prior<'a>,
}

impl<'a, 'j> ObservabilityGuard<'a, 'j> {
    /// The flag that the guard restores.
    pub closed spec fn flag(self) -> AtomicBool {
        self.scope->0.prior.flag()
    }

    /// The value that the guard gives back to the flag.
    pub closed spec fn prior(self) -> bool {
        self.scope->0.prior.value()
    }

    /// The journal of the scope, as long as the flag has not been restored.
    pub closed spec fn journal(self) -> Option<&'j mut Journal> {
        match self.scope {
            Some(scope) => Some(scope.journal),
            None => None,
        }
    }

    /// Raises the flag and remembers what it held.
    pub fn raise<F: ObservabilityFlag<'a>>(journal: &'j mut Journal, flag: F) -> (guard: Self)
        ensures
            guard.flag() == flag.cell(),
            guard.journal() matches Some(scope) && scope@ == scope_entered(
                old(journal)@,
                flag.cell(),
                guard.prior(),
            ) && scope.namespace() == old(journal).namespace() && *final(scope) == *final(journal),
        opens_invariants [ old(journal).namespace() ]
    {
        let prior = swap_flag(journal, flag.claim(), true);
        ObservabilityGuard { scope: Some(Scope { journal, prior }) }
    }

    /// Restores the flag, if that is still to be done.
    fn restore(&mut self)
        ensures
            final(self).journal() is None,
            old(self).journal() matches Some(scope) ==> final(scope)@ == scope_left(
                scope@,
                old(self).flag(),
                old(self).prior(),
            ) && final(scope).namespace() == scope.namespace(),
        opens_invariants none
        no_unwind
    {
        let mut held: Option<Scope<'a, 'j>> = None;
        std::mem::swap(&mut held, &mut self.scope);
        if let Some(scope) = held {
            store_flag(scope.journal, scope.prior);
        }
    }
}

impl<'a, 'j> Drop for ObservabilityGuard<'a, 'j> {
    /// Restores a flag that is still raised, as it is while a panic unwinds the stack.
    fn drop(&mut self)
        ensures
            final(self).journal() is None,
            old(self).journal() matches Some(scope) ==> final(scope)@ == scope_left(
                scope@,
                old(self).flag(),
                old(self).prior(),
            ) && final(scope).namespace() == scope.namespace(),
        opens_invariants none
        no_unwind
    {
        self.restore();
    }
}

/// Runs `callback` with pipeline instrumentation enabled, then restores the prior state.
///
/// `flag` is raised before the callback starts and is given the value it had then after the
/// callback has returned. The callback's result is handed on. Should the callback panic, the drop
/// of the [`ObservabilityGuard`] restores the flag while the stack unwinds.
///
/// The flag is a reference to an [`AtomicBool`], but all that the function knows of it is that it
/// can be claimed, once. So it is written once to raise it and once to restore it, and both writes
/// are in the journal. What the callback asks, and through which journals, is up to the callback.
pub fn with_observability_enabled<'a, F: ObservabilityFlag<'a>, T>(
    flag: F,
    journal: &mut Journal,
    callback: impl FnOnce(&mut Journal) -> T,
) -> (result: T)
    requires
        forall|prior: bool, scope: &mut Journal|
            #![trigger scope_entered(old(journal)@, flag.cell(), prior), call_requires(callback, (scope,))]
            scope@ == scope_entered(old(journal)@, flag.cell(), prior) ==> call_requires(
                callback,
                (scope,),
            ),
    ensures
        exists|prior: bool, scope: &mut Journal|
            #![trigger scope_entered(old(journal)@, flag.cell(), prior), call_ensures(callback, (scope,), result)]
            scope@ == scope_entered(old(journal)@, flag.cell(), prior) && scope.namespace() == old(
                journal,
            ).namespace() && call_ensures(callback, (scope,), result) && final(journal)@
                == scope_left(final(scope)@, flag.cell(), prior) && final(journal).namespace()
                == final(scope).namespace(),
{
    let mut guard = ObservabilityGuard::raise(journal, flag);
    let result = callback(guard.scope.as_mut().unwrap().journal);
    guard.restore();
    result
}

} // verus!
