//! The run-scoped diagnostic collector: an append-only ordered sequence of
//! diagnostics, owned by the run and cleared before each new one.

use vstd::prelude::*;

use crate::error::{spec_errors_view, ErrorV, InterpreterError, KonError, KonErrorV};

verus! {

pub struct ErrorHandler {
    errors: Vec<InterpreterError>,
}

impl View for ErrorHandler {
    type V = Seq<ErrorV>;

    closed spec fn view(&self) -> Seq<ErrorV> {
        spec_errors_view(self.errors@)
    }
}

impl ErrorHandler {
    /// An empty collector.
    pub fn new() -> (r: ErrorHandler)
        ensures
            r@ == Seq::<ErrorV>::empty(),
    {
        let r = ErrorHandler { errors: Vec::new() };
        proof {
            assert(r@ =~= Seq::<ErrorV>::empty());
        }
        r
    }

    /// Appends one diagnostic; every earlier diagnostic stays in place.
    pub fn push(&mut self, error: InterpreterError)
        ensures
            final(self)@ == old(self)@.push(error@),
    {
        self.errors.push(error);
        proof {
            assert(self@ =~= old(self)@.push(error@));
        }
    }

    /// Whether any diagnostic has been collected.
    pub fn had_error(&self) -> (r: bool)
        ensures
            r == (self@.len() > 0),
    {
        self.errors.len() > 0
    }

    /// The collected diagnostics, in the order they were pushed.
    pub fn errors(&self) -> (r: &Vec<InterpreterError>)
        ensures
            spec_errors_view(r@) == self@,
    {
        &self.errors
    }

    /// Forgets every collected diagnostic.
    pub fn clear(&mut self)
        ensures
            final(self)@ == Seq::<ErrorV>::empty(),
    {
        self.errors.clear();
        proof {
            assert(self@ =~= Seq::<ErrorV>::empty());
        }
    }

    /// The aggregate failure carrying a copy of every collected diagnostic.
    pub fn report_errors(&self) -> (r: KonError)
        ensures
            r@ == KonErrorV::InterpreterErrors(self@),
    {
        let mut copies: Vec<InterpreterError> = Vec::new();
        let n: usize = self.errors.len();
        let mut i: usize = 0;
        while i < n
            invariant
                n == self.errors@.len(),
                i <= n,
                copies@.len() == i,
                forall|k: int| 0 <= k < i ==> #[trigger] copies@[k]@ == self.errors@[k]@,
            decreases n - i,
        {
            copies.push(self.errors[i].clone());
            i = i + 1;
        }
        proof {
            assert forall|k: int| 0 <= k < n implies #[trigger] spec_errors_view(copies@)[k]
                == self@[k] by {
                assert(copies@[k]@ == self.errors@[k]@);
            }
            assert(spec_errors_view(copies@) =~= self@);
        }
        KonError::InterpreterErrors(copies)
    }

    /// `Ok` exactly when no diagnostic was collected; otherwise the aggregate
    /// failure carrying them all.
    pub fn try_report_errors(&self) -> (r: Result<(), KonError>)
        ensures
            match r {
                Ok(()) => self@.len() == 0,
                Err(e) => self@.len() > 0 && e@ == KonErrorV::InterpreterErrors(self@),
            },
    {
        if self.had_error() {
            Err(self.report_errors())
        } else {
            Ok(())
        }
    }
}

} // verus!
