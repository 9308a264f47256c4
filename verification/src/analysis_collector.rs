//! The collector of semantic analysis errors, which keeps one error for
//! each code, line, column and message.
use vstd::prelude::*;
use crate::analysis_error::{analysis_compiler_error, SemanticAnalysisError};
use crate::ast::SymbolTable;
use crate::compiler_error::{CompilerError, SpecCompilerError};
use crate::error_codes::ErrorCode;

verus! {

/// What makes two errors the same: their code, line, column and message.
pub open spec fn error_key(e: SpecCompilerError) -> (ErrorCode, int, int, Seq<char>) {
    (e.error_code, e.line, e.column, e.message)
}

/// Whether an error with the key of `e` is among `errors`.
pub open spec fn has_key(errors: Seq<SpecCompilerError>, e: SpecCompilerError) -> bool {
    exists|i: int| 0 <= i < errors.len() && error_key(#[trigger] errors[i]) == error_key(e)
}

/// No two of `errors` share a key.
pub open spec fn distinct_keys(errors: Seq<SpecCompilerError>) -> bool {
    forall|i: int, j: int| 0 <= i < j < errors.len() ==> error_key(#[trigger] errors[i]) != error_key(#[trigger] errors[j])
}

/// The errors after adding `e` to `errors`, and whether it was added: it is
/// added at the end unless an error with its key is already there.
pub open spec fn add_error(errors: Seq<SpecCompilerError>, e: SpecCompilerError) -> (bool, Seq<SpecCompilerError>) {
    if has_key(errors, e) {
        (false, errors)
    } else {
        (true, errors.push(e))
    }
}

/// Collects compiler errors, keeping the first error of each key, in the
/// order in which they were added.
pub struct ErrorCollector {
    errors: Vec<CompilerError>,
}

impl View for ErrorCollector {
    type V = Seq<SpecCompilerError>;

    closed spec fn view(&self) -> Seq<SpecCompilerError> {
        self.errors@.map_values(|e: CompilerError| e@)
    }
}

impl ErrorCollector {
    /// No two collected errors share a key.
    pub open spec fn wf(&self) -> bool {
        distinct_keys(self@)
    }

    /// An empty collector.
    pub fn new() -> (c: ErrorCollector)
        ensures
            c@ == Seq::<SpecCompilerError>::empty(),
            c.wf(),
    {
        let c = ErrorCollector { errors: Vec::new() };
        assert(c@ =~= Seq::<SpecCompilerError>::empty());
        c
    }

    /// Whether an error with the key of `error` was collected.
    fn contains_key(&self, error: &CompilerError) -> (r: bool)
        ensures
            r == has_key(self@, error@),
    {
        let mut i: usize = 0;
        while i < self.errors.len()
            invariant
                i <= self.errors@.len(),
                self@ == self.errors@.map_values(|e: CompilerError| e@),
                forall|k: int| 0 <= k < i ==> error_key(#[trigger] self@[k]) != error_key(error@),
            decreases self.errors@.len() - i,
        {
            let e = &self.errors[i];
            assert(self@[i as int] == e@);
            if e.error_code == error.error_code && e.line == error.line && e.column == error.column
                && crate::text::str_eq(e.message.as_str(), error.message.as_str()) {
                return true;
            }
            i = i + 1;
        }
        false
    }

    /// Adds a compiler error unless an error with the same code, line,
    /// column and message was collected; returns whether it was added.
    pub fn add_compiler_error(&mut self, error: CompilerError) -> (added: bool)
        requires
            old(self).wf(),
        ensures
            final(self).wf(),
            (added, final(self)@) == add_error(old(self)@, error@),
    {
        if self.contains_key(&error) {
            return false;
        }
        let ghost before = self@;
        let ghost e = error@;
        self.errors.push(error);
        assert(self@ =~= before.push(e));
        assert forall|i: int, j: int| 0 <= i < j < self@.len() implies error_key(#[trigger] self@[i]) != error_key(
            #[trigger] self@[j],
        ) by {
            if j == before.len() {
                assert(self@[i] == before[i]);
            } else {
                assert(self@[i] == before[i] && self@[j] == before[j]);
            }
        }
        true
    }

    /// Adds a semantic analysis error, as the compiler error it becomes,
    /// unless an error with the same code, line, column and message was
    /// collected; returns whether it was added.
    pub fn add_semantic_error(&mut self, error: SemanticAnalysisError, types: &SymbolTable) -> (added: bool)
        requires
            old(self).wf(),
        ensures
            final(self).wf(),
            (added, final(self)@) == add_error(old(self)@, analysis_compiler_error(error@, types@)),
    {
        let c = error.to_compiler_error(types);
        self.add_compiler_error(c)
    }

    /// The collected errors.
    pub fn into_errors(self) -> (v: Vec<CompilerError>)
        ensures
            v@.map_values(|e: CompilerError| e@) == self@,
    {
        self.errors
    }

    /// Whether any error was collected.
    pub fn has_errors(&self) -> (b: bool)
        ensures
            b == (self@.len() > 0),
    {
        self.errors.len() > 0
    }

    /// The number of errors collected.
    pub fn error_count(&self) -> (n: usize)
        ensures
            n == self@.len(),
    {
        self.errors.len()
    }
}

impl Default for ErrorCollector {
    fn default() -> (c: ErrorCollector)
        ensures
            c@ == Seq::<SpecCompilerError>::empty(),
            c.wf(),
    {
        ErrorCollector::new()
    }
}

/// Adding the same error twice adds it at most once: the second time
/// nothing is added and the errors stay as they are.
pub proof fn lemma_add_twice_is_add_once(errors: Seq<SpecCompilerError>, e: SpecCompilerError)
    ensures
        add_error(add_error(errors, e).1, e) == (false, add_error(errors, e).1),
{
    let once = add_error(errors, e).1;
    if !has_key(errors, e) {
        assert(once[errors.len() as int] == e);
        assert(has_key(once, e));
    }
}

/// Collecting keeps keys distinct: adding to errors with distinct keys
/// leaves errors with distinct keys, and an error's key is among them
/// afterwards whether or not it was added.
pub proof fn lemma_add_keeps_keys_distinct(errors: Seq<SpecCompilerError>, e: SpecCompilerError)
    requires
        distinct_keys(errors),
    ensures
        distinct_keys(add_error(errors, e).1),
        has_key(add_error(errors, e).1, e),
        add_error(errors, e).0 <==> !has_key(errors, e),
{
    let after = add_error(errors, e).1;
    if !has_key(errors, e) {
        assert(after[errors.len() as int] == e);
        assert forall|i: int, j: int| 0 <= i < j < after.len() implies error_key(#[trigger] after[i]) != error_key(
            #[trigger] after[j],
        ) by {
            if j == errors.len() {
                assert(after[i] == errors[i]);
            } else {
                assert(after[i] == errors[i] && after[j] == errors[j]);
            }
        }
    }
}

} // verus!
