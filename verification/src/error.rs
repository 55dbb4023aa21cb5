//! Stable error model.
//!
//! One enumerated code space shared by CLI, desktop, MCP and tests, so that no
//! front-end has to interpret strings. The numeric codes are the wire format:
//! adding a code is fine, renumbering one is a contract break.

use crate::model::ids::{EntryId, LocatorId, SourceId};
use vstd::prelude::*;

verus! {

/// Stable error codes.
///
/// * `1xx` — fatal: the run cannot produce anything meaningful.
/// * `2xx` — entry-level: record it, keep scanning.
/// * `3xx` — control flow: cancellation.
/// * `4xx` — internal bug.
#[derive(Clone, Copy, PartialEq, Eq, Structural, Hash, Debug)]
pub enum ErrorCode {
    // --- fatal -------------------------------------------------------------
    RootNotFound,
    SourceInitFailed,
    ExecutorUnavailable,
    PlanInvalid,
    // --- entry-level -------------------------------------------------------
    PermissionDenied,
    /// Deleted, renamed or moved out of scope during the scan.
    GoneDuringScan,
    ReadFailed,
    /// Locator belongs to another session/source, or was never issued.
    LocatorInvalid,
    /// The source session ended; the locator cannot be re-opened.
    LocatorExpired,
    ObjectIdUnavailable,
    UnsupportedEntry,
    /// Budget exhausted: candidates dropped, see [`ErrorBudget`].
    BudgetExceeded,
    /// The source does not (yet) implement the requested operation.
    UnsupportedOperation,
    // --- control flow ------------------------------------------------------
    Cancelled,
    // --- internal ----------------------------------------------------------
    Internal,
}

impl ErrorCode {
    /// The wire number of each code.
    pub open spec fn spec_code(self) -> u16 {
        match self {
            ErrorCode::RootNotFound => 100,
            ErrorCode::SourceInitFailed => 101,
            ErrorCode::ExecutorUnavailable => 102,
            ErrorCode::PlanInvalid => 103,
            ErrorCode::PermissionDenied => 200,
            ErrorCode::GoneDuringScan => 201,
            ErrorCode::ReadFailed => 202,
            ErrorCode::LocatorInvalid => 205,
            ErrorCode::LocatorExpired => 206,
            ErrorCode::ObjectIdUnavailable => 207,
            ErrorCode::UnsupportedEntry => 210,
            ErrorCode::BudgetExceeded => 209,
            ErrorCode::UnsupportedOperation => 208,
            ErrorCode::Cancelled => 300,
            ErrorCode::Internal => 400,
        }
    }

    /// Fatal codes: the four `1xx` codes and the internal error.
    pub open spec fn spec_is_fatal(self) -> bool {
        match self {
            ErrorCode::RootNotFound | ErrorCode::SourceInitFailed | ErrorCode::ExecutorUnavailable
            | ErrorCode::PlanInvalid | ErrorCode::Internal => true,
            _ => false,
        }
    }

    /// The stable wire number of the code.
    pub fn code(self) -> (r: u16)
        ensures
            r == self.spec_code(),
    {
        match self {
            ErrorCode::RootNotFound => 100,
            ErrorCode::SourceInitFailed => 101,
            ErrorCode::ExecutorUnavailable => 102,
            ErrorCode::PlanInvalid => 103,
            ErrorCode::PermissionDenied => 200,
            ErrorCode::GoneDuringScan => 201,
            ErrorCode::ReadFailed => 202,
            ErrorCode::LocatorInvalid => 205,
            ErrorCode::LocatorExpired => 206,
            ErrorCode::ObjectIdUnavailable => 207,
            ErrorCode::UnsupportedEntry => 210,
            ErrorCode::BudgetExceeded => 209,
            ErrorCode::UnsupportedOperation => 208,
            ErrorCode::Cancelled => 300,
            ErrorCode::Internal => 400,
        }
    }

    /// The code as rendered in messages: `E`, the wire number, a space and
    /// the variant name.
    pub open spec fn spec_label(self) -> &'static str {
        match self {
            ErrorCode::RootNotFound => "E100 RootNotFound",
            ErrorCode::SourceInitFailed => "E101 SourceInitFailed",
            ErrorCode::ExecutorUnavailable => "E102 ExecutorUnavailable",
            ErrorCode::PlanInvalid => "E103 PlanInvalid",
            ErrorCode::PermissionDenied => "E200 PermissionDenied",
            ErrorCode::GoneDuringScan => "E201 GoneDuringScan",
            ErrorCode::ReadFailed => "E202 ReadFailed",
            ErrorCode::LocatorInvalid => "E205 LocatorInvalid",
            ErrorCode::LocatorExpired => "E206 LocatorExpired",
            ErrorCode::ObjectIdUnavailable => "E207 ObjectIdUnavailable",
            ErrorCode::UnsupportedEntry => "E210 UnsupportedEntry",
            ErrorCode::BudgetExceeded => "E209 BudgetExceeded",
            ErrorCode::UnsupportedOperation => "E208 UnsupportedOperation",
            ErrorCode::Cancelled => "E300 Cancelled",
            ErrorCode::Internal => "E400 Internal",
        }
    }

    /// The code as rendered in messages, e.g. `E103 PlanInvalid`.
    pub fn label(self) -> (r: &'static str)
        ensures
            r == self.spec_label(),
    {
        match self {
            ErrorCode::RootNotFound => "E100 RootNotFound",
            ErrorCode::SourceInitFailed => "E101 SourceInitFailed",
            ErrorCode::ExecutorUnavailable => "E102 ExecutorUnavailable",
            ErrorCode::PlanInvalid => "E103 PlanInvalid",
            ErrorCode::PermissionDenied => "E200 PermissionDenied",
            ErrorCode::GoneDuringScan => "E201 GoneDuringScan",
            ErrorCode::ReadFailed => "E202 ReadFailed",
            ErrorCode::LocatorInvalid => "E205 LocatorInvalid",
            ErrorCode::LocatorExpired => "E206 LocatorExpired",
            ErrorCode::ObjectIdUnavailable => "E207 ObjectIdUnavailable",
            ErrorCode::UnsupportedEntry => "E210 UnsupportedEntry",
            ErrorCode::BudgetExceeded => "E209 BudgetExceeded",
            ErrorCode::UnsupportedOperation => "E208 UnsupportedOperation",
            ErrorCode::Cancelled => "E300 Cancelled",
            ErrorCode::Internal => "E400 Internal",
        }
    }

    /// A fatal error aborts the whole run; an entry-level one never does.
    pub fn is_fatal(self) -> (r: bool)
        ensures
            r == self.spec_is_fatal(),
    {
        matches!(
            self,
            ErrorCode::RootNotFound | ErrorCode::SourceInitFailed | ErrorCode::ExecutorUnavailable
                | ErrorCode::PlanInvalid | ErrorCode::Internal
        )
    }

    /// Neither fatal nor a cancellation: record it and keep scanning.
    pub fn is_entry_level(self) -> (r: bool)
        ensures
            r == (!self.spec_is_fatal() && self != ErrorCode::Cancelled),
    {
        !self.is_fatal() && !matches!(self, ErrorCode::Cancelled)
    }

    /// The control-flow code.
    pub fn is_cancelled(self) -> (r: bool)
        ensures
            r == (self == ErrorCode::Cancelled),
    {
        matches!(self, ErrorCode::Cancelled)
    }
}

/// Every code is exactly one of fatal, entry-level or cancellation, and its
/// hundreds digit names the class: `1xx` and `4xx` are fatal, `2xx` are
/// entry-level, `3xx` is cancellation. Distinct codes have distinct numbers.
pub proof fn lemma_error_classes_partition(c: ErrorCode, d: ErrorCode)
    ensures
        c.spec_is_fatal() <==> (100 <= c.spec_code() < 200 || 400 <= c.spec_code() < 500),
        (!c.spec_is_fatal() && c != ErrorCode::Cancelled) <==> (200 <= c.spec_code() < 300),
        (c == ErrorCode::Cancelled) <==> (300 <= c.spec_code() < 400),
        c.spec_code() == d.spec_code() ==> c == d,
{
}

/// The wire format: the stable number of every code, as the error-code
/// table fixes it, and the label each code is rendered with. Renumbering
/// any code, or swapping two codes of one class, breaks this.
pub proof fn lemma_wire_numbers()
    ensures
        ErrorCode::RootNotFound.spec_code() == 100,
        ErrorCode::SourceInitFailed.spec_code() == 101,
        ErrorCode::ExecutorUnavailable.spec_code() == 102,
        ErrorCode::PlanInvalid.spec_code() == 103,
        ErrorCode::PermissionDenied.spec_code() == 200,
        ErrorCode::GoneDuringScan.spec_code() == 201,
        ErrorCode::ReadFailed.spec_code() == 202,
        ErrorCode::LocatorInvalid.spec_code() == 205,
        ErrorCode::LocatorExpired.spec_code() == 206,
        ErrorCode::ObjectIdUnavailable.spec_code() == 207,
        ErrorCode::UnsupportedOperation.spec_code() == 208,
        ErrorCode::BudgetExceeded.spec_code() == 209,
        ErrorCode::UnsupportedEntry.spec_code() == 210,
        ErrorCode::Cancelled.spec_code() == 300,
        ErrorCode::Internal.spec_code() == 400,
        ErrorCode::RootNotFound.spec_label() == "E100 RootNotFound",
        ErrorCode::SourceInitFailed.spec_label() == "E101 SourceInitFailed",
        ErrorCode::ExecutorUnavailable.spec_label() == "E102 ExecutorUnavailable",
        ErrorCode::PlanInvalid.spec_label() == "E103 PlanInvalid",
        ErrorCode::PermissionDenied.spec_label() == "E200 PermissionDenied",
        ErrorCode::GoneDuringScan.spec_label() == "E201 GoneDuringScan",
        ErrorCode::ReadFailed.spec_label() == "E202 ReadFailed",
        ErrorCode::LocatorInvalid.spec_label() == "E205 LocatorInvalid",
        ErrorCode::LocatorExpired.spec_label() == "E206 LocatorExpired",
        ErrorCode::ObjectIdUnavailable.spec_label() == "E207 ObjectIdUnavailable",
        ErrorCode::UnsupportedOperation.spec_label() == "E208 UnsupportedOperation",
        ErrorCode::BudgetExceeded.spec_label() == "E209 BudgetExceeded",
        ErrorCode::UnsupportedEntry.spec_label() == "E210 UnsupportedEntry",
        ErrorCode::Cancelled.spec_label() == "E300 Cancelled",
        ErrorCode::Internal.spec_label() == "E400 Internal",
{
}

/// An error with just enough context to act on it.
#[derive(Clone, Copy, PartialEq, Eq, Debug)]
pub struct Error {
    pub code: ErrorCode,
    pub source: Option<SourceId>,
    pub entry: Option<EntryId>,
    pub locator: Option<LocatorId>,
    /// Static explanation; never a formatted string built on the hot path.
    pub detail: Option<&'static str>,
}

impl Error {
    /// An error with the given code and an optional static explanation, and
    /// no source, entry or locator attached.
    pub open spec fn spec_new(code: ErrorCode, detail: Option<&'static str>) -> Error {
        Error { code, source: None, entry: None, locator: None, detail }
    }

    pub fn new(code: ErrorCode) -> (r: Self)
        ensures
            r == Error::spec_new(code, None),
    {
        Error { code, source: None, entry: None, locator: None, detail: None }
    }

    pub fn with_detail(code: ErrorCode, detail: &'static str) -> (r: Self)
        ensures
            r == Error::spec_new(code, Some(detail)),
    {
        Error { code, source: None, entry: None, locator: None, detail: Some(detail) }
    }

    /// The human-readable rendering: the code's label, then `: ` and the
    /// detail when there is one.
    pub fn message(&self) -> (r: String)
        ensures
            r@ == self.code.spec_label()@ + match self.detail {
                Some(d) => ": "@ + d@,
                None => Seq::<char>::empty(),
            },
    {
        let mut s = String::from_str(self.code.label());
        if let Some(detail) = self.detail {
            s.append(": ");
            s.append(detail);
        }
        proof {
            if self.detail is None {
                assert(s@ =~= self.code.spec_label()@ + Seq::<char>::empty());
            } else {
                assert(s@ =~= self.code.spec_label()@ + (": "@ + self.detail->0@));
            }
        }
        s
    }

    /// Attach the entry the error is about.
    pub fn on_entry(self, entry: EntryId) -> (r: Self)
        ensures
            r == (Error { entry: Some(entry), ..self }),
    {
        Error { entry: Some(entry), ..self }
    }

    /// Attach the locator the error is about.
    pub fn on_locator(self, locator: LocatorId) -> (r: Self)
        ensures
            r == (Error { locator: Some(locator), ..self }),
    {
        Error { locator: Some(locator), ..self }
    }

    /// Attach the source the error came from.
    pub fn on_source(self, source: SourceId) -> (r: Self)
        ensures
            r == (Error { source: Some(source), ..self }),
    {
        Error { source: Some(source), ..self }
    }
}

/// An entry-level failure retained for reporting.
#[derive(Clone, Copy, PartialEq, Eq, Structural, Debug)]
pub struct EntryError {
    pub code: ErrorCode,
    pub entry: Option<EntryId>,
    pub locator: Option<LocatorId>,
}

impl EntryError {
    pub fn new(code: ErrorCode, entry: Option<EntryId>, locator: Option<LocatorId>) -> (r: Self)
        ensures
            r.code == code,
            r.entry == entry,
            r.locator == locator,
    {
        EntryError { code, entry, locator }
    }
}

/// Entry-level errors are counted, not accumulated without limit.
///
/// One permission-denied directory on a network mount can produce millions of
/// errors; keeping them all would blow the memory budget for nothing. Past the
/// cap only the count grows.
#[derive(Clone, Debug)]
pub struct ErrorBudget {
    /// How many individual entry errors to retain.
    pub max_retained: usize,
    retained: Vec<EntryError>,
    total: u64,
}

/// What recording `e` does to the errors kept in detail under cap `cap`:
/// it is kept while fewer than `cap` are kept, and dropped after that.
pub open spec fn record_step(retained: Seq<EntryError>, cap: nat, e: EntryError) -> Seq<EntryError> {
    if retained.len() < cap {
        retained.push(e)
    } else {
        retained
    }
}

/// The errors kept in detail by a fresh budget with cap `cap` after
/// recording `errors`, one after the other.
pub open spec fn retained_after(errors: Seq<EntryError>, cap: nat) -> Seq<EntryError>
    decreases errors.len(),
{
    if errors.len() == 0 {
        Seq::empty()
    } else {
        record_step(retained_after(errors.drop_last(), cap), cap, errors.last())
    }
}

impl ErrorBudget {
    /// The errors kept in detail, in the order they were recorded.
    pub closed spec fn retained_errors(&self) -> Seq<EntryError> {
        self.retained@
    }

    /// How many errors were recorded in all.
    pub closed spec fn total_errors(&self) -> nat {
        self.total as nat
    }

    /// The cap on errors kept in detail: the value of the public
    /// `max_retained` field, exactly. The body stays closed because the
    /// other fields are private, which makes the type opaque outside this
    /// module; a caller that assigns `max_retained` directly changes the cap.
    pub closed spec fn cap(&self) -> nat {
        self.max_retained as nat
    }

    /// Never more errors kept than recorded.
    pub closed spec fn wf(&self) -> bool {
        self.retained@.len() <= self.total
    }

    /// A budget keeping at most `max_retained` errors in detail.
    pub fn new(max_retained: usize) -> (r: Self)
        ensures
            r.wf(),
            r.cap() == max_retained,
            r.retained_errors() == Seq::<EntryError>::empty(),
            r.total_errors() == 0,
    {
        let capacity = if max_retained < 1024 {
            max_retained
        } else {
            1024
        };
        ErrorBudget { max_retained, retained: Vec::with_capacity(capacity), total: 0 }
    }

    /// Count one more error; keep it in detail while fewer than
    /// `max_retained` are kept.
    pub fn record(&mut self, error: EntryError)
        requires
            old(self).wf(),
            old(self).total_errors() < u64::MAX,
        ensures
            final(self).wf(),
            final(self).cap() == old(self).cap(),
            final(self).total_errors() == old(self).total_errors() + 1,
            final(self).retained_errors() == record_step(
                old(self).retained_errors(),
                old(self).cap(),
                error,
            ),
    {
        self.total = self.total + 1;
        if self.retained.len() < self.max_retained {
            self.retained.push(error);
        }
    }

    /// The cap on errors kept in detail: the value of the `max_retained`
    /// field.
    pub fn max_retained(&self) -> (r: usize)
        ensures
            r == self.cap(),
    {
        self.max_retained
    }

    /// Total number of entry-level errors seen, retained or not.
    pub fn total(&self) -> (r: u64)
        ensures
            r == self.total_errors(),
    {
        self.total
    }

    /// Number of errors dropped by the cap.
    pub fn dropped(&self) -> (r: u64)
        requires
            self.wf(),
        ensures
            r == self.total_errors() - self.retained_errors().len(),
    {
        self.total - self.retained.len() as u64
    }

    /// The errors kept in detail.
    pub fn retained(&self) -> (r: &[EntryError])
        ensures
            r@ == self.retained_errors(),
    {
        self.retained.as_slice()
    }

    /// True when no error was recorded.
    pub fn is_empty(&self) -> (r: bool)
        ensures
            r == (self.total_errors() == 0),
    {
        self.total == 0
    }
}

impl Default for ErrorBudget {
    /// A budget keeping the first 1024 errors in detail.
    fn default() -> (r: Self)
        ensures
            r.wf(),
            r.cap() == 1024,
            r.retained_errors() == Seq::<EntryError>::empty(),
            r.total_errors() == 0,
    {
        ErrorBudget { max_retained: 1024, retained: Vec::new(), total: 0 }
    }
}

/// The errors a budget with cap `cap` keeps after recording `errors` into a
/// fresh budget: the first ones, up to the cap.
pub open spec fn kept_errors(errors: Seq<EntryError>, cap: nat) -> Seq<EntryError> {
    errors.take(if errors.len() < cap { errors.len() as int } else { cap as int })
}

/// Recording into a budget that holds the first errors up to the cap keeps
/// holding exactly the first errors up to the cap.
pub proof fn lemma_record_keeps_first_errors(errors: Seq<EntryError>, cap: nat, e: EntryError)
    ensures
        record_step(kept_errors(errors, cap), cap, e) == kept_errors(errors.push(e), cap),
        kept_errors(errors, cap).len() <= cap,
        errors.len() - kept_errors(errors, cap).len() == (if errors.len() < cap {
            0
        } else {
            errors.len() - cap
        }),
{
    let k = kept_errors(errors, cap);
    if errors.len() < cap {
        assert(k.push(e) =~= kept_errors(errors.push(e), cap));
    } else {
        assert(k =~= kept_errors(errors.push(e), cap));
    }
}

/// The retention budget: a fresh budget with cap `cap` that recorded
/// `errors` one after the other keeps in detail exactly the first of them, up
/// to the cap, in the order they came; it never keeps more than the cap, and
/// it reports as dropped all the others.
pub proof fn lemma_budget_after_records(errors: Seq<EntryError>, cap: nat)
    ensures
        retained_after(errors, cap) == kept_errors(errors, cap),
        retained_after(errors, cap).len() <= cap,
        retained_after(errors, cap).len() <= errors.len(),
        errors.len() - retained_after(errors, cap).len() == (if errors.len() < cap {
            0
        } else {
            errors.len() - cap
        }),
    decreases errors.len(),
{
    if errors.len() > 0 {
        let prefix = errors.drop_last();
        lemma_budget_after_records(prefix, cap);
        lemma_record_keeps_first_errors(prefix, cap, errors.last());
        assert(prefix.push(errors.last()) =~= errors);
    } else {
        assert(kept_errors(errors, cap) =~= Seq::<EntryError>::empty());
    }
}

} // verus!
