//! Outcomes of simulating an order's settlement, and the table that maps the
//! reason code of a reverted simulation to an outcome.

use vstd::prelude::*;
use vstd::std_specs::convert::FromSpecImpl;
use crate::contracts::common::ResolvedOrder;

verus! {

/// What a settlement simulation says about an order.
#[derive(Debug, PartialEq, Eq)]
pub enum ValidationStatus {
    Expired,
    NonceUsed,
    InsufficientFunds,
    InvalidSignature,
    InvalidOrderFields,
    /// A reason code that the table does not hold, kept as it was received.
    UnknownError(String),
    ValidationFailed,
    ExclusivityPeriod,
    OK,
}

/// Number of rows in the revert-code table.
pub const REVERT_TABLE_LEN: usize = 16;

/// The revert-code table: each row pairs a reason code with the status it
/// stands for.
pub open spec fn revert_table() -> Seq<(Seq<char>, ValidationStatus)> {
    seq![
        ("0x302e5b7c"@, ValidationStatus::InvalidOrderFields),
        ("0x773a6187"@, ValidationStatus::InvalidOrderFields),
        ("0x4ddf4a64"@, ValidationStatus::InvalidOrderFields),
        ("0xd303758b"@, ValidationStatus::InvalidOrderFields),
        ("0x7c1f8113"@, ValidationStatus::InvalidOrderFields),
        ("0x43133453"@, ValidationStatus::InvalidOrderFields),
        ("0xb9ec1e96"@, ValidationStatus::ExclusivityPeriod),
        ("0x062dec56"@, ValidationStatus::ExclusivityPeriod),
        ("0x75c1bb14"@, ValidationStatus::ExclusivityPeriod),
        ("0x8baa579f"@, ValidationStatus::InvalidSignature),
        ("0x815e1d64"@, ValidationStatus::InvalidSignature),
        ("0x48fee69c"@, ValidationStatus::InvalidOrderFields),
        ("0x70f65caa"@, ValidationStatus::Expired),
        ("0xee3b3d4b"@, ValidationStatus::NonceUsed),
        ("0x0a0b0d79"@, ValidationStatus::ValidationFailed),
        ("0x756688fe"@, ValidationStatus::NonceUsed),
    ]
}

/// The status of the first row at or after `from` whose code is `code`.
pub open spec fn lookup_from(code: Seq<char>, from: int) -> Option<ValidationStatus>
    decreases revert_table().len() - from,
{
    if from < 0 || from >= revert_table().len() {
        None
    } else if revert_table()[from].0 == code {
        Some(revert_table()[from].1)
    } else {
        lookup_from(code, from + 1)
    }
}

/// The status that the table gives for `code`, if it holds the code.
pub open spec fn known_status(code: Seq<char>) -> Option<ValidationStatus> {
    lookup_from(code, 0)
}

/// Whether some row of the table holds `code`.
pub open spec fn is_known_code(code: Seq<char>) -> bool {
    exists|i: int| 0 <= i < revert_table().len() && #[trigger] revert_table()[i].0 == code
}

/// The status that a reverted simulation with reason code `code` is given:
/// that of the code's row in the table, or `UnknownError` holding the code.
pub open spec fn status_for(code: String) -> ValidationStatus {
    match known_status(code@) {
        Some(status) => status,
        None => ValidationStatus::UnknownError(code),
    }
}

/// Row `i` of the revert-code table.
pub fn revert_table_row(i: usize) -> (row: (&'static str, ValidationStatus))
    requires
        i < REVERT_TABLE_LEN,
    ensures
        row.0@ == revert_table()[i as int].0,
        row.1 == revert_table()[i as int].1,
{
    if i == 0 {
        ("0x302e5b7c", ValidationStatus::InvalidOrderFields)
    } else if i == 1 {
        ("0x773a6187", ValidationStatus::InvalidOrderFields)
    } else if i == 2 {
        ("0x4ddf4a64", ValidationStatus::InvalidOrderFields)
    } else if i == 3 {
        ("0xd303758b", ValidationStatus::InvalidOrderFields)
    } else if i == 4 {
        ("0x7c1f8113", ValidationStatus::InvalidOrderFields)
    } else if i == 5 {
        ("0x43133453", ValidationStatus::InvalidOrderFields)
    } else if i == 6 {
        ("0xb9ec1e96", ValidationStatus::ExclusivityPeriod)
    } else if i == 7 {
        ("0x062dec56", ValidationStatus::ExclusivityPeriod)
    } else if i == 8 {
        ("0x75c1bb14", ValidationStatus::ExclusivityPeriod)
    } else if i == 9 {
        ("0x8baa579f", ValidationStatus::InvalidSignature)
    } else if i == 10 {
        ("0x815e1d64", ValidationStatus::InvalidSignature)
    } else if i == 11 {
        ("0x48fee69c", ValidationStatus::InvalidOrderFields)
    } else if i == 12 {
        ("0x70f65caa", ValidationStatus::Expired)
    } else if i == 13 {
        ("0xee3b3d4b", ValidationStatus::NonceUsed)
    } else if i == 14 {
        ("0x0a0b0d79", ValidationStatus::ValidationFailed)
    } else {
        ("0x756688fe", ValidationStatus::NonceUsed)
    }
}

/// Looks `code` up in the revert-code table.
pub fn lookup_revert_code(code: &String) -> (res: Option<ValidationStatus>)
    ensures
        res == known_status(code@),
{
    let mut i: usize = 0;
    while i < REVERT_TABLE_LEN
        invariant
            i <= REVERT_TABLE_LEN,
            revert_table().len() == REVERT_TABLE_LEN,
            known_status(code@) == lookup_from(code@, i as int),
        decreases REVERT_TABLE_LEN - i,
    {
        let (text, status) = revert_table_row(i);
        let candidate: String = text.to_owned();
        if *code == candidate {
            return Some(status);
        }
        i += 1;
    }
    None
}

impl From<String> for ValidationStatus {
    /// Classifies the reason code of a reverted simulation: the status of
    /// its row in the table, or `UnknownError` holding the code itself.
    fn from(s: String) -> (res: Self) {
        match lookup_revert_code(&s) {
            Some(status) => status,
            None => ValidationStatus::UnknownError(s),
        }
    }
}

impl FromSpecImpl<String> for ValidationStatus {
    open spec fn obeys_from_spec() -> bool {
        true
    }

    open spec fn from_spec(s: String) -> Self {
        status_for(s)
    }
}

/// From row `from` on, the lookup finds nothing exactly when no row from
/// there on holds the code.
pub proof fn lemma_lookup_none(code: Seq<char>, from: int)
    requires
        0 <= from,
    ensures
        lookup_from(code, from) is None <==> forall|i: int|
            from <= i < revert_table().len() ==> #[trigger] revert_table()[i].0 != code,
    decreases revert_table().len() - from,
{
    if from < revert_table().len() {
        lemma_lookup_none(code, from + 1);
    }
}

/// A reason code that no row of the table holds is classified as
/// `UnknownError`, and the status carries that very code.
pub proof fn lemma_unknown_code_is_kept(code: String)
    requires
        !is_known_code(code@),
    ensures
        status_for(code) == ValidationStatus::UnknownError(code),
{
    lemma_lookup_none(code@, 0);
}

/// A status that the table gives is never `UnknownError`.
pub proof fn lemma_known_code_is_classified(code: String)
    requires
        is_known_code(code@),
    ensures
        known_status(code@) is Some,
        !(status_for(code) is UnknownError),
{
    lemma_lookup_none(code@, 0);
    lemma_lookup_status(code@, 0);
}

/// Whatever the lookup finds is the status of some row, hence none of them
/// `UnknownError`.
pub proof fn lemma_lookup_status(code: Seq<char>, from: int)
    requires
        0 <= from,
    ensures
        match lookup_from(code, from) {
            Some(status) => !(status is UnknownError),
            None => true,
        },
    decreases revert_table().len() - from,
{
    if from < revert_table().len() {
        lemma_lookup_status(code, from + 1);
    }
}

/// Why a settlement simulation failed.
#[derive(Debug, PartialEq, Eq)]
pub enum OracleError {
    /// The simulated settlement reverted, with this reason code.
    Revert(String),
    /// The simulation could not be made, for this cause.
    Transport(String),
}

/// Why an order could not be validated.
#[derive(Debug, PartialEq, Eq)]
pub enum ValidationError {
    /// The call to the contract failed for a cause other than a revert.
    ContractError(String),
    /// The order's signature is not hexadecimal text.
    SigParseError(String),
}

/// What a simulation's result says about the order: a settlement means
/// `OK`, a revert the status that its reason code stands for. A failure to
/// make the simulation gives no status: it is handed on as an error.
pub open spec fn classification(result: Result<ResolvedOrder, OracleError>) -> Result<
    ValidationStatus,
    ValidationError,
> {
    match result {
        Ok(_) => Ok(ValidationStatus::OK),
        Err(OracleError::Revert(code)) => Ok(status_for(code)),
        Err(OracleError::Transport(cause)) => Err(ValidationError::ContractError(cause)),
    }
}

/// Classifies the result of a settlement simulation.
pub fn classify(result: Result<ResolvedOrder, OracleError>) -> (res: Result<
    ValidationStatus,
    ValidationError,
>)
    ensures
        res == classification(result),
{
    match result {
        Ok(_) => Ok(ValidationStatus::OK),
        Err(OracleError::Revert(code)) => Ok(ValidationStatus::from(code)),
        Err(OracleError::Transport(cause)) => Err(ValidationError::ContractError(cause)),
    }
}

/// Whether a simulation's result says that the order can no longer be
/// settled: it was classified, and not as `OK`.
pub open spec fn is_unsettleable(result: Result<ResolvedOrder, OracleError>) -> bool {
    match classification(result) {
        Ok(status) => status != ValidationStatus::OK,
        Err(_) => false,
    }
}

/// A revert is never classified as `OK`: an order is unsettleable exactly
/// when its simulation reverted.
pub proof fn lemma_unsettleable_is_revert(result: Result<ResolvedOrder, OracleError>)
    ensures
        is_unsettleable(result) <==> result matches Err(OracleError::Revert(_)),
{
    match result {
        Err(OracleError::Revert(code)) => {
            lemma_lookup_status_not_ok(code@, 0);
        },
        _ => {},
    }
}

/// Whatever the lookup finds is the status of some row, and none of them is
/// `OK`.
pub proof fn lemma_lookup_status_not_ok(code: Seq<char>, from: int)
    requires
        0 <= from,
    ensures
        lookup_from(code, from) != Some(ValidationStatus::OK),
    decreases revert_table().len() - from,
{
    if from < revert_table().len() {
        lemma_lookup_status_not_ok(code, from + 1);
    }
}

/// A revert with a reason code that no row of the table holds is classified
/// as `UnknownError`, and the status carries that very code.
pub proof fn lemma_unknown_revert_is_kept(code: String)
    requires
        !is_known_code(code@),
    ensures
        classification(Err(OracleError::Revert(code))) == Ok::<ValidationStatus, ValidationError>(
            ValidationStatus::UnknownError(code),
        ),
{
    lemma_unknown_code_is_kept(code);
}

} // verus!
