//! Sealed inputs and contexts of continued runs.
//!
//! Both are kept under what identifies their content: the same identity can
//! never be bound to other content.

use crate::digest::{file_id_fault, safe_id_filename};
use crate::error::{fault_text, OrchError};
use crate::text::{copy, str_eq};
use crate::json::Json;
use vstd::prelude::*;
use vstd::string::*;

verus! {

/// A sealed input, under the hash of its content.
#[derive(Debug)]
pub struct ContinuationInputSnapshot {
    pub input_hash: String,
    pub document: Json,
}

/// The bytes a model was given, under an identity made from its content.
#[derive(Debug)]
pub struct ContinuationContext {
    pub context_id: String,
    pub input_hash: String,
    pub document: Json,
}

/// Two inputs with the same content.
pub open spec fn same_input(a: ContinuationInputSnapshot, b: ContinuationInputSnapshot) -> bool {
    a.input_hash@ == b.input_hash@ && a.document@ == b.document@
}

/// Two contexts with the same content.
pub open spec fn same_context(a: ContinuationContext, b: ContinuationContext) -> bool {
    a.context_id@ == b.context_id@ && a.input_hash@ == b.input_hash@ && a.document@ == b.document@
}

fn inputs_match(a: &ContinuationInputSnapshot, b: &ContinuationInputSnapshot) -> (r: bool)
    ensures
        r == same_input(*a, *b),
{
    str_eq(a.input_hash.as_str(), b.input_hash.as_str()) && str_eq(
        a.document.text.as_str(),
        b.document.text.as_str(),
    )
}

fn contexts_match(a: &ContinuationContext, b: &ContinuationContext) -> (r: bool)
    ensures
        r == same_context(*a, *b),
{
    str_eq(a.context_id.as_str(), b.context_id.as_str()) && str_eq(
        a.input_hash.as_str(),
        b.input_hash.as_str(),
    ) && str_eq(a.document.text.as_str(), b.document.text.as_str())
}

/// The text of an error.
pub open spec fn error_text(e: OrchError) -> Seq<char> {
    crate::error::code_name(e.code) + ": "@ + e.message@
}

/// Why an input is not stored. `refusal` says why it is refused as it stands.
pub open spec fn input_fault(
    snapshot: ContinuationInputSnapshot,
    refusal: Option<OrchError>,
    existing: Option<ContinuationInputSnapshot>,
) -> Option<Seq<char>> {
    match refusal {
        Some(e) => Some(error_text(e)),
        None => match file_id_fault(snapshot.input_hash@) {
            Some(f) => Some(fault_text(f)),
            None => match existing {
                Some(e) => if same_input(e, snapshot) {
                    None
                } else {
                    Some("continuation input hash is already bound to different content"@)
                },
                None => None,
            },
        },
    }
}

/// What the storing of an input comes to.
pub open spec fn input_saving(
    snapshot: ContinuationInputSnapshot,
    refusal: Option<OrchError>,
    existing: Option<ContinuationInputSnapshot>,
    r: Result<bool, String>,
) -> bool {
    match input_fault(
        snapshot,
        refusal,
        existing,
    ) {
        Some(m) => r is Err && r->Err_0@ == m,
        None => r == Ok::<bool, String>(existing is None),
    }
}

/// Whether an input is to be written: the same content may be stored again,
/// which writes nothing.
pub fn save_continuation_input(
    snapshot: &ContinuationInputSnapshot,
    refusal: Option<OrchError>,
    existing: Option<&ContinuationInputSnapshot>,
) -> (r: Result<bool, String>)
    ensures
        input_saving(
            *snapshot,
            refusal,
            match existing {
                Some(e) => Some(*e),
                None => None,
            },
            r,
        ),
{
    match refusal {
        Some(e) => {
            return Err(e.to_text());
        },
        None => {},
    }
    match safe_id_filename(snapshot.input_hash.as_str()) {
        Ok(_) => {},
        Err(e) => {
            return Err(e.to_text());
        },
    }
    match existing {
        Some(e) => {
            if !inputs_match(e, snapshot) {
                return Err(copy("continuation input hash is already bound to different content"));
            }
            Ok(false)
        },
        None => Ok(true),
    }
}

/// What is known of the input that a context names.
#[derive(Debug)]
pub struct ReferencedInput {
    pub snapshot: ContinuationInputSnapshot,
    /// Why the input is refused as it stands.
    pub refusal: Option<OrchError>,
    /// What a context assembled from it is, or why there is none.
    pub assembled: Result<ContinuationContext, String>,
}

/// Why a context does not follow from its input.
pub open spec fn context_fault(
    context: ContinuationContext,
    refusal: Option<OrchError>,
    input: Option<ReferencedInput>,
) -> Option<Seq<char>> {
    match refusal {
        Some(e) => Some(error_text(e)),
        None => match file_id_fault(context.context_id@) {
            Some(f) => Some(fault_text(f)),
            None => match file_id_fault(context.input_hash@) {
                Some(f) => Some(fault_text(f)),
                None => match input {
                    None => Some("continuation context input snapshot is missing"@),
                    Some(input) => match input.refusal {
                        Some(e) => Some(error_text(e)),
                        None => if input.snapshot.input_hash@ != context.input_hash@ {
                            Some("continuation context input snapshot does not match"@)
                        } else {
                            match input.assembled {
                                Err(m) => Some(m@),
                                Ok(a) => if same_context(a, context) {
                                    None
                                } else {
                                    Some(
                                        "continuation context was not assembled from its referenced input"@,
                                    )
                                },
                            }
                        },
                    },
                },
            },
        },
    }
}

/// Refuses a context that does not follow from the input it names.
pub fn check_continuation_context(
    context: &ContinuationContext,
    refusal: Option<OrchError>,
    input: Option<ReferencedInput>,
) -> (r: Result<(), String>)
    ensures
        match context_fault(*context, refusal, input) {
            Some(m) => r is Err && r->Err_0@ == m,
            None => r is Ok,
        },
{
    match refusal {
        Some(e) => {
            return Err(e.to_text());
        },
        None => {},
    }
    match safe_id_filename(context.context_id.as_str()) {
        Ok(_) => {},
        Err(e) => {
            return Err(e.to_text());
        },
    }
    match safe_id_filename(context.input_hash.as_str()) {
        Ok(_) => {},
        Err(e) => {
            return Err(e.to_text());
        },
    }
    let input: ReferencedInput = match input {
        Some(i) => i,
        None => {
            return Err(copy("continuation context input snapshot is missing"));
        },
    };
    match input.refusal {
        Some(e) => {
            return Err(e.to_text());
        },
        None => {},
    }
    if !str_eq(input.snapshot.input_hash.as_str(), context.input_hash.as_str()) {
        return Err(copy("continuation context input snapshot does not match"));
    }
    match input.assembled {
        Err(m) => Err(m),
        Ok(a) => {
            if !contexts_match(&a, context) {
                return Err(
                    copy("continuation context was not assembled from its referenced input"),
                );
            }
            Ok(())
        },
    }
}

/// What the storing of a context comes to.
pub open spec fn context_saving(
    context: ContinuationContext,
    refusal: Option<OrchError>,
    input: Option<ReferencedInput>,
    existing: Option<ContinuationContext>,
    r: Result<bool, String>,
) -> bool {
    match context_fault(context, refusal, input) {
        Some(m) => r is Err && r->Err_0@ == m,
        None => match existing {
            Some(e) => if same_context(e, context) {
                r == Ok::<bool, String>(false)
            } else {
                r is Err && r->Err_0@
                    == "continuation context ID is already bound to different content"@
            },
            None => r == Ok::<bool, String>(true),
        },
    }
}

/// Whether a context is to be written: it must follow from its input, and the
/// same content may be stored again, which writes nothing.
pub fn save_continuation_context(
    context: &ContinuationContext,
    refusal: Option<OrchError>,
    input: Option<ReferencedInput>,
    existing: Option<&ContinuationContext>,
) -> (r: Result<bool, String>)
    ensures
        context_saving(
            *context,
            refusal,
            input,
            match existing {
                Some(e) => Some(*e),
                None => None,
            },
            r,
        ),
{
    match check_continuation_context(context, refusal, input) {
        Ok(()) => {},
        Err(m) => {
            return Err(m);
        },
    }
    match existing {
        Some(e) => {
            if !contexts_match(e, context) {
                return Err(copy("continuation context ID is already bound to different content"));
            }
            Ok(false)
        },
        None => Ok(true),
    }
}

/// What an identity is bound to never changes: content that is stored under it
/// is the content that is there.
pub proof fn identities_stay_bound(
    snapshot: ContinuationInputSnapshot,
    refusal: Option<OrchError>,
    existing: ContinuationInputSnapshot,
)
    requires
        input_fault(snapshot, refusal, Some(existing)) is None,
    ensures
        same_input(existing, snapshot),
{
}

/// An input is written once. The same input again is accepted and not written,
/// and another under its hash is refused.
pub proof fn inputs_are_written_once(
    snapshot: ContinuationInputSnapshot,
    refusal: Option<OrchError>,
    existing: Option<ContinuationInputSnapshot>,
    r: Result<bool, String>,
)
    requires
        input_saving(snapshot, refusal, existing, r),
    ensures
        r is Ok <==> refusal is None && file_id_fault(snapshot.input_hash@) is None && (
        existing is Some ==> existing->0.input_hash@ == snapshot.input_hash@
            && existing->0.document@ == snapshot.document@),
        r is Ok ==> r->Ok_0 == (existing is None),
{
}

/// A context is stored only with the input it names on record, and only if it
/// is what comes of assembling that input. It is written once, and another
/// under its identity is refused.
pub proof fn contexts_come_from_their_input(
    context: ContinuationContext,
    refusal: Option<OrchError>,
    input: Option<ReferencedInput>,
    existing: Option<ContinuationContext>,
    r: Result<bool, String>,
)
    requires
        context_saving(context, refusal, input, existing, r),
    ensures
        r is Ok <==> {
            &&& refusal is None
            &&& file_id_fault(context.context_id@) is None
            &&& file_id_fault(context.input_hash@) is None
            &&& input is Some
            &&& input->0.refusal is None
            &&& input->0.snapshot.input_hash@ == context.input_hash@
            &&& input->0.assembled is Ok
            &&& input->0.assembled->Ok_0.context_id@ == context.context_id@
            &&& input->0.assembled->Ok_0.input_hash@ == context.input_hash@
            &&& input->0.assembled->Ok_0.document@ == context.document@
            &&& existing is Some ==> existing->0.context_id@ == context.context_id@
                && existing->0.input_hash@ == context.input_hash@ && existing->0.document@
                == context.document@
        },
        r is Ok ==> r->Ok_0 == (existing is None),
{
}

} // verus!
