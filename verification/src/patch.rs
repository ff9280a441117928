//! JSON patches that replace a value only if it is still what it was.
use crate::error::OperatorError;
use crate::ordered::TextMap;
use crate::outside::{is_pointer, parse_pointer};
use vstd::prelude::*;

verus! {

/// A JSON value in a patch.
pub enum PatchValue {
    /// A string.
    Text(String),
    /// An object whose fields are strings.
    Fields(TextMap<String>),
}

/// The contents of a `PatchValue`.
#[verifier::ext_equal]
pub enum PatchValueView {
    Text(Seq<char>),
    Fields(Map<Seq<char>, Seq<char>>),
}

impl DeepView for PatchValue {
    type V = PatchValueView;

    open spec fn deep_view(&self) -> PatchValueView {
        match self {
            PatchValue::Text(text) => PatchValueView::Text(text@),
            PatchValue::Fields(fields) => PatchValueView::Fields(fields@),
        }
    }
}

/// One step of a patch.
pub enum PatchOperation {
    /// The patch applies only if the value at the path is this one.
    Test { path: String, value: PatchValue },
    /// The value is put at the path.
    Add { path: String, value: PatchValue },
}

/// The contents of a `PatchOperation`.
#[verifier::ext_equal]
pub enum PatchOperationView {
    Test { path: Seq<char>, value: PatchValueView },
    Add { path: Seq<char>, value: PatchValueView },
}

impl DeepView for PatchOperation {
    type V = PatchOperationView;

    open spec fn deep_view(&self) -> PatchOperationView {
        match self {
            PatchOperation::Test { path, value } => PatchOperationView::Test {
                path: path@,
                value: value.deep_view(),
            },
            PatchOperation::Add { path, value } => PatchOperationView::Add {
                path: path@,
                value: value.deep_view(),
            },
        }
    }
}

/// The patch that puts a new value at a path. If there is an existing value, it applies only while
/// that value is still there.
pub open spec fn guarded_patch(
    path: Seq<char>,
    existing: Option<PatchValueView>,
    new: PatchValueView,
) -> Seq<PatchOperationView> {
    match existing {
        Some(value) => seq![
            PatchOperationView::Test { path, value },
            PatchOperationView::Add { path, value: new },
        ],
        None => seq![PatchOperationView::Add { path, value: new }],
    }
}

/// Makes the patch that puts a new value at a path while the existing one is still there.
pub fn replace_value(
    path: &str,
    existing: Option<PatchValue>,
    new: PatchValue,
) -> (operations: Result<Vec<PatchOperation>, OperatorError>)
    ensures
        operations is Ok <==> is_pointer(path@),
        operations matches Ok(list) ==> list.deep_view() == guarded_patch(
            path@,
            existing.deep_view(),
            new.deep_view(),
        ),
        operations matches Err(e) ==> e is Pointer,
{
    let ghost wanted = guarded_patch(path@, existing.deep_view(), new.deep_view());
    let pointer = match parse_pointer(path) {
        Ok(pointer) => pointer,
        Err(e) => {
            return Err(OperatorError::Pointer(e));
        },
    };
    let mut list: Vec<PatchOperation> = Vec::new();
    match existing {
        Some(value) => {
            list.push(PatchOperation::Test { path: pointer.clone(), value });
        },
        None => {},
    }
    list.push(PatchOperation::Add { path: pointer, value: new });
    assert(list.deep_view() =~= wanted);
    Ok(list)
}

/// Makes the patch that replaces a string.
pub fn patch(path: &str, existing: String, new: String) -> (operations: Result<
    Vec<PatchOperation>,
    OperatorError,
>)
    ensures
        operations is Ok <==> is_pointer(path@),
        operations matches Ok(list) ==> list.deep_view() == guarded_patch(
            path@,
            Some(PatchValueView::Text(existing@)),
            PatchValueView::Text(new@),
        ),
        operations matches Err(e) ==> e is Pointer,
{
    replace_value(path, Some(PatchValue::Text(existing)), PatchValue::Text(new))
}

} // verus!
