//! The rows of the tracked-item table and the values that fetches produce.

use vstd::prelude::*;

verus! {

/// What a row holds, as plain text.
pub struct RowView {
    pub id: Seq<char>,
    pub name: Seq<char>,
    pub link: Seq<char>,
    pub css_selector: Seq<char>,
    pub previous_value: Seq<char>,
    pub latest_value: Seq<char>,
    pub last_updated: Seq<char>,
}

/// One tracked item: where its value is found, and the two values seen last.
pub struct ValueData {
    pub id: String,
    pub name: String,
    pub link: String,
    pub css_selector: String,
    pub previous_value: String,
    pub latest_value: String,
    pub last_updated: String,
}

impl View for ValueData {
    type V = RowView;

    open spec fn view(&self) -> RowView {
        RowView {
            id: self.id@,
            name: self.name@,
            link: self.link@,
            css_selector: self.css_selector@,
            previous_value: self.previous_value@,
            latest_value: self.latest_value@,
            last_updated: self.last_updated@,
        }
    }
}

impl DeepView for ValueData {
    type V = RowView;

    open spec fn deep_view(&self) -> RowView {
        self@
    }
}

impl Clone for ValueData {
    fn clone(&self) -> (copy: Self)
        ensures
            copy@ == self@,
    {
        ValueData {
            id: self.id.clone(),
            name: self.name.clone(),
            link: self.link.clone(),
            css_selector: self.css_selector.clone(),
            previous_value: self.previous_value.clone(),
            latest_value: self.latest_value.clone(),
            last_updated: self.last_updated.clone(),
        }
    }
}

/// What a fetch produced, as plain text.
pub struct OutcomeView {
    pub id: Seq<char>,
    pub value: Seq<char>,
}

/// The value that one fetch produced, tagged with the id of the row it was
/// made for.  A failed fetch is carried as the empty value.
pub struct FetchOutcome {
    pub id: String,
    pub value: String,
}

impl View for FetchOutcome {
    type V = OutcomeView;

    open spec fn view(&self) -> OutcomeView {
        OutcomeView { id: self.id@, value: self.value@ }
    }
}

impl DeepView for FetchOutcome {
    type V = OutcomeView;

    open spec fn deep_view(&self) -> OutcomeView {
        self@
    }
}

impl Clone for FetchOutcome {
    fn clone(&self) -> (copy: Self)
        ensures
            copy@ == self@,
    {
        FetchOutcome { id: self.id.clone(), value: self.value.clone() }
    }
}

/// What a fetch is asked to do, as plain text.
pub struct RequestView {
    pub handle: nat,
    pub id: Seq<char>,
    pub link: Seq<char>,
    pub css_selector: Seq<char>,
}

/// One fetch that the embedding program is asked to start: the page, the
/// locator, the id of the row it is for, and the handle under which its
/// completion is to be reported.
pub struct FetchRequest {
    pub handle: usize,
    pub id: String,
    pub link: String,
    pub css_selector: String,
}

impl View for FetchRequest {
    type V = RequestView;

    open spec fn view(&self) -> RequestView {
        RequestView {
            handle: self.handle as nat,
            id: self.id@,
            link: self.link@,
            css_selector: self.css_selector@,
        }
    }
}

impl DeepView for FetchRequest {
    type V = RequestView;

    open spec fn deep_view(&self) -> RequestView {
        self@
    }
}

/// The request that fetches the value of `row` under `handle`.
pub open spec fn request_for(row: RowView, handle: nat) -> RequestView {
    RequestView { handle, id: row.id, link: row.link, css_selector: row.css_selector }
}

/// Why a fetch produced no value.
#[derive(Debug)]
pub struct FetchError {
    pub message: String,
}

/// The value that a fetch result stands for: its text, or nothing where the
/// fetch failed.
pub open spec fn value_or_empty_spec(result: Result<String, FetchError>) -> Seq<char> {
    match result {
        Ok(value) => value@,
        Err(_) => Seq::<char>::empty(),
    }
}

/// Degrades a failed fetch to the empty value.
pub fn value_or_empty(result: Result<String, FetchError>) -> (value: String)
    ensures
        value@ == value_or_empty_spec(result),
{
    match result {
        Ok(value) => value,
        Err(_) => String::new(),
    }
}

impl FetchRequest {
    /// The request that fetches the value of `row` under `handle`.
    pub fn for_row(row: &ValueData, handle: usize) -> (request: FetchRequest)
        ensures
            request@ == request_for(row@, handle as nat),
    {
        FetchRequest {
            handle,
            id: row.id.clone(),
            link: row.link.clone(),
            css_selector: row.css_selector.clone(),
        }
    }
}

} // verus!
