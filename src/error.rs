//! The two kinds of failure that a client can see.

use vstd::prelude::*;

verus! {

/// A failed request: `NotFound` answers 404, `BadRequest` answers 400.
#[derive(Debug)]
pub enum MapError {
    NotFound(String),
    BadRequest(String),
}

/// What a `MapError` holds, as mathematical values.
pub enum ErrorView {
    NotFound(Seq<char>),
    BadRequest(Seq<char>),
}

impl View for MapError {
    type V = ErrorView;

    open spec fn view(&self) -> ErrorView {
        match self {
            MapError::NotFound(m) => ErrorView::NotFound(m@),
            MapError::BadRequest(m) => ErrorView::BadRequest(m@),
        }
    }
}

/// A result of the library, with its string and error seen through their views.
pub open spec fn result_view(r: Result<String, MapError>) -> Result<Seq<char>, ErrorView> {
    match r {
        Ok(s) => Ok(s@),
        Err(e) => Err(e@),
    }
}

impl MapError {
    /// The HTTP status code of the response that carries this error.
    pub fn status(&self) -> (r: u16)
        ensures
            self is NotFound ==> r == 404,
            self is BadRequest ==> r == 400,
    {
        match self {
            MapError::NotFound(_) => 404,
            MapError::BadRequest(_) => 400,
        }
    }

    /// The text of the response body.
    pub fn message(&self) -> (r: String)
        ensures
            r@ == match self {
                MapError::NotFound(m) => m@,
                MapError::BadRequest(m) => m@,
            },
    {
        match self {
            MapError::NotFound(m) => m.clone(),
            MapError::BadRequest(m) => m.clone(),
        }
    }
}

} // verus!
