//! Plain description of an HTTP request, handed to whatever transport the host provides.

use vstd::prelude::*;

verus! {

/// Supported request methods.
#[derive(Clone, Copy, Debug, PartialEq, Eq, Structural)]
pub enum FetchMethod {
    Get,
    Post,
    Put,
}

impl FetchMethod {
    /// The method's name as it is written on the wire.
    pub open spec fn name(self) -> Seq<char> {
        match self {
            FetchMethod::Get => "GET"@,
            FetchMethod::Post => "POST"@,
            FetchMethod::Put => "PUT"@,
        }
    }

    /// Return the string representation of the fetch method.
    pub fn as_str(&self) -> (s: &'static str)
        ensures
            s@ == self.name(),
    {
        match self {
            FetchMethod::Get => "GET",
            FetchMethod::Post => "POST",
            FetchMethod::Put => "PUT",
        }
    }
}

/// One request header.
#[derive(Debug)]
pub struct Header {
    pub name: String,
    pub value: String,
}

impl View for Header {
    type V = (Seq<char>, Seq<char>);

    open spec fn view(&self) -> (Seq<char>, Seq<char>) {
        (self.name@, self.value@)
    }
}

/// A HTTP request, ready to be performed.
#[derive(Debug)]
pub struct FetchRequest {
    /// Where the request goes
    pub url: String,
    /// Request method
    pub method: FetchMethod,
    /// Body sent in request
    pub body: String,
    /// Request headers, in the order in which they were set
    pub headers: Vec<Header>,
    /// Whether the response comes without a body to read
    pub empty_response: bool,
}

/// What a request says, as plain text.
pub struct RequestView {
    pub url: Seq<char>,
    pub method: FetchMethod,
    pub body: Seq<char>,
    pub headers: Seq<(Seq<char>, Seq<char>)>,
    pub empty_response: bool,
}

impl RequestView {
    /// Whether no header name stands twice, so that the headers are a map from
    /// names to values whatever their order.
    pub open spec fn headers_distinct(self) -> bool {
        forall|i: int, j: int|
            0 <= i < j < self.headers.len() ==> (#[trigger] self.headers[i]).0 != (#[trigger] self.headers[j]).0
    }
}

impl View for FetchRequest {
    type V = RequestView;

    open spec fn view(&self) -> RequestView {
        RequestView {
            url: self.url@,
            method: self.method,
            body: self.body@,
            headers: self.headers@.map_values(|h: Header| h@),
            empty_response: self.empty_response,
        }
    }
}

} // verus!
