use vstd::prelude::*;

verus! {

/// The failures of one invocation, one variant per stage of the pipeline.
/// Every failure aborts the run; none is retried.
#[derive(Debug)]
pub enum HttpError {
    /// The command-line URL is not a syntactically valid absolute URL.
    MalformedUrl,
    /// A POST body token has no `=` separator.
    MalformedPair,
    /// The request itself failed (DNS, connect, TLS, timeout, protocol).
    NetworkError(String),
    /// The response body could not be read as text.
    BodyReadError(String),
    /// The response declared a JSON content type, but its body is not JSON.
    MalformedJson,
}

impl HttpError {
    /// The text of the message printed before a non-zero exit.
    pub open spec fn message_spec(&self) -> Seq<char> {
        match self {
            HttpError::MalformedUrl => "malformed URL"@,
            HttpError::MalformedPair => "malformed key=value pair"@,
            HttpError::NetworkError(s) => "network error: "@ + s@,
            HttpError::BodyReadError(s) => "could not read the response body: "@ + s@,
            HttpError::MalformedJson => "the response declared JSON but its body is not valid JSON"@,
        }
    }

    /// The human-readable message for this error.
    pub fn message(&self) -> (r: String)
        ensures
            r@ == self.message_spec(),
    {
        match self {
            HttpError::MalformedUrl => String::from_str("malformed URL"),
            HttpError::MalformedPair => String::from_str("malformed key=value pair"),
            HttpError::NetworkError(s) => String::from_str("network error: ").concat(
                s.as_str(),
            ),
            HttpError::BodyReadError(s) => String::from_str(
                "could not read the response body: ",
            ).concat(s.as_str()),
            HttpError::MalformedJson => String::from_str(
                "the response declared JSON but its body is not valid JSON",
            ),
        }
    }
}

} // verus!
