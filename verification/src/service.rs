//! What the HTTP surface decides around the handlers: which endpoints the
//! origin guard protects, which fields a request must carry, and how a
//! failure is reported.

use crate::origin::{permits, text_of, validate_origin, Reason, RequestOrigin};
use crate::render::GenerateError;
use vstd::prelude::*;
use vstd::string::StringExecFns;

verus! {

/// The four endpoints of the service.
#[derive(Clone, Copy, Debug, PartialEq, Eq, Structural)]
pub enum Endpoint {
    /// `POST /api/generate`
    Generate,
    /// `GET /api/qr`
    Qr,
    /// `POST /api/check-capacity`
    CheckCapacity,
    /// `GET /api/health`
    Health,
}

impl Endpoint {
    /// The origin guard protects the two endpoints that make images.
    pub open spec fn gated(self) -> bool {
        self == Endpoint::Generate || self == Endpoint::Qr
    }

    /// Whether the origin guard protects this endpoint.
    pub fn is_gated(&self) -> (g: bool)
        ensures
            g == self.gated(),
    {
        match self {
            Endpoint::Generate => true,
            Endpoint::Qr => true,
            Endpoint::CheckCapacity => false,
            Endpoint::Health => false,
        }
    }
}

/// Where a request carries its fields.
#[derive(Clone, Copy, Debug, PartialEq, Eq, Structural)]
pub enum Source {
    /// In a JSON body.
    Body,
    /// In the query of the URL.
    Query,
}

/// Why a request was not served.
#[derive(Clone, Copy, Debug, PartialEq, Eq, Structural)]
pub enum Failure {
    /// The request has no `data`.
    MissingData(Source),
    /// The origin guard turned the request away.
    Denied(Reason),
    /// No image could be made.
    Generate(GenerateError),
}

/// The format of a request that names none.
pub open spec fn default_format() -> Seq<char> {
    "svg"@
}

/// Lets a request through to an endpoint: always where the endpoint is not
/// gated, else where the origin guard permits.
pub fn guard(endpoint: Endpoint, req: &RequestOrigin, secret: Option<&String>) -> (r: Result<
    (),
    Failure,
>)
    ensures
        r is Ok <==> !endpoint.gated() || permits(
            req.verdict(
                match secret {
                    Some(s) => Some(s@),
                    None => None,
                },
            ),
        ),
        r matches Err(e) ==> e == Failure::Denied(
            req.verdict(
                match secret {
                    Some(s) => Some(s@),
                    None => None,
                },
            ),
        ),
{
    if !endpoint.is_gated() {
        return Ok(());
    }
    let decision = validate_origin(req, secret);
    if decision.allowed {
        Ok(())
    } else {
        Err(Failure::Denied(decision.reason))
    }
}

/// The data and the format of a request for an image: the data must be
/// there, the format is `svg` where none is named.
pub fn request_fields<'a>(source: Source, data: Option<&'a str>, format: Option<&'a str>) -> (r:
    Result<(&'a str, &'a str), Failure>)
    ensures
        match r {
            Ok(fields) => data == Some(fields.0) && fields.1@ == (match format {
                Some(name) => name@,
                None => default_format(),
            }),
            Err(e) => data is None && e == Failure::MissingData(source),
        },
{
    match data {
        None => Err(Failure::MissingData(source)),
        Some(text) => match format {
            Some(name) => Ok((text, name)),
            None => Ok((text, "svg")),
        },
    }
}

/// A number in decimal digits.
pub open spec fn decimal(n: nat) -> Seq<char>
    decreases n,
{
    if n < 10 {
        digit(n)
    } else {
        decimal(n / 10) + digit(n % 10)
    }
}

/// One decimal digit as text.
pub open spec fn digit(d: nat) -> Seq<char> {
    if d == 0 {
        "0"@
    } else if d == 1 {
        "1"@
    } else if d == 2 {
        "2"@
    } else if d == 3 {
        "3"@
    } else if d == 4 {
        "4"@
    } else if d == 5 {
        "5"@
    } else if d == 6 {
        "6"@
    } else if d == 7 {
        "7"@
    } else if d == 8 {
        "8"@
    } else {
        "9"@
    }
}

/// One decimal digit as text.
fn digit_text(d: usize) -> (s: &'static str)
    requires
        d < 10,
    ensures
        s@ == digit(d as nat),
{
    if d == 0 {
        "0"
    } else if d == 1 {
        "1"
    } else if d == 2 {
        "2"
    } else if d == 3 {
        "3"
    } else if d == 4 {
        "4"
    } else if d == 5 {
        "5"
    } else if d == 6 {
        "6"
    } else if d == 7 {
        "7"
    } else if d == 8 {
        "8"
    } else {
        "9"
    }
}

/// Writes a number in decimal digits.
pub fn decimal_text(n: usize) -> (s: String)
    ensures
        s@ == decimal(n as nat),
    decreases n,
{
    if n < 10 {
        String::from_str(digit_text(n))
    } else {
        decimal_text(n / 10).concat(digit_text(n % 10))
    }
}

impl Failure {
    /// The HTTP status that reports this failure: 400 for a request that is
    /// not valid, 403 for one that the guard turned away, 422 for data that
    /// is too long, 500 where the image could not be written.
    pub open spec fn status_code(self) -> u16 {
        match self {
            Failure::MissingData(_) => 400,
            Failure::Denied(_) => 403,
            Failure::Generate(GenerateError::InvalidFormat) => 400,
            Failure::Generate(GenerateError::CapacityExceeded { .. }) => 422,
            Failure::Generate(GenerateError::Encoding) => 500,
        }
    }

    /// The text that reports this failure.
    pub open spec fn text(self) -> Seq<char> {
        match self {
            Failure::MissingData(Source::Body) => "Missing 'data' field"@,
            Failure::MissingData(Source::Query) => "Missing 'data' query parameter"@,
            Failure::Denied(reason) => reason.text(),
            Failure::Generate(GenerateError::InvalidFormat) => "Invalid format. Use 'svg' or 'png'"@,
            Failure::Generate(GenerateError::CapacityExceeded { byte_count }) =>
                "QR generation failed: data too long. Data size: "@ + decimal(byte_count as nat)
                + " bytes. Please reduce the data size."@,
            Failure::Generate(GenerateError::Encoding) => "PNG encoding failed"@,
        }
    }

    /// The HTTP status that reports this failure.
    pub fn status(&self) -> (code: u16)
        ensures
            code == self.status_code(),
    {
        match self {
            Failure::MissingData(_) => 400,
            Failure::Denied(_) => 403,
            Failure::Generate(e) => match e {
                GenerateError::InvalidFormat => 400,
                GenerateError::CapacityExceeded { .. } => 422,
                GenerateError::Encoding => 500,
            },
        }
    }

    /// The text that reports this failure. For data that is too long it
    /// names the length and asks for less.
    pub fn message(&self) -> (s: String)
        ensures
            s@ == self.text(),
    {
        match self {
            Failure::MissingData(source) => match source {
                Source::Body => String::from_str("Missing 'data' field"),
                Source::Query => String::from_str("Missing 'data' query parameter"),
            },
            Failure::Denied(reason) => reason.message(),
            Failure::Generate(e) => match e {
                GenerateError::InvalidFormat => String::from_str(
                    "Invalid format. Use 'svg' or 'png'",
                ),
                GenerateError::CapacityExceeded { byte_count } => {
                    let size = decimal_text(*byte_count);
                    String::from_str("QR generation failed: data too long. Data size: ").concat(
                        size.as_str(),
                    ).concat(" bytes. Please reduce the data size.")
                },
                GenerateError::Encoding => String::from_str("PNG encoding failed"),
            },
        }
    }
}

/// Every failure is reported as an error: none has a status that means
/// success.
pub proof fn lemma_failures_are_errors(failure: Failure)
    ensures
        400 <= failure.status_code() < 600,
{
}

} // verus!
