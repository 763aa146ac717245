//! Response status codes with their numbers and reason phrases.
use vstd::prelude::*;

verus! {

/// A number that is no supported status code.
pub struct ResultCodeConversionError;

#[derive(Debug, PartialEq, Eq, Clone, Copy, Structural)]
pub enum ResultCode {
    OK,
    Created,
    Accepted,
    NoContent,
    MultipleChoices,
    MovedPermanently,
    MovedTemporarily,
    NotModified,
    BadRequest,
    Unauthorized,
    Forbidden,
    NotFound,
    InternalServerError,
    NotImplemented,
    BadGateway,
    ServiceUnavailable,
}

/// The numeric code of a status.
pub open spec fn code_number(c: ResultCode) -> nat {
    match c {
        ResultCode::OK => 200,
        ResultCode::Created => 201,
        ResultCode::Accepted => 202,
        ResultCode::NoContent => 204,
        ResultCode::MultipleChoices => 300,
        ResultCode::MovedPermanently => 301,
        ResultCode::MovedTemporarily => 302,
        ResultCode::NotModified => 304,
        ResultCode::BadRequest => 400,
        ResultCode::Unauthorized => 401,
        ResultCode::Forbidden => 403,
        ResultCode::NotFound => 404,
        ResultCode::InternalServerError => 500,
        ResultCode::NotImplemented => 501,
        ResultCode::BadGateway => 502,
        ResultCode::ServiceUnavailable => 503,
    }
}

/// The status whose numeric code is `n`, if one is.
pub open spec fn code_for(n: nat) -> Option<ResultCode> {
    if n == 200 { Some(ResultCode::OK) }
    else if n == 201 { Some(ResultCode::Created) }
    else if n == 202 { Some(ResultCode::Accepted) }
    else if n == 204 { Some(ResultCode::NoContent) }
    else if n == 300 { Some(ResultCode::MultipleChoices) }
    else if n == 301 { Some(ResultCode::MovedPermanently) }
    else if n == 302 { Some(ResultCode::MovedTemporarily) }
    else if n == 304 { Some(ResultCode::NotModified) }
    else if n == 400 { Some(ResultCode::BadRequest) }
    else if n == 401 { Some(ResultCode::Unauthorized) }
    else if n == 403 { Some(ResultCode::Forbidden) }
    else if n == 404 { Some(ResultCode::NotFound) }
    else if n == 500 { Some(ResultCode::InternalServerError) }
    else if n == 501 { Some(ResultCode::NotImplemented) }
    else if n == 502 { Some(ResultCode::BadGateway) }
    else if n == 503 { Some(ResultCode::ServiceUnavailable) }
    else { None }
}

/// Reading a status back from its numeric code gives the same status.
pub proof fn lemma_code_round_trip(c: ResultCode)
    ensures
        code_for(code_number(c)) == Some(c),
{
}

/// The status as it stands in a status line: number, space, reason phrase.
pub open spec fn status_text(c: ResultCode) -> Seq<char> {
    match c {
        ResultCode::OK => "200 OK"@,
        ResultCode::Created => "201 Created"@,
        ResultCode::Accepted => "202 Accepted"@,
        ResultCode::NoContent => "204 No Content"@,
        ResultCode::MultipleChoices => "300 Multiple Choices"@,
        ResultCode::MovedPermanently => "301 Moved Permanently"@,
        ResultCode::MovedTemporarily => "302 Moved Temporarily"@,
        ResultCode::NotModified => "304 Not Modified"@,
        ResultCode::BadRequest => "400 Bad Request"@,
        ResultCode::Unauthorized => "401 Unauthorized"@,
        ResultCode::Forbidden => "403 Forbidden"@,
        ResultCode::NotFound => "404 Not Found"@,
        ResultCode::InternalServerError => "500 Internal Server Error"@,
        ResultCode::NotImplemented => "501 Not Implemented"@,
        ResultCode::BadGateway => "502 Bad Gateway"@,
        ResultCode::ServiceUnavailable => "503 Service Unavailable"@,
    }
}

impl ResultCode {
    /// The numeric code.
    pub fn code(&self) -> (r: usize)
        ensures
            r == code_number(*self),
    {
        match self {
            ResultCode::OK => 200,
            ResultCode::Created => 201,
            ResultCode::Accepted => 202,
            ResultCode::NoContent => 204,
            ResultCode::MultipleChoices => 300,
            ResultCode::MovedPermanently => 301,
            ResultCode::MovedTemporarily => 302,
            ResultCode::NotModified => 304,
            ResultCode::BadRequest => 400,
            ResultCode::Unauthorized => 401,
            ResultCode::Forbidden => 403,
            ResultCode::NotFound => 404,
            ResultCode::InternalServerError => 500,
            ResultCode::NotImplemented => 501,
            ResultCode::BadGateway => 502,
            ResultCode::ServiceUnavailable => 503,
        }
    }

    /// The number and reason phrase, as in a status line.
    pub fn text(&self) -> (r: &'static str)
        ensures
            r@ == status_text(*self),
    {
        match self {
            ResultCode::OK => "200 OK",
            ResultCode::Created => "201 Created",
            ResultCode::Accepted => "202 Accepted",
            ResultCode::NoContent => "204 No Content",
            ResultCode::MultipleChoices => "300 Multiple Choices",
            ResultCode::MovedPermanently => "301 Moved Permanently",
            ResultCode::MovedTemporarily => "302 Moved Temporarily",
            ResultCode::NotModified => "304 Not Modified",
            ResultCode::BadRequest => "400 Bad Request",
            ResultCode::Unauthorized => "401 Unauthorized",
            ResultCode::Forbidden => "403 Forbidden",
            ResultCode::NotFound => "404 Not Found",
            ResultCode::InternalServerError => "500 Internal Server Error",
            ResultCode::NotImplemented => "501 Not Implemented",
            ResultCode::BadGateway => "502 Bad Gateway",
            ResultCode::ServiceUnavailable => "503 Service Unavailable",
        }
    }

    /// The number and reason phrase as an owned string.
    pub fn to_string(&self) -> (r: String)
        ensures
            r@ == status_text(*self),
    {
        String::from_str(self.text())
    }

    /// The status with a given numeric code, if it is one of the supported ones.
    pub fn from_code(value: usize) -> (r: Result<ResultCode, ResultCodeConversionError>)
        ensures
            r matches Ok(c) ==> code_number(c) == value,
            r is Err <==> code_for(value as nat) is None,
    {
        match value {
            200 => Ok(ResultCode::OK),
            201 => Ok(ResultCode::Created),
            202 => Ok(ResultCode::Accepted),
            204 => Ok(ResultCode::NoContent),
            300 => Ok(ResultCode::MultipleChoices),
            301 => Ok(ResultCode::MovedPermanently),
            302 => Ok(ResultCode::MovedTemporarily),
            304 => Ok(ResultCode::NotModified),
            400 => Ok(ResultCode::BadRequest),
            401 => Ok(ResultCode::Unauthorized),
            403 => Ok(ResultCode::Forbidden),
            404 => Ok(ResultCode::NotFound),
            500 => Ok(ResultCode::InternalServerError),
            501 => Ok(ResultCode::NotImplemented),
            502 => Ok(ResultCode::BadGateway),
            503 => Ok(ResultCode::ServiceUnavailable),
            _ => Err(ResultCodeConversionError),
        }
    }
}

impl TryFrom<usize> for ResultCode {
    type Error = ResultCodeConversionError;

    fn try_from(value: usize) -> Result<ResultCode, ResultCodeConversionError> {
        match ResultCode::from_code(value) {
            Ok(c) => {
                proof {
                    lemma_code_round_trip(c);
                }
                Ok(c)
            },
            Err(_) => Err(ResultCodeConversionError),
        }
    }
}


impl vstd::std_specs::convert::TryFromSpecImpl<usize> for ResultCode {
    open spec fn obeys_try_from_spec() -> bool {
        true
    }

    open spec fn try_from_spec(v: usize) -> Result<ResultCode, ResultCodeConversionError> {
        match code_for(v as nat) {
            Some(x) => Ok(x),
            None => Err(ResultCodeConversionError),
        }
    }
}

} // verus!
