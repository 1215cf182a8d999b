use vstd::prelude::*;

verus! {

/// Protocol Version of Request and Response.
#[allow(non_camel_case_types)]
#[derive(Clone, Copy, Debug, PartialEq, Eq, Structural)]
pub enum Version {
    /// Version 0.9 (Default).
    HTTP_09,
    /// Version 1.0.
    HTTP_10,
    /// Version 1.1.
    HTTP_11,
    /// Version 2.0.
    HTTP_2,
    /// Version 3.0.
    HTTP_3,
}

/// The text by which a version is written in a request or status line.
pub open spec fn version_text(version: Version) -> Seq<char> {
    match version {
        Version::HTTP_09 => "HTTP/0.9"@,
        Version::HTTP_10 => "HTTP/1.0"@,
        Version::HTTP_11 => "HTTP/1.1"@,
        Version::HTTP_2 => "HTTP/2.0"@,
        Version::HTTP_3 => "HTTP/3.0"@,
    }
}

impl Version {
    /// The version as it is written in a request or status line.
    pub fn to_string(&self) -> (text: String)
        ensures
            text@ == version_text(*self),
    {
        let text: &str = match self {
            Version::HTTP_09 => "HTTP/0.9",
            Version::HTTP_10 => "HTTP/1.0",
            Version::HTTP_11 => "HTTP/1.1",
            Version::HTTP_2 => "HTTP/2.0",
            Version::HTTP_3 => "HTTP/3.0",
        };
        text.to_owned()
    }
}

} // verus!
