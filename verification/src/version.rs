//! The negotiated protocol version and its fixed label.

use vstd::prelude::*;
use vstd::string::*;

verus! {

/// The protocol versions that have a label.
#[derive(Clone, Copy, Debug, PartialEq, Eq, Structural)]
pub enum Version {
    Http09,
    Http10,
    Http11,
    Http2,
    Http3,
}

impl Version {
    /// The label of this version, as text.
    pub open spec fn label_text(self) -> Seq<char> {
        match self {
            Version::Http09 => "0.9"@,
            Version::Http10 => "1.0"@,
            Version::Http11 => "1.1"@,
            Version::Http2 => "2"@,
            Version::Http3 => "3"@,
        }
    }

    /// The label of this version.
    pub fn label(self) -> (label: &'static str)
        ensures
            label@ == self.label_text(),
            label.is_ascii(),
            1 <= label@.len() <= 3,
    {
        proof {
            reveal_strlit("0.9");
            reveal_strlit("1.0");
            reveal_strlit("1.1");
            reveal_strlit("2");
            reveal_strlit("3");
        }
        match self {
            Version::Http09 => "0.9",
            Version::Http10 => "1.0",
            Version::Http11 => "1.1",
            Version::Http2 => "2",
            Version::Http3 => "3",
        }
    }
}

/// The label of a negotiated version; a version outside the recognized five
/// (`None`) has the empty label.
pub open spec fn label_text(version: Option<Version>) -> Seq<char> {
    match version {
        Some(v) => v.label_text(),
        None => Seq::empty(),
    }
}

/// The bytes of an ASCII text, one per character.
pub open spec fn ascii_bytes(text: Seq<char>) -> Seq<u8> {
    Seq::new(text.len(), |i: int| text[i] as u8)
}

/// Maps a negotiated version to its label. A version that is not one of the
/// recognized five is given the empty label, and the request goes on.
pub fn version_label(version: Option<Version>) -> (label: &'static str)
    ensures
        label@ == label_text(version),
        label.is_ascii(),
        label.spec_bytes() == ascii_bytes(label_text(version)),
        label.spec_bytes().len() <= 3,
{
    let label = match version {
        Some(v) => v.label(),
        None => {
            proof {
                reveal_strlit("");
            }
            ""
        },
    };
    proof {
        is_ascii_spec_bytes(label);
    }
    label
}

/// The error of [`parse_label`]: the bytes are no label.
#[derive(Clone, Copy, Debug, PartialEq, Eq, Structural)]
pub struct UnknownLabel;

/// Reads a label back: the version whose label has exactly these bytes, the
/// unrecognized version for no bytes at all, and `UnknownLabel` for bytes
/// that are the label of nothing.
pub fn parse_label(label: &[u8]) -> (parsed: Result<Option<Version>, UnknownLabel>)
    ensures
        match parsed {
            Ok(version) => label@ == ascii_bytes(label_text(version)),
            Err(_) => forall|version: Option<Version>|
                label@ != ascii_bytes(#[trigger] label_text(version)),
        },
{
    let found = if label.len() == 0 {
        Ok(None)
    } else if label.len() == 1 && label[0] == 50 {
        Ok(Some(Version::Http2))
    } else if label.len() == 1 && label[0] == 51 {
        Ok(Some(Version::Http3))
    } else if label.len() == 3 && label[0] == 48 && label[1] == 46 && label[2] == 57 {
        Ok(Some(Version::Http09))
    } else if label.len() == 3 && label[0] == 49 && label[1] == 46 && label[2] == 48 {
        Ok(Some(Version::Http10))
    } else if label.len() == 3 && label[0] == 49 && label[1] == 46 && label[2] == 49 {
        Ok(Some(Version::Http11))
    } else {
        Err(UnknownLabel)
    };
    proof {
        match found {
            Ok(version) => {
                lemma_label_bytes(version);
                assert(label@ =~= label_bytes(version));
            },
            Err(_) => {
                assert forall|version: Option<Version>|
                    label@ != ascii_bytes(#[trigger] label_text(version)) by {
                    lemma_label_bytes(version);
                    let bytes = label_bytes(version);
                    if label@ == bytes {
                        assert(label@.len() == bytes.len());
                        if bytes.len() > 0 {
                            assert(label@[0] == bytes[0]);
                        }
                        if bytes.len() == 3 {
                            assert(label@[1] == bytes[1]);
                            assert(label@[2] == bytes[2]);
                        }
                    }
                }
            },
        }
    }
    found
}

/// The bytes of each label, written out.
pub open spec fn label_bytes(version: Option<Version>) -> Seq<u8> {
    match version {
        Some(Version::Http09) => seq![48u8, 46u8, 57u8],
        Some(Version::Http10) => seq![49u8, 46u8, 48u8],
        Some(Version::Http11) => seq![49u8, 46u8, 49u8],
        Some(Version::Http2) => seq![50u8],
        Some(Version::Http3) => seq![51u8],
        None => Seq::empty(),
    }
}

/// The label of each version has the bytes of its ASCII text: `0.9`, `1.0`,
/// `1.1`, `2`, `3`, and no bytes for an unrecognized version.
pub proof fn lemma_label_bytes(version: Option<Version>)
    ensures
        ascii_bytes(label_text(version)) == label_bytes(version),
{
    reveal_strlit("0.9");
    reveal_strlit("1.0");
    reveal_strlit("1.1");
    reveal_strlit("2");
    reveal_strlit("3");
    assert(ascii_bytes(label_text(version)) =~= label_bytes(version));
}

/// Two versions whose labels have the same bytes are the same version, and
/// only an unrecognized version has the empty label.
pub proof fn lemma_label_identifies_version(a: Option<Version>, b: Option<Version>)
    requires
        ascii_bytes(label_text(a)) == ascii_bytes(label_text(b)),
    ensures
        a == b,
{
    lemma_label_bytes(a);
    lemma_label_bytes(b);
    let x = label_bytes(a);
    let y = label_bytes(b);
    assert(x.len() == y.len());
    if x.len() > 0 {
        assert(x[0] == y[0]);
    }
    if x.len() == 3 {
        assert(x[2] == y[2]);
    }
}

} // verus!
