use vstd::prelude::*;
use vstd::utf8::*;

use crate::encoding::{decimal, lemma_decimal_digits, push_signed_decimal, signed_decimal};
use crate::frame::text_of;

verus! {

/// A version of the protocol's specification.
#[derive(Debug, Clone, PartialEq, Eq, Hash)]
pub struct Version {
    pub major: i64,
    pub minor: i64,
    /// The patch level; `None` where the changelog gives it as `x`.
    pub patch: Option<i64>,
    /// The commit of the protocol's repository that matches this version.
    pub git_commit: String,
}

/// The text of a version: `major.minor.patch`, with `x` for an unknown patch level.
pub open spec fn version_text(v: Version) -> Seq<u8> {
    signed_decimal(v.major as int) + seq![46u8] + signed_decimal(v.minor as int) + seq![46u8]
        + match v.patch {
        Some(p) => signed_decimal(p as int),
        None => seq![120u8],
    }
}

/// Bytes below 0x80 are valid UTF-8 whatever their order.
proof fn lemma_ascii_is_utf8(b: Seq<u8>)
    requires
        forall|i: int| 0 <= i < b.len() ==> #[trigger] b[i] < 0x80,
    ensures
        valid_utf8(b),
    decreases b.len(),
{
    if b.len() > 0 {
        let rest = pop_first_scalar(b);
        assert(rest =~= b.drop_first());
        lemma_ascii_is_utf8(rest);
    }
}

proof fn lemma_signed_decimal_is_ascii(n: int)
    ensures
        forall|i: int| 0 <= i < signed_decimal(n).len() ==> #[trigger] signed_decimal(n)[i] < 0x80,
{
    if n < 0 {
        lemma_decimal_digits((-n) as nat);
        assert forall|i: int| 0 <= i < signed_decimal(n).len() implies #[trigger] signed_decimal(
            n,
        )[i] < 0x80 by {
            if i > 0 {
                assert(signed_decimal(n)[i] == decimal((-n) as nat)[i - 1]);
            }
        }
    } else {
        lemma_decimal_digits(n as nat);
    }
}

impl Version {
    /// The version as text, such as `1.62.x`.
    pub fn to_string(&self) -> (r: String)
        ensures
            r@ == decode_utf8(version_text(*self)),
            encode_utf8(r@) == version_text(*self),
    {
        let mut out: Vec<u8> = Vec::new();
        push_signed_decimal(&mut out, self.major);
        out.push(46);
        push_signed_decimal(&mut out, self.minor);
        out.push(46);
        match self.patch {
            Some(p) => push_signed_decimal(&mut out, p),
            None => out.push(120),
        }
        proof {
            assert(out@ =~= version_text(*self));
            lemma_signed_decimal_is_ascii(self.major as int);
            lemma_signed_decimal_is_ascii(self.minor as int);
            if let Some(p) = self.patch {
                lemma_signed_decimal_is_ascii(p as int);
            }
            assert forall|i: int| 0 <= i < out@.len() implies #[trigger] out@[i] < 0x80 by {
                let a = signed_decimal(self.major as int).len();
                let b = signed_decimal(self.minor as int).len();
                if i < a {
                    assert(out@[i] == signed_decimal(self.major as int)[i]);
                } else if i == a || i == a + 1 + b {
                } else if i < a + 1 + b {
                    assert(out@[i] == signed_decimal(self.minor as int)[i - a - 1]);
                } else {
                    match self.patch {
                        Some(p) => {
                            assert(out@[i] == signed_decimal(p as int)[i - a - b - 2]);
                        },
                        None => {},
                    }
                }
            }
            lemma_ascii_is_utf8(out@);
            decode_utf8_encode_utf8(out@);
        }
        text_of(out.as_slice())
    }
}

/// The version of the protocol's specification that this library implements.
pub fn get_spec_version() -> (r: Version)
    ensures
        r.major == 1,
        r.minor == 62,
        r.patch is None,
        r.git_commit@ == "7f284b169ecd19602487eb4d290ae651d4398ce7"@,
{
    Version {
        major: 1,
        minor: 62,
        patch: None,
        git_commit: "7f284b169ecd19602487eb4d290ae651d4398ce7".to_owned(),
    }
}

} // verus!
