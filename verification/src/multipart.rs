//! The multipart/form-data encoder: an ordered sequence of header-tagged
//! parts, each wrapping a payload, serialized with CRLF boundary framing.
//!
//! Serialization is byte-exact: for each part in insertion order, a
//! delimiter line `--boundary`, the part's headers as `Key: Value` lines,
//! a blank line, the part's body rendered to bytes, and a line terminator;
//! after the last part a closing `--boundary--` line.

use vstd::prelude::*;
use vstd::string::{StrSliceExecFns, StringExecFns};
use vstd::utf8::encode_utf8;

use crate::body::{BodyView, InMemoryBody};
use crate::message::{headers_view, Headers};

verus! {

/// Relies on `rand::random`: draws a value from the thread-local generator.
/// Nothing holds of the outcome.
pub assume_specification<T>[ rand::random::<T> ]() -> (r: T)
    where
        rand::distributions::Standard: rand::distributions::Distribution<T>,
;

/// The sixteen hexadecimal digit characters.
pub open spec fn hex_digit(d: u64) -> char {
    if d == 0 {
        '0'
    } else if d == 1 {
        '1'
    } else if d == 2 {
        '2'
    } else if d == 3 {
        '3'
    } else if d == 4 {
        '4'
    } else if d == 5 {
        '5'
    } else if d == 6 {
        '6'
    } else if d == 7 {
        '7'
    } else if d == 8 {
        '8'
    } else if d == 9 {
        '9'
    } else if d == 10 {
        'a'
    } else if d == 11 {
        'b'
    } else if d == 12 {
        'c'
    } else if d == 13 {
        'd'
    } else if d == 14 {
        'e'
    } else {
        'f'
    }
}

/// The last `digits` hexadecimal digits of `x`, most significant first,
/// with leading zeros kept.
pub open spec fn hex_seq(x: u64, digits: nat) -> Seq<char>
    decreases digits,
{
    if digits == 0 {
        Seq::empty()
    } else {
        hex_seq(x / 16, (digits - 1) as nat).push(hex_digit(x % 16))
    }
}

/// A default boundary: four 16-hex-digit groups joined by hyphens,
/// rendering 256 bits.
pub open spec fn boundary_text(a: u64, b: u64, c: u64, d: u64) -> Seq<char> {
    hex_seq(a, 16) + "-"@ + hex_seq(b, 16) + "-"@ + hex_seq(c, 16) + "-"@ + hex_seq(d, 16)
}

fn hex_digit_str(d: u64) -> (r: &'static str)
    requires
        d < 16,
    ensures
        r@ == seq![hex_digit(d)],
{
    proof {
        reveal_strlit("0");
        reveal_strlit("1");
        reveal_strlit("2");
        reveal_strlit("3");
        reveal_strlit("4");
        reveal_strlit("5");
        reveal_strlit("6");
        reveal_strlit("7");
        reveal_strlit("8");
        reveal_strlit("9");
        reveal_strlit("a");
        reveal_strlit("b");
        reveal_strlit("c");
        reveal_strlit("d");
        reveal_strlit("e");
        reveal_strlit("f");
    }
    let r = if d == 0 {
        "0"
    } else if d == 1 {
        "1"
    } else if d == 2 {
        "2"
    } else if d == 3 {
        "3"
    } else if d == 4 {
        "4"
    } else if d == 5 {
        "5"
    } else if d == 6 {
        "6"
    } else if d == 7 {
        "7"
    } else if d == 8 {
        "8"
    } else if d == 9 {
        "9"
    } else if d == 10 {
        "a"
    } else if d == 11 {
        "b"
    } else if d == 12 {
        "c"
    } else if d == 13 {
        "d"
    } else if d == 14 {
        "e"
    } else {
        "f"
    };
    proof {
        assert(r@ =~= seq![hex_digit(d)]);
    }
    r
}

/// Append the last `digits` hexadecimal digits of `x`, most significant
/// first, to `out`.
fn append_hex(out: &mut String, x: u64, digits: u64)
    ensures
        final(out)@ == old(out)@ + hex_seq(x, digits as nat),
    decreases digits,
{
    if digits == 0 {
        proof {
            assert(old(out)@ + hex_seq(x, 0) =~= old(out)@);
        }
    } else {
        append_hex(out, x / 16, digits - 1);
        let s = hex_digit_str(x % 16);
        out.append(s);
        proof {
            assert(old(out)@ + hex_seq(x, digits as nat) =~= (old(out)@ + hex_seq(
                x / 16,
                (digits - 1) as nat,
            )) + seq![hex_digit(x % 16)]);
        }
    }
}

/// Generate a fresh boundary: a random 256-bit value rendered as four
/// 16-hex-digit groups joined by hyphens.
fn gen_boundary() -> (r: String)
    ensures
        exists|a: u64, b: u64, c: u64, d: u64| r@ == #[trigger] boundary_text(a, b, c, d),
{
    let a = rand::random::<u64>();
    let b = rand::random::<u64>();
    let c = rand::random::<u64>();
    let d = rand::random::<u64>();
    let mut out = String::new();
    append_hex(&mut out, a, 16);
    out.append("-");
    append_hex(&mut out, b, 16);
    out.append("-");
    append_hex(&mut out, c, 16);
    out.append("-");
    append_hex(&mut out, d, 16);
    proof {
        assert(out@ =~= boundary_text(a, b, c, d));
    }
    out
}

/// One part of a multipart form: its own headers and a payload.
#[derive(Debug)]
pub struct Part {
    pub headers: Headers,
    pub body: InMemoryBody,
}

/// The mathematical model of a [`Part`].
#[verifier::ext_equal]
pub struct PartView {
    pub headers: Seq<(Seq<char>, Seq<char>)>,
    pub body: BodyView,
}

impl View for Part {
    type V = PartView;

    open spec fn view(&self) -> PartView {
        PartView { headers: headers_view(self.headers@), body: self.body@ }
    }
}

impl Part {
    /// A part wrapping the given payload, with no headers yet.
    pub fn new(body: InMemoryBody) -> (r: Part)
        ensures
            r@.headers.len() == 0,
            r@.body == body@,
    {
        let r = Part { headers: Vec::new(), body };
        proof {
            assert(r@.headers =~= Seq::<(Seq<char>, Seq<char>)>::empty());
        }
        r
    }
}

/// A multipart form: a boundary token, a base content type, and the parts
/// in insertion order.  Configuration is fluent: each call returns the
/// updated value.
#[derive(Debug)]
pub struct Form {
    pub boundary: String,
    pub content_type: String,
    pub parts: Vec<Part>,
}

/// The mathematical model of a [`Form`].
#[verifier::ext_equal]
pub struct FormView {
    pub boundary: Seq<char>,
    pub content_type: Seq<char>,
    pub parts: Seq<PartView>,
}

impl View for Form {
    type V = FormView;

    open spec fn view(&self) -> FormView {
        FormView {
            boundary: self.boundary@,
            content_type: self.content_type@,
            parts: self.parts@.map_values(|p: Part| p@),
        }
    }
}

/// The CRLF line terminator.
pub open spec fn crlf() -> Seq<u8> {
    seq![13u8, 10u8]
}

/// The `--` delimiter prefix.
pub open spec fn dash_dash() -> Seq<u8> {
    seq![45u8, 45u8]
}

/// The `: ` separator of a serialized header line.
pub open spec fn colon_space() -> Seq<u8> {
    seq![58u8, 32u8]
}

/// One serialized header line: `Key: Value` and a line terminator.
pub open spec fn header_line_bytes(p: (Seq<char>, Seq<char>)) -> Seq<u8> {
    encode_utf8(p.0) + colon_space() + encode_utf8(p.1) + crlf()
}

/// The serialized header block of a part, in insertion order.
pub open spec fn headers_bytes(h: Seq<(Seq<char>, Seq<char>)>) -> Seq<u8>
    decreases h.len(),
{
    if h.len() == 0 {
        Seq::empty()
    } else {
        headers_bytes(h.drop_last()) + header_line_bytes(h.last())
    }
}

/// One serialized part: delimiter line, header lines, a blank line, the
/// body rendered to bytes, and a line terminator.
pub open spec fn part_bytes(boundary: Seq<char>, p: PartView) -> Seq<u8> {
    dash_dash() + encode_utf8(boundary) + crlf() + headers_bytes(p.headers) + crlf()
        + p.body.to_bytes() + crlf()
}

/// All parts serialized in insertion order.
pub open spec fn parts_bytes(boundary: Seq<char>, parts: Seq<PartView>) -> Seq<u8>
    decreases parts.len(),
{
    if parts.len() == 0 {
        Seq::empty()
    } else {
        parts_bytes(boundary, parts.drop_last()) + part_bytes(boundary, parts.last())
    }
}

/// A serialized form: every part in order, then the closing
/// `--boundary--` line.
pub open spec fn form_bytes(f: FormView) -> Seq<u8> {
    parts_bytes(f.boundary, f.parts) + dash_dash() + encode_utf8(f.boundary) + dash_dash() + crlf()
}

/// Append the UTF-8 bytes of `s` to `out`.
fn append_str_bytes(out: &mut Vec<u8>, s: &str)
    ensures
        final(out)@ == old(out)@ + encode_utf8(s@),
{
    let mut b = s.as_bytes_vec();
    out.append(&mut b);
}

impl Form {
    /// A fresh form: content type `multipart/form-data`, a random boundary,
    /// and no parts.
    pub fn new() -> (r: Form)
        ensures
            r@.content_type == "multipart/form-data"@,
            r@.parts.len() == 0,
            exists|a: u64, b: u64, c: u64, d: u64| r@.boundary == #[trigger] boundary_text(
                a,
                b,
                c,
                d,
            ),
    {
        let boundary = gen_boundary();
        let r = Form {
            content_type: String::from_str("multipart/form-data"),
            boundary,
            parts: Vec::new(),
        };
        proof {
            assert(r@.parts =~= Seq::<PartView>::empty());
        }
        r
    }

    /// The full content type: the base content type followed by the
    /// boundary parameter.
    pub fn full_content_type(&self) -> (r: String)
        ensures
            r@ == self@.content_type + "; boundary="@ + self@.boundary,
    {
        let mut out = self.content_type.clone();
        out.append("; boundary=");
        out.append(self.boundary.as_str());
        out
    }

    /// The same form with another base content type.
    pub fn content_type(self, content_type: String) -> (r: Form)
        ensures
            r@ == (FormView { content_type: content_type@, ..self@ }),
    {
        let mut r = self;
        r.content_type = content_type;
        r
    }

    /// The same form with an explicit boundary token.
    pub fn boundary(self, boundary: String) -> (r: Form)
        ensures
            r@ == (FormView { boundary: boundary@, ..self@ }),
    {
        let mut r = self;
        r.boundary = boundary;
        r
    }

    /// The same form with one more part appended.
    pub fn part(self, part: Part) -> (r: Form)
        ensures
            r@ == (FormView { parts: self@.parts.push(part@), ..self@ }),
    {
        let mut r = self;
        r.parts.push(part);
        proof {
            assert(r@.parts =~= self@.parts.push(part@));
            assert(r@ =~= (FormView { parts: self@.parts.push(part@), ..self@ }));
        }
        r
    }

    /// Serialize the form: for each part in insertion order a delimiter
    /// line, its header lines, a blank line, its body as bytes and a line
    /// terminator; then the closing delimiter line.  All line terminators
    /// are CRLF.
    pub fn into_bytes(self) -> (r: Vec<u8>)
        ensures
            r@ == form_bytes(self@),
    {
        let ghost fv = self@;
        let mut out: Vec<u8> = Vec::new();
        let mut i: usize = 0;
        proof {
            assert(out@ =~= parts_bytes(fv.boundary, fv.parts.subrange(0, 0)));
        }
        while i < self.parts.len()
            invariant
                fv == self@,
                i <= self.parts@.len(),
                fv.parts.len() == self.parts@.len(),
                out@ == parts_bytes(fv.boundary, fv.parts.subrange(0, i as int)),
            decreases self.parts@.len() - i,
        {
            let ghost base = out@;
            let part = &self.parts[i];
            proof {
                assert(fv.parts[i as int] == part@);
            }
            out.push(45u8);
            out.push(45u8);
            append_str_bytes(&mut out, self.boundary.as_str());
            out.push(13u8);
            out.push(10u8);
            proof {
                assert(out@ =~= base + dash_dash() + encode_utf8(fv.boundary) + crlf());
            }
            let ghost hv = part@.headers;
            let ghost head = out@;
            let mut j: usize = 0;
            proof {
                assert(headers_bytes(hv.subrange(0, 0)) =~= Seq::<u8>::empty());
                assert(out@ =~= head + headers_bytes(hv.subrange(0, 0)));
            }
            while j < part.headers.len()
                invariant
                    hv == headers_view(part.headers@),
                    hv.len() == part.headers@.len(),
                    j <= part.headers@.len(),
                    out@ == head + headers_bytes(hv.subrange(0, j as int)),
                decreases part.headers@.len() - j,
            {
                let pair = &part.headers[j];
                proof {
                    assert(hv[j as int] == (part.headers@[j as int].0@,
                    part.headers@[j as int].1@));
                }
                append_str_bytes(&mut out, pair.0.as_str());
                out.push(58u8);
                out.push(32u8);
                append_str_bytes(&mut out, pair.1.as_str());
                out.push(13u8);
                out.push(10u8);
                j += 1;
                proof {
                    let prefix = hv.subrange(0, j as int);
                    assert(prefix.drop_last() =~= hv.subrange(0, j - 1));
                    assert(prefix.last() == hv[j - 1]);
                    assert(out@ =~= head + headers_bytes(prefix));
                }
            }
            proof {
                assert(hv.subrange(0, hv.len() as int) =~= hv);
            }
            out.push(13u8);
            out.push(10u8);
            let mut body_bytes = part.body.clone().bytes();
            out.append(&mut body_bytes);
            out.push(13u8);
            out.push(10u8);
            i += 1;
            proof {
                let prefix = fv.parts.subrange(0, i as int);
                assert(prefix.drop_last() =~= fv.parts.subrange(0, i - 1));
                assert(prefix.last() == fv.parts[i - 1]);
                assert(out@ =~= base + part_bytes(fv.boundary, fv.parts[i - 1]));
                assert(out@ =~= parts_bytes(fv.boundary, prefix));
            }
        }
        proof {
            assert(fv.parts.subrange(0, fv.parts.len() as int) =~= fv.parts);
        }
        out.push(45u8);
        out.push(45u8);
        append_str_bytes(&mut out, self.boundary.as_str());
        out.push(45u8);
        out.push(45u8);
        out.push(13u8);
        out.push(10u8);
        proof {
            assert(out@ =~= form_bytes(fv));
        }
        out
    }
}

} // verus!
