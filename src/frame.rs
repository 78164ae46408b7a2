use vstd::prelude::*;
use vstd::utf8::*;

use crate::encoding::{decimal, lemma_decimal_digits, push_decimal};
use crate::errors::{DeserializationError, ServerError};

verus! {

/// The bytes of the one header key the protocol knows: `Content-Length`.
pub open spec fn content_length_name() -> Seq<u8> {
    seq![
        67u8, 111u8, 110u8, 116u8, 101u8, 110u8, 116u8, 45u8, 76u8, 101u8, 110u8, 103u8, 116u8,
        104u8,
    ]
}

/// The line that separates the header block from the payload: `\r\n`.
pub open spec fn separator() -> Seq<u8> {
    seq![13u8, 10u8]
}

/// The bytes that frame `payload` on the wire:
/// `Content-Length: <byte count>\r\n\r\n<payload>\r\n`.
pub open spec fn frame(payload: Seq<u8>) -> Seq<u8> {
    header_line(payload) + separator() + payload + separator()
}

/// The header line announcing `payload`, with its line terminator.
pub open spec fn header_line(payload: Seq<u8>) -> Seq<u8> {
    content_length_name() + seq![58u8, 32u8] + decimal(payload.len()) + separator()
}

/// The ASCII blanks that are trimmed around header keys and values.
pub open spec fn is_blank(b: u8) -> bool {
    b == 0x20 || b == 0x09 || b == 0x0a || b == 0x0b || b == 0x0c || b == 0x0d
}

/// `s` without the blanks at its start.
pub open spec fn trim_start(s: Seq<u8>) -> Seq<u8>
    decreases s.len(),
{
    if s.len() > 0 && is_blank(s[0]) {
        trim_start(s.drop_first())
    } else {
        s
    }
}

/// `s` without the blanks at its end.
pub open spec fn trim_end(s: Seq<u8>) -> Seq<u8>
    decreases s.len(),
{
    if s.len() > 0 && is_blank(s.last()) {
        trim_end(s.drop_last())
    } else {
        s
    }
}

/// `s` without the blanks at either end.
pub open spec fn trim(s: Seq<u8>) -> Seq<u8> {
    trim_end(trim_start(s))
}

/// The index of the first `:` in `s` at or after `i`, or the length of `s` if there is none.
pub open spec fn colon_from(s: Seq<u8>, i: int) -> int
    decreases s.len() - i,
{
    if i >= s.len() {
        s.len() as int
    } else if s[i] == 58 {
        i
    } else {
        colon_from(s, i + 1)
    }
}

/// The index of the first `:` of a header line, or its length if it has none.
pub open spec fn colon(line: Seq<u8>) -> int {
    colon_from(line, 0)
}

/// The key of a header line: what stands before its first `:`, trimmed.
pub open spec fn header_key(line: Seq<u8>) -> Seq<u8> {
    trim(line.subrange(0, colon(line)))
}

/// The value of a header line: what stands after its first `:`, trimmed.
pub open spec fn header_value(line: Seq<u8>) -> Seq<u8> {
    trim(line.subrange(colon(line) + 1, line.len() as int))
}

/// An ASCII decimal digit.
pub open spec fn is_digit(b: u8) -> bool {
    48 <= b <= 57
}

/// A byte count: one or more decimal digits.
pub open spec fn is_count(s: Seq<u8>) -> bool {
    s.len() > 0 && forall|i: int| 0 <= i < s.len() ==> is_digit(#[trigger] s[i])
}

/// The number that a string of decimal digits denotes.
pub open spec fn digits_value(s: Seq<u8>) -> nat
    decreases s.len(),
{
    if s.len() == 0 {
        0
    } else {
        digits_value(s.drop_last()) * 10 + (s.last() - 48) as nat
    }
}

/// The byte count that a header line announces, if it is a well-formed `Content-Length` line
/// whose count fits in a `usize`.
pub open spec fn announced_length(line: Seq<u8>) -> Option<nat> {
    if colon(line) < line.len() && header_key(line) == content_length_name() && is_count(
        header_value(line),
    ) && digits_value(header_value(line)) <= usize::MAX {
        Some(digits_value(header_value(line)))
    } else {
        None
    }
}

/// The error that a header line which announces no byte count is refused with: an
/// unknown key when the line has a key other than `Content-Length`, a parse error
/// carrying the line otherwise.
pub open spec fn header_error(line: Seq<u8>, e: ServerError) -> bool {
    if colon(line) == line.len() || header_key(line) == content_length_name() {
        e matches ServerError::HeaderParseError { line: t } && t@ == lossy_text(line)
    } else {
        e matches ServerError::UnknownHeader { header: h } && h@ == lossy_text(header_key(line))
    }
}

/// The error that a line in place of the separator is refused with.
pub open spec fn separator_error(line: Seq<u8>, e: ServerError) -> bool {
    e matches ServerError::ProtocolError { reason, line: t } && t@ == lossy_text(line) && reason@
        == "expected separator"@
}

/// What a lossy UTF-8 decoding makes of `b`: the text it encodes where it is valid, with
/// replacement characters for the invalid parts.
pub uninterp spec fn lossy_text(b: Seq<u8>) -> Seq<char>;

/// Relies on `String::from_utf8_lossy`: the result depends on the bytes alone, and valid
/// UTF-8 comes back as exactly the text it encodes.
#[verifier::external_body]
pub(crate) fn text_of(b: &[u8]) -> (r: String)
    ensures
        r@ == lossy_text(b@),
        valid_utf8(b@) ==> r@ == decode_utf8(b@),
{
    String::from_utf8_lossy(b).into_owned()
}

/// Relies on `std::str::from_utf8`: it accepts exactly the valid UTF-8 byte strings, and
/// the text it then gives is the one the bytes encode.
#[verifier::external_body]
fn utf8_text(b: &[u8]) -> (r: Result<String, std::str::Utf8Error>)
    ensures
        r is Ok <==> valid_utf8(b@),
        r is Ok ==> r->Ok_0@ == decode_utf8(b@),
{
    match std::str::from_utf8(b) {
        Ok(s) => Ok(s.to_owned()),
        Err(e) => Err(e),
    }
}

fn is_blank_byte(b: u8) -> (r: bool)
    ensures
        r == is_blank(b),
{
    b == 0x20 || b == 0x09 || b == 0x0a || b == 0x0b || b == 0x0c || b == 0x0d
}

/// The bounds of `s[lo..hi]` without its blanks at either end.
fn trimmed_bounds(s: &[u8], lo: usize, hi: usize) -> (r: (usize, usize))
    requires
        lo <= hi <= s@.len(),
    ensures
        lo <= r.0 <= r.1 <= hi,
        s@.subrange(r.0 as int, r.1 as int) == trim(s@.subrange(lo as int, hi as int)),
{
    let mut a = lo;
    while a < hi && is_blank_byte(s[a])
        invariant
            lo <= a <= hi <= s@.len(),
            trim_start(s@.subrange(lo as int, hi as int)) == trim_start(
                s@.subrange(a as int, hi as int),
            ),
        decreases hi - a,
    {
        assert(s@.subrange(a as int, hi as int).drop_first() =~= s@.subrange(
            a + 1,
            hi as int,
        ));
        a = a + 1;
    }
    assert(trim_start(s@.subrange(a as int, hi as int)) == s@.subrange(a as int, hi as int));
    let mut e = hi;
    while e > a && is_blank_byte(s[e - 1])
        invariant
            lo <= a <= e <= hi <= s@.len(),
            trim(s@.subrange(lo as int, hi as int)) == trim_end(s@.subrange(a as int, e as int)),
        decreases e - a,
    {
        assert(s@.subrange(a as int, e as int).drop_last() =~= s@.subrange(
            a as int,
            e - 1,
        ));
        e = e - 1;
    }
    (a, e)
}

/// The first `:` in `s`, or the length of `s`.
fn find_colon(s: &[u8]) -> (r: usize)
    ensures
        r as int == colon(s@),
        r <= s@.len(),
{
    let mut i: usize = 0;
    while i < s.len() && s[i] != 58
        invariant
            i <= s@.len(),
            colon_from(s@, i as int) == colon(s@),
        decreases s@.len() - i,
    {
        i = i + 1;
    }
    i
}

proof fn lemma_digits_value_grows(s: Seq<u8>, i: int, j: int)
    requires
        0 <= i <= j <= s.len(),
    ensures
        digits_value(s.subrange(0, i)) <= digits_value(s.subrange(0, j)),
    decreases j - i,
{
    if i < j {
        lemma_digits_value_grows(s, i, j - 1);
        assert(s.subrange(0, j).drop_last() =~= s.subrange(0, j - 1));
    }
}

/// The byte count written as `s[lo..hi]`, if it is one and fits in a `usize`.
fn parse_count(s: &[u8], lo: usize, hi: usize) -> (r: Option<usize>)
    requires
        lo <= hi <= s@.len(),
    ensures
        r is Some <==> is_count(s@.subrange(lo as int, hi as int)) && digits_value(
            s@.subrange(lo as int, hi as int),
        ) <= usize::MAX,
        r is Some ==> r->0 as nat == digits_value(s@.subrange(lo as int, hi as int)),
{
    let ghost t = s@.subrange(lo as int, hi as int);
    if lo == hi {
        return None;
    }
    let mut acc: usize = 0;
    let mut i = lo;
    while i < hi
        invariant
            lo <= i <= hi <= s@.len(),
            t == s@.subrange(lo as int, hi as int),
            forall|k: int| 0 <= k < i - lo ==> is_digit(#[trigger] t[k]),
            acc as nat == digits_value(t.subrange(0, i - lo)),
        decreases hi - i,
    {
        let b = s[i];
        if b < 48 || b > 57 {
            assert(!is_digit(t[i - lo]));
            return None;
        }
        let d = (b - 48) as usize;
        proof {
            let next = t.subrange(0, i - lo + 1);
            assert(next.drop_last() =~= t.subrange(0, i - lo));
            assert(next.last() == b);
        }
        if acc > (usize::MAX - d) / 10 {
            proof {
                assert(acc * 10 + d > usize::MAX) by (nonlinear_arith)
                    requires
                        acc > (usize::MAX - d) / 10,
                        d <= 9,
                ;
                lemma_digits_value_grows(t, i - lo + 1, t.len() as int);
                assert(t.subrange(0, t.len() as int) =~= t);
            }
            return None;
        }
        acc = acc * 10 + d;
        i = i + 1;
    }
    assert(t.subrange(0, hi - lo) =~= t);
    Some(acc)
}

/// Reads one header line (with or without its terminator): the byte count it announces,
/// or why it announces none.
pub fn parse_header_line(line: &[u8]) -> (r: Result<usize, ServerError>)
    ensures
        announced_length(line@) is Some ==> r == Ok::<usize, ServerError>(
            announced_length(line@)->0 as usize,
        ),
        announced_length(line@) is None ==> (r matches Err(e) && header_error(line@, e)),
{
    let c = find_colon(line);
    if c == line.len() {
        return Err(ServerError::HeaderParseError { line: text_of(line) });
    }
    let (ka, ke) = trimmed_bounds(line, 0, c);
    let key = &line[ka..ke];
    assert(key@ == header_key(line@));
    if !is_content_length_name(key) {
        return Err(ServerError::UnknownHeader { header: text_of(key) });
    }
    let (va, ve) = trimmed_bounds(line, c + 1, line.len());
    assert(line@.subrange(va as int, ve as int) == header_value(line@));
    match parse_count(line, va, ve) {
        Some(n) => Ok(n),
        None => Err(ServerError::HeaderParseError { line: text_of(line) }),
    }
}

fn is_content_length_name(key: &[u8]) -> (r: bool)
    ensures
        r == (key@ == content_length_name()),
{
    let name: [u8; 14] = [67, 111, 110, 116, 101, 110, 116, 45, 76, 101, 110, 103, 116, 104];
    assert(name@ == content_length_name());
    if key.len() != 14 {
        return false;
    }
    let mut i: usize = 0;
    while i < 14
        invariant
            i <= 14,
            key@.len() == 14,
            name@ == content_length_name(),
            forall|k: int| 0 <= k < i ==> key@[k] == name@[k],
        decreases 14 - i,
    {
        if key[i] != name[i] {
            return false;
        }
        i = i + 1;
    }
    assert(key@ =~= name@);
    true
}

/// Checks the line that must follow the header: exactly `\r\n`.
pub fn check_separator(line: &[u8]) -> (r: Result<(), ServerError>)
    ensures
        r is Ok <==> line@ == separator(),
        r is Err ==> (r matches Err(e) && separator_error(line@, e)),
{
    if line.len() == 2 && line[0] == 13 && line[1] == 10 {
        assert(line@ =~= separator());
        Ok(())
    } else {
        Err(
            ServerError::ProtocolError {
                reason: "expected separator".to_owned(),
                line: text_of(line),
            },
        )
    }
}

/// Decodes the payload of a frame as UTF-8 text.
pub fn decode_content(content: &[u8]) -> (r: Result<String, ServerError>)
    ensures
        r is Ok <==> valid_utf8(content@),
        r is Ok ==> r->Ok_0@ == decode_utf8(content@),
        r is Err ==> r matches Err(ServerError::ParseError(DeserializationError::DecodingError(_))),
{
    match utf8_text(content) {
        Ok(text) => Ok(text),
        Err(e) => Err(ServerError::ParseError(DeserializationError::DecodingError(e))),
    }
}

/// Appends the frame of `payload` to `out`.
pub fn push_frame(out: &mut Vec<u8>, payload: &[u8])
    ensures
        final(out)@ == old(out)@ + frame(payload@),
{
    let name: [u8; 14] = [67, 111, 110, 116, 101, 110, 116, 45, 76, 101, 110, 103, 116, 104];
    out.extend_from_slice(&name);
    out.push(58);
    out.push(32);
    push_decimal(out, payload.len() as u64);
    out.push(13);
    out.push(10);
    out.push(13);
    out.push(10);
    out.extend_from_slice(payload);
    out.push(13);
    out.push(10);
    assert(out@ =~= old(out)@ + frame(payload@));
}

/// The frame of `payload`, as it goes on the wire.
pub fn encode_frame(payload: &[u8]) -> (r: Vec<u8>)
    ensures
        r@ == frame(payload@),
{
    let mut out: Vec<u8> = Vec::new();
    push_frame(&mut out, payload);
    assert(out@ =~= frame(payload@));
    out
}

} // verus!

verus! {

/// The index just past the first line terminator (`\n`) in `s` at or after `i`, or the
/// length of `s` if there is none: where a line that starts at `i` ends.
pub open spec fn line_end_from(s: Seq<u8>, i: int) -> int
    decreases s.len() - i,
{
    if i >= s.len() {
        s.len() as int
    } else if s[i] == 10 {
        i + 1
    } else {
        line_end_from(s, i + 1)
    }
}

/// The payload of the first frame of `stream`, read the way the server reads it: a header
/// line that announces a byte count, then a separator line, then that many bytes.
pub open spec fn read_frame(stream: Seq<u8>) -> Option<Seq<u8>> {
    let h = line_end_from(stream, 0);
    match announced_length(stream.subrange(0, h)) {
        None => None,
        Some(n) => {
            let c = line_end_from(stream, h);
            if stream.subrange(h, c) == separator() && c + n <= stream.len() {
                Some(stream.subrange(c, c + n))
            } else {
                None
            }
        },
    }
}

proof fn lemma_line_end(s: Seq<u8>, i: int, k: int)
    requires
        0 <= i <= k < s.len(),
        s[k] == 10,
        forall|j: int| i <= j < k ==> s[j] != 10,
    ensures
        line_end_from(s, i) == k + 1,
    decreases k - i,
{
    if i < k {
        lemma_line_end(s, i + 1, k);
    }
}

proof fn lemma_colon(s: Seq<u8>, i: int, k: int)
    requires
        0 <= i <= k < s.len(),
        s[k] == 58,
        forall|j: int| i <= j < k ==> s[j] != 58,
    ensures
        colon_from(s, i) == k,
    decreases k - i,
{
    if i < k {
        lemma_colon(s, i + 1, k);
    }
}

proof fn lemma_digits_value_of_decimal(n: nat)
    ensures
        digits_value(decimal(n)) == n,
    decreases n,
{
    let d = decimal(n);
    if n < 10 {
        assert(d.drop_last() =~= Seq::<u8>::empty());
        assert(digits_value(Seq::<u8>::empty()) == 0);
        assert(d.last() == (48 + n) as u8);
    } else {
        lemma_digits_value_of_decimal(n / 10);
        assert(d.drop_last() =~= decimal(n / 10));
        assert(d.last() == (48 + n % 10) as u8);
        assert(n == (n / 10) * 10 + n % 10) by (nonlinear_arith);
    }
}

/// The header line of every frame announces exactly the length of the payload that follows
/// the separator, whatever bytes the payload holds.
pub proof fn lemma_content_length_exact(payload: Seq<u8>)
    requires
        payload.len() <= usize::MAX,
    ensures
        announced_length(header_line(payload)) == Some(payload.len()),
        frame(payload).subrange(
            header_line(payload).len() + 2int,
            header_line(payload).len() + 2int + payload.len(),
        ) == payload,
{
    let h = header_line(payload);
    let dec = decimal(payload.len());
    let name = content_length_name();
    lemma_decimal_digits(payload.len());
    assert(h.len() == 18 + dec.len());
    assert forall|j: int| 0 <= j < 14 implies h[j] != 58 && !is_blank(h[j]) by {
        assert(h[j] == name[j]);
    }
    lemma_colon(h, 0, 14);
    let key = h.subrange(0, 14);
    assert(key =~= name);
    assert(trim_start(key) == key);
    assert(trim_end(key) == key);
    let v = h.subrange(15, h.len() as int);
    assert(v =~= seq![32u8] + dec + separator());
    assert(v.drop_first() =~= dec + separator());
    let w = dec + separator();
    assert(trim_start(w) == w);
    assert(w.drop_last() =~= dec + seq![13u8]);
    assert((dec + seq![13u8]).drop_last() =~= dec);
    assert(trim_end(dec) == dec);
    assert(trim_start(v) == w);
    assert(trim_end(w) == trim_end(dec + seq![13u8]));
    assert(trim_end(dec + seq![13u8]) == trim_end(dec));
    assert(colon(h) == 14);
    assert(h.subrange(colon(h) + 1, h.len() as int) == v);
    assert(header_value(h) == dec);
    lemma_digits_value_of_decimal(payload.len());
    let f = frame(payload);
    assert(f.subrange(h.len() + 2int, h.len() + 2int + payload.len()) =~= payload);
}

/// Reading back a frame gives back exactly the payload that was framed, and reads no byte
/// of what follows it on the stream.
pub proof fn lemma_frame_round_trip(payload: Seq<u8>, rest: Seq<u8>)
    requires
        payload.len() <= usize::MAX,
    ensures
        read_frame(frame(payload) + rest) == Some(payload),
        line_end_from(frame(payload) + rest, line_end_from(frame(payload) + rest, 0))
            + payload.len() + separator().len() == frame(payload).len(),
{
    lemma_content_length_exact(payload);
    let h = header_line(payload);
    let dec = decimal(payload.len());
    let name = content_length_name();
    let s = frame(payload) + rest;
    lemma_decimal_digits(payload.len());
    let l = h.len() as int;
    assert forall|j: int| 0 <= j < l - 1 implies s[j] != 10 by {
        assert(s[j] == h[j]);
        if j < 14 {
            assert(h[j] == name[j]);
        } else if 16 <= j < 16 + dec.len() {
            assert(h[j] == dec[j - 16]);
        }
    }
    assert(s[l - 1] == 10);
    lemma_line_end(s, 0, l - 1);
    assert(s.subrange(0, l) =~= h);
    assert(s[l] == 13);
    assert(s[l + 1] == 10);
    lemma_line_end(s, l, l + 1);
    assert(s.subrange(l, l + 2) =~= separator());
    assert(s.subrange(l + 2, l + 2 + payload.len()) =~= payload);
}

} // verus!
