//! HTTP/1.1 on the wire: header lookup, the `Content-Length` value, and the
//! serialisation of a response.
use vstd::prelude::*;

verus! {

/// One header line: a name and a value, both as bytes.
#[derive(Clone, Debug, PartialEq, Eq)]
pub struct Header {
    pub name: Vec<u8>,
    pub value: Vec<u8>,
}

/// The mathematical value of a header.
pub ghost struct HeaderView {
    pub name: Seq<u8>,
    pub value: Seq<u8>,
}

impl View for Header {
    type V = HeaderView;

    open spec fn view(&self) -> HeaderView {
        HeaderView { name: self.name@, value: self.value@ }
    }
}

/// The values of a list of headers, in order.
pub open spec fn header_views(headers: Seq<Header>) -> Seq<HeaderView> {
    Seq::new(headers.len(), |i: int| headers[i]@)
}

/// The bytes of `content-length`.
pub open spec fn content_length_name() -> Seq<u8> {
    seq![
        99u8, 111u8, 110u8, 116u8, 101u8, 110u8, 116u8, 45u8, 108u8, 101u8, 110u8, 103u8, 116u8,
        104u8,
    ]
}

/// A byte with an ASCII upper-case letter replaced by its lower-case form.
pub open spec fn ascii_lower(b: u8) -> u8 {
    if 65 <= b <= 90 {
        (b + 32) as u8
    } else {
        b
    }
}

/// Whether two byte strings are equal up to the case of ASCII letters.
pub open spec fn eq_ignore_ascii_case(a: Seq<u8>, b: Seq<u8>) -> bool {
    &&& a.len() == b.len()
    &&& forall|i: int| 0 <= i < a.len() ==> ascii_lower(#[trigger] a[i]) == ascii_lower(b[i])
}

/// The value of the first header in `headers` that is named `name`, up to
/// the case of ASCII letters.
pub open spec fn first_named(headers: Seq<HeaderView>, name: Seq<u8>) -> Option<Seq<u8>>
    decreases headers.len(),
{
    if headers.len() == 0 {
        None
    } else if eq_ignore_ascii_case(headers[0].name, name) {
        Some(headers[0].value)
    } else {
        first_named(headers.skip(1), name)
    }
}

/// Whether every byte of `s` is an ASCII digit.
pub open spec fn all_digits(s: Seq<u8>) -> bool {
    forall|i: int| 0 <= i < s.len() ==> 48 <= #[trigger] s[i] <= 57
}

/// The number that a string of ASCII digits denotes in base ten.
pub open spec fn digits_value(s: Seq<u8>) -> nat
    decreases s.len(),
{
    if s.len() == 0 {
        0
    } else {
        digits_value(s.drop_last()) * 10 + (s.last() - 48) as nat
    }
}

/// The digits of a `Content-Length` value: the value without its optional
/// leading plus sign.
pub open spec fn unsigned_part(value: Seq<u8>) -> Seq<u8> {
    if value.len() > 0 && value[0] == 43 {
        value.skip(1)
    } else {
        value
    }
}

/// The length that a `Content-Length` value denotes: the value is an optional
/// plus sign followed by one or more ASCII digits and nothing else, and the
/// number fits the machine's word.
pub open spec fn length_of(value: Seq<u8>) -> Option<usize> {
    let digits = unsigned_part(value);
    if digits.len() > 0 && all_digits(digits) && digits_value(digits) <= usize::MAX {
        Some(digits_value(digits) as usize)
    } else {
        None
    }
}

/// The body length that a request's headers announce: the value of the first
/// `Content-Length` header, if there is such a header and its value denotes a
/// length.
pub open spec fn announced_length(headers: Seq<HeaderView>) -> Option<usize> {
    match first_named(headers, content_length_name()) {
        Some(value) => length_of(value),
        None => None,
    }
}

/// The digits of `n` in base ten, without leading zeros.
pub open spec fn decimal_digits(n: nat) -> Seq<u8>
    decreases n,
{
    if n < 10 {
        seq![(48 + n) as u8]
    } else {
        decimal_digits(n / 10).push((48 + n % 10) as u8)
    }
}

/// Compares two byte strings up to the case of ASCII letters.
pub fn bytes_eq_ignore_case(a: &[u8], b: &[u8]) -> (same: bool)
    ensures
        same == eq_ignore_ascii_case(a@, b@),
{
    if a.len() != b.len() {
        return false;
    }
    let mut i: usize = 0;
    while i < a.len()
        invariant
            i <= a.len(),
            a.len() == b.len(),
            forall|j: int| 0 <= j < i ==> ascii_lower(#[trigger] a@[j]) == ascii_lower(b@[j]),
        decreases a.len() - i,
    {
        if lower(a[i]) != lower(b[i]) {
            return false;
        }
        i = i + 1;
    }
    true
}

fn lower(b: u8) -> (l: u8)
    ensures
        l == ascii_lower(b),
{
    if 65 <= b && b <= 90 {
        b + 32
    } else {
        b
    }
}

/// The bytes of `content-length`.
pub fn content_length_header() -> (name: Vec<u8>)
    ensures
        name@ == content_length_name(),
{
    vec![
        99u8, 111u8, 110u8, 116u8, 101u8, 110u8, 116u8, 45u8, 108u8, 101u8, 110u8, 103u8, 116u8,
        104u8,
    ]
}

/// Parses the value of a `Content-Length` header.
pub fn parse_length(value: &[u8]) -> (length: Option<usize>)
    ensures
        length == length_of(value@),
{
    let start: usize = if value.len() > 0 && value[0] == 43 {
        1
    } else {
        0
    };
    let ghost digits = unsigned_part(value@);
    proof {
        assert(digits =~= value@.skip(start as int));
    }
    if start == value.len() {
        return None;
    }
    let mut acc: usize = 0;
    let mut i: usize = start;
    while i < value.len()
        invariant
            start <= i <= value.len(),
            digits == value@.skip(start as int),
            digits == unsigned_part(value@),
            all_digits(digits.take(i - start)),
            acc == digits_value(digits.take(i - start)),
        decreases value.len() - i,
    {
        let b: u8 = value[i];
        proof {
            assert(digits[i - start] == b);
            assert(digits.take(i - start + 1).drop_last() =~= digits.take(i - start));
            assert(digits.take(i - start + 1).last() == b);
        }
        if b < 48 || b > 57 {
            proof {
                assert(!(48 <= digits[i - start] <= 57));
            }
            return None;
        }
        let d: usize = (b - 48) as usize;
        proof {
            assert(digits_value(digits.take(i - start + 1)) == acc * 10 + d);
        }
        if acc > (usize::MAX - d) / 10 {
            proof {
                lemma_digits_value_grows(digits, i - start + 1);
                assert(acc * 10 + d > usize::MAX);
            }
            return None;
        }
        acc = acc * 10 + d;
        i = i + 1;
    }
    proof {
        assert(digits.take(digits.len() as int) =~= digits);
    }
    Some(acc)
}

/// A prefix of a digit string denotes no more than the whole string.
pub proof fn lemma_digits_value_grows(s: Seq<u8>, k: int)
    requires
        0 <= k <= s.len(),
    ensures
        digits_value(s.take(k)) <= digits_value(s),
    decreases s.len() - k,
{
    if k == s.len() {
        assert(s.take(k) =~= s);
    } else {
        assert(s.take(k + 1).drop_last() =~= s.take(k));
        lemma_digits_value_grows(s, k + 1);
    }
}

/// Looks up the body length that a request's headers announce.
pub fn content_length(headers: &Vec<Header>) -> (length: Option<usize>)
    ensures
        length == announced_length(header_views(headers@)),
{
    let name = content_length_header();
    let ghost views = header_views(headers@);
    proof {
        assert(views.skip(0) =~= views);
    }
    let mut i: usize = 0;
    while i < headers.len()
        invariant
            i <= headers.len(),
            views == header_views(headers@),
            name@ == content_length_name(),
            first_named(views, name@) == first_named(views.skip(i as int), name@),
        decreases headers.len() - i,
    {
        proof {
            assert(views.skip(i as int)[0] == headers@[i as int]@);
            assert(views.skip(i as int).skip(1) =~= views.skip(i + 1));
        }
        if bytes_eq_ignore_case(headers[i].name.as_slice(), name.as_slice()) {
            return parse_length(headers[i].value.as_slice());
        }
        i = i + 1;
    }
    None
}

/// Writes `n` in base ten.
pub fn decimal(n: usize) -> (digits: Vec<u8>)
    ensures
        digits@ == decimal_digits(n as nat),
    decreases n,
{
    if n < 10 {
        vec![(48 + n) as u8]
    } else {
        let mut digits = decimal(n / 10);
        digits.push((48 + n % 10) as u8);
        digits
    }
}

/// What `decimal` writes, `parse_length` reads back.
pub proof fn lemma_length_round_trip(n: usize)
    ensures
        length_of(decimal_digits(n as nat)) == Some(n),
{
    lemma_decimal_digits(n as nat);
    let s = decimal_digits(n as nat);
    assert(s[0] != 43);
}

/// The digits written for `n` are digits, at least one, and denote `n`.
pub proof fn lemma_decimal_digits(n: nat)
    ensures
        decimal_digits(n).len() > 0,
        all_digits(decimal_digits(n)),
        digits_value(decimal_digits(n)) == n,
    decreases n,
{
    let s = decimal_digits(n);
    if n < 10 {
        assert(s.drop_last() =~= Seq::<u8>::empty());
        assert(digits_value(s.drop_last()) == 0);
    } else {
        lemma_decimal_digits(n / 10);
        assert(s.drop_last() =~= decimal_digits(n / 10));
    }
}

/// A response: a status code, headers and a body.
#[derive(Clone, Debug, PartialEq, Eq)]
pub struct Response {
    pub status: u16,
    pub headers: Vec<Header>,
    pub body: Vec<u8>,
}

impl Response {
    /// Whether the status is a status code: a number of three digits.
    pub open spec fn valid(&self) -> bool {
        100 <= self.status < 1000
    }

    /// A response with the given parts, if `status` is a status code.
    pub fn new(status: u16, headers: Vec<Header>, body: Vec<u8>) -> (r: Option<Response>)
        ensures
            r is Some <==> 100 <= status < 1000,
            r matches Some(response) ==> response.valid() && response.status == status
                && response.headers == headers && response.body == body,
    {
        if 100 <= status && status < 1000 {
            Some(Response { status, headers, body })
        } else {
            None
        }
    }

    /// The response to a request that cannot be parsed: status 400 and the
    /// body `Invalid HTTP Request`.
    pub fn bad_request() -> (response: Response)
        ensures
            response.valid(),
            response.status == 400,
            response.headers@.len() == 0,
            response.body@ == invalid_request_text(),
    {
        Response {
            status: 400,
            headers: Vec::new(),
            body: vec![
                73u8, 110u8, 118u8, 97u8, 108u8, 105u8, 100u8, 32u8, 72u8, 84u8, 84u8, 80u8, 32u8,
                82u8, 101u8, 113u8, 117u8, 101u8, 115u8, 116u8,
            ],
        }
    }
}

/// The bytes of `Invalid HTTP Request`.
pub open spec fn invalid_request_text() -> Seq<u8> {
    seq![
        73u8, 110u8, 118u8, 97u8, 108u8, 105u8, 100u8, 32u8, 72u8, 84u8, 84u8, 80u8, 32u8, 82u8,
        101u8, 113u8, 117u8, 101u8, 115u8, 116u8,
    ]
}

/// The bytes of `HTTP/1.1 `, which begin every response.
pub open spec fn version_prefix() -> Seq<u8> {
    seq![72u8, 84u8, 84u8, 80u8, 47u8, 49u8, 46u8, 49u8, 32u8]
}

/// The bytes of `Content-Length: `.
pub open spec fn length_prefix() -> Seq<u8> {
    seq![
        67u8, 111u8, 110u8, 116u8, 101u8, 110u8, 116u8, 45u8, 76u8, 101u8, 110u8, 103u8, 116u8,
        104u8, 58u8, 32u8,
    ]
}

/// The bytes of `: `, which part a header's name from its value.
pub open spec fn separator() -> Seq<u8> {
    seq![58u8, 32u8]
}

/// A carriage return and a line feed.
pub open spec fn crlf() -> Seq<u8> {
    seq![13u8, 10u8]
}

/// Whether a header value can be written as text: every byte is a visible
/// ASCII character, a space or a tab.
pub open spec fn visible_ascii(value: Seq<u8>) -> bool {
    forall|i: int| 0 <= i < value.len() ==> visible_byte(#[trigger] value[i])
}

/// Whether a byte is a visible ASCII character, a space or a tab.
pub open spec fn visible_byte(b: u8) -> bool {
    32 <= b < 127 || b == 9
}

/// Whether a header is written out and names the body's length.
pub open spec fn states_length(header: HeaderView) -> bool {
    visible_ascii(header.value) && eq_ignore_ascii_case(header.name, content_length_name())
}

/// Whether one of the headers that are written out names the body's length.
pub open spec fn announces_length(headers: Seq<HeaderView>) -> bool {
    exists|i: int| 0 <= i < headers.len() && states_length(#[trigger] headers[i])
}

/// The line that a header is written as. A header whose value cannot be
/// written as text is left out.
pub open spec fn header_line(header: HeaderView) -> Seq<u8> {
    if visible_ascii(header.value) {
        header.name + separator() + header.value + crlf()
    } else {
        Seq::empty()
    }
}

/// The lines of a list of headers, in order.
pub open spec fn header_lines(headers: Seq<HeaderView>) -> Seq<u8>
    decreases headers.len(),
{
    if headers.len() == 0 {
        Seq::empty()
    } else {
        header_lines(headers.drop_last()) + header_line(headers.last())
    }
}

/// A response on the wire: the status line, a line for each header, a
/// `Content-Length` line with the body's length unless a header that is
/// written out names it already, an empty line, and the body.
pub open spec fn serialized(status_text: Seq<u8>, headers: Seq<HeaderView>, body: Seq<u8>) -> Seq<
    u8,
> {
    version_prefix() + status_text + crlf() + header_lines(headers) + (if announces_length(
        headers,
    ) {
        Seq::<u8>::empty()
    } else {
        length_prefix() + decimal_digits(body.len()) + crlf()
    }) + crlf() + body
}

/// Whether a header value can be written as text.
pub fn is_visible_ascii(value: &[u8]) -> (visible: bool)
    ensures
        visible == visible_ascii(value@),
{
    let mut i: usize = 0;
    while i < value.len()
        invariant
            i <= value.len(),
            forall|j: int| 0 <= j < i ==> visible_byte(#[trigger] value@[j]),
        decreases value.len() - i,
    {
        let b: u8 = value[i];
        if !((32 <= b && b < 127) || b == 9) {
            return false;
        }
        i = i + 1;
    }
    true
}

fn append(out: &mut Vec<u8>, bytes: &[u8])
    ensures
        final(out)@ == old(out)@ + bytes@,
{
    let mut i: usize = 0;
    while i < bytes.len()
        invariant
            i <= bytes.len(),
            out@ == old(out)@ + bytes@.take(i as int),
        decreases bytes.len() - i,
    {
        out.push(bytes[i]);
        proof {
            assert(bytes@.take(i + 1) =~= bytes@.take(i as int).push(bytes@[i as int]));
        }
        i = i + 1;
    }
    proof {
        assert(bytes@.take(bytes@.len() as int) =~= bytes@);
    }
}

/// Writes a response whose status line text is `status_text`.
pub fn assemble_response(status_text: &[u8], headers: &Vec<Header>, body: &[u8]) -> (out: Vec<u8>)
    ensures
        out@ == serialized(status_text@, header_views(headers@), body@),
{
    let ghost views = header_views(headers@);
    let name = content_length_header();
    let mut out: Vec<u8> = Vec::new();
    append(&mut out, vec![72u8, 84u8, 84u8, 80u8, 47u8, 49u8, 46u8, 49u8, 32u8].as_slice());
    append(&mut out, status_text);
    append(&mut out, vec![13u8, 10u8].as_slice());
    let ghost head = version_prefix() + status_text@ + crlf();
    let mut has_length = false;
    let mut i: usize = 0;
    proof {
        assert(out@ =~= head + header_lines(views.take(0)));
    }
    while i < headers.len()
        invariant
            i <= headers.len(),
            views == header_views(headers@),
            name@ == content_length_name(),
            out@ == head + header_lines(views.take(i as int)),
            has_length <==> exists|j: int| 0 <= j < i && states_length(#[trigger] views[j]),
        decreases headers.len() - i,
    {
        let header = &headers[i];
        proof {
            assert(views.take(i + 1).drop_last() =~= views.take(i as int));
            assert(views.take(i + 1).last() == header@);
            assert(views[i as int] == header@);
        }
        if is_visible_ascii(header.value.as_slice()) {
            if bytes_eq_ignore_case(header.name.as_slice(), name.as_slice()) {
                has_length = true;
            }
            append(&mut out, header.name.as_slice());
            append(&mut out, vec![58u8, 32u8].as_slice());
            append(&mut out, header.value.as_slice());
            append(&mut out, vec![13u8, 10u8].as_slice());
        }
        proof {
            assert(out@ =~= head + header_lines(views.take(i + 1)));
        }
        i = i + 1;
    }
    proof {
        assert(views.take(views.len() as int) =~= views);
        assert(has_length <==> announces_length(views));
    }
    if !has_length {
        append(
            &mut out,
            vec![
                67u8, 111u8, 110u8, 116u8, 101u8, 110u8, 116u8, 45u8, 76u8, 101u8, 110u8, 103u8,
                116u8, 104u8, 58u8, 32u8,
            ].as_slice(),
        );
        append(&mut out, decimal(body.len()).as_slice());
        append(&mut out, vec![13u8, 10u8].as_slice());
    }
    append(&mut out, vec![13u8, 10u8].as_slice());
    append(&mut out, body);
    proof {
        assert(out@ =~= serialized(status_text@, views, body@));
    }
    out
}

/// What `http::StatusCode` prints for the status code `status`: the code and
/// its canonical reason phrase.
pub uninterp spec fn status_display(status: u16) -> Seq<u8>;

/// Formats a status code with `http::StatusCode`'s `Display`, which writes
/// the code, a space and the canonical reason phrase. The contract names the
/// text and claims nothing else of it; codes that `StatusCode::from_u16`
/// refuses are left out.
#[verifier::external_body]
fn status_text(status: u16) -> (text: Vec<u8>)
    requires
        100 <= status < 1000,
    ensures
        text@ == status_display(status),
{
    ::http::StatusCode::from_u16(status).unwrap().to_string().into_bytes()
}

/// Writes a response as it is sent on the wire.
pub fn serialize_response(response: &Response) -> (out: Vec<u8>)
    requires
        response.valid(),
    ensures
        out@ == serialized(
            status_display(response.status),
            header_views(response.headers@),
            response.body@,
        ),
{
    let text = status_text(response.status);
    assemble_response(text.as_slice(), &response.headers, response.body.as_slice())
}

} // verus!
