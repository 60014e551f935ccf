//! Reading and answering the HTTP/1.1 requests of the loopback share server.
//!
//! The server reads a request in chunks; after each chunk, [`RequestReader::feed`]
//! says whether the request is complete, needs more bytes, or is refused. The
//! outcome depends on the bytes received so far alone ([`request_outcome`]).
use vstd::prelude::*;
use vstd::utf8::{valid_utf8, decode_utf8, encode_utf8};
use crate::text::{is_white_space, white_space, chars_of, push_char};

verus! {

broadcast use vstd::utf8::encode_utf8_decode_utf8;

/// Largest request, headers and body together, that the server accepts.
pub const MAX_REQUEST_BYTES: usize = 2097152;

/// Methods that the share server serves.
#[derive(Clone, Copy, Debug, PartialEq, Eq, Structural)]
pub enum Method {
    Get,
    Post,
    Options,
}

/// Why a request could not be read.
#[derive(Clone, Copy, Debug, PartialEq, Eq, Structural)]
pub enum HttpError {
    /// The peer closed the connection without sending anything.
    EmptyConnection,
    /// The connection ended in the middle of the headers.
    Truncated,
    /// More than [`MAX_REQUEST_BYTES`] arrived.
    TooLarge,
    /// The header block is not valid UTF-8.
    NotUtf8,
    /// The header block has no request line.
    NoRequestLine,
    /// The request line has no method.
    NoMethod,
    /// The request line has no path.
    NoPath,
    /// The method is not served or the path does not start with `/`.
    Malformed,
    /// The announced body is larger than [`MAX_REQUEST_BYTES`].
    BodyTooLarge,
    /// The connection ended before the announced body arrived.
    BodyTruncated,
}

/// The message shown for each [`HttpError`].
pub open spec fn http_error_text(e: HttpError) -> Seq<char> {
    match e {
        HttpError::EmptyConnection => "共有用ローカル通信がリクエストなしで終了しました。"@,
        HttpError::Truncated => "HTTPリクエストが途中で終了しました。"@,
        HttpError::TooLarge => "HTTPリクエストが大きすぎます。"@,
        HttpError::NotUtf8 => "HTTPリクエストの文字コードが不正です。"@,
        HttpError::NoRequestLine => "HTTPリクエスト行がありません。"@,
        HttpError::NoMethod => "HTTPメソッドがありません."@,
        HttpError::NoPath => "HTTPパスがありません。"@,
        HttpError::Malformed => "HTTPリクエストが不正です。"@,
        HttpError::BodyTooLarge => "HTTP本文が大きすぎます。"@,
        HttpError::BodyTruncated => "HTTP本文が途中で終了しました。"@,
    }
}

impl HttpError {
    /// The message that the server logs for this error.
    pub fn message(&self) -> (r: String)
        ensures
            r@ == http_error_text(*self),
    {
        match self {
            HttpError::EmptyConnection => String::from_str("共有用ローカル通信がリクエストなしで終了しました。"),
            HttpError::Truncated => String::from_str("HTTPリクエストが途中で終了しました。"),
            HttpError::TooLarge => String::from_str("HTTPリクエストが大きすぎます。"),
            HttpError::NotUtf8 => String::from_str("HTTPリクエストの文字コードが不正です。"),
            HttpError::NoRequestLine => String::from_str("HTTPリクエスト行がありません。"),
            HttpError::NoMethod => String::from_str("HTTPメソッドがありません."),
            HttpError::NoPath => String::from_str("HTTPパスがありません。"),
            HttpError::Malformed => String::from_str("HTTPリクエストが不正です。"),
            HttpError::BodyTooLarge => String::from_str("HTTP本文が大きすぎます。"),
            HttpError::BodyTruncated => String::from_str("HTTP本文が途中で終了しました。"),
        }
    }
}

/// A complete request.
pub struct HttpRequest {
    pub method: Method,
    /// The request path, without its query.
    pub path: String,
    pub body: Vec<u8>,
}

/// The parts of a request that its header block determines.
pub struct RequestHead {
    pub method: Method,
    pub path: String,
    pub content_length: usize,
}

/// The request line and the announced body length, as sequences.
pub struct HeadView {
    pub method: Method,
    pub path: Seq<char>,
    pub content_length: nat,
}

/// A complete request, as sequences.
pub struct RequestView {
    pub method: Method,
    pub path: Seq<char>,
    pub body: Seq<u8>,
}

/// Where reading a request stands after the bytes received so far.
pub enum ReadOutcome {
    NeedMore,
    Complete(RequestView),
    Failed(HttpError),
}

/// What [`RequestReader::feed`] reports.
pub enum ReadProgress {
    NeedMore,
    Done(HttpRequest),
    Failed(HttpError),
}

impl RequestHead {
    pub open spec fn view(&self) -> HeadView {
        HeadView { method: self.method, path: self.path@, content_length: self.content_length as nat }
    }
}

impl ReadProgress {
    pub open spec fn outcome(&self) -> ReadOutcome {
        match self {
            ReadProgress::NeedMore => ReadOutcome::NeedMore,
            ReadProgress::Done(r) => ReadOutcome::Complete(
                RequestView { method: r.method, path: r.path@, body: r.body@ },
            ),
            ReadProgress::Failed(e) => ReadOutcome::Failed(*e),
        }
    }
}

// ---------------------------------------------------------------- bytes

/// An empty line (`\r\n\r\n`) starts at byte `i` of `d`.
pub open spec fn blank_line_at(d: Seq<u8>, i: int) -> bool {
    &&& 0 <= i
    &&& i + 4 <= d.len()
    &&& d[i] == 13u8
    &&& d[i + 1] == 10u8
    &&& d[i + 2] == 13u8
    &&& d[i + 3] == 10u8
}

/// The first empty line at or after byte `i`.
pub open spec fn blank_line_from(d: Seq<u8>, i: nat) -> Option<nat>
    decreases d.len() - i,
{
    if i + 4 > d.len() {
        None
    } else if blank_line_at(d, i as int) {
        Some(i)
    } else {
        blank_line_from(d, i + 1)
    }
}

/// Where the header block ends: the first `\r\n\r\n`.
pub open spec fn header_end(d: Seq<u8>) -> Option<nat> {
    blank_line_from(d, 0)
}

pub proof fn lemma_blank_line_from(d: Seq<u8>, i: nat)
    ensures
        match blank_line_from(d, i) {
            Some(k) => i <= k && blank_line_at(d, k as int) && forall|j: int|
                i <= j < k ==> !blank_line_at(d, j),
            None => forall|j: int| i <= j ==> !blank_line_at(d, j),
        },
    decreases d.len() - i,
{
    if i + 4 <= d.len() && !blank_line_at(d, i as int) {
        lemma_blank_line_from(d, i + 1);
    }
}

/// Searching from `i` finds the same line as searching from the start, when
/// no empty line starts before `i`.
proof fn lemma_blank_line_skip(d: Seq<u8>, i: nat, start: nat)
    requires
        i <= start,
        forall|j: int| i <= j < start ==> !blank_line_at(d, j),
    ensures
        blank_line_from(d, i) == blank_line_from(d, start),
    decreases start - i,
{
    if i < start {
        if i + 4 <= d.len() {
            lemma_blank_line_skip(d, i + 1, start);
        } else {
            lemma_blank_line_from(d, start);
            assert(blank_line_from(d, start) is None) by {
                if start + 4 <= d.len() {
                    assert(false);
                }
            }
        }
    }
}

/// Index of the first `\r\n\r\n` in `data`, if any.
pub fn find_header_end(data: &[u8]) -> (r: Option<usize>)
    ensures
        match r {
            Some(k) => header_end(data@) == Some(k as nat),
            None => header_end(data@) is None,
        },
{
    find_blank_line_from(data, 0)
}

fn find_blank_line_from(data: &[u8], from: usize) -> (r: Option<usize>)
    ensures
        match r {
            Some(k) => blank_line_from(data@, from as nat) == Some(k as nat),
            None => blank_line_from(data@, from as nat) is None,
        },
{
    let n = data.len();
    let mut i = from;
    while i < n && n - i >= 4
        invariant
            n == data@.len(),
            from <= i,
            blank_line_from(data@, from as nat) == blank_line_from(data@, i as nat),
        decreases n - i,
    {
        if data[i] == 13u8 && data[i + 1] == 10u8 && data[i + 2] == 13u8 && data[i + 3] == 10u8 {
            return Some(i);
        }
        i = i + 1;
    }
    None
}

// ---------------------------------------------------------------- characters

/// Index of the first `c` at or after `from`, or the length.
pub open spec fn index_of(s: Seq<char>, c: char, from: int) -> int
    decreases s.len() - from,
{
    if from >= s.len() {
        s.len() as int
    } else if s[from] == c {
        from
    } else {
        index_of(s, c, from + 1)
    }
}

pub proof fn lemma_index_of_bounds(s: Seq<char>, c: char, from: int)
    requires
        0 <= from <= s.len(),
    ensures
        from <= index_of(s, c, from) <= s.len(),
        index_of(s, c, from) < s.len() ==> s[index_of(s, c, from)] == c,
    decreases s.len() - from,
{
    if from < s.len() && s[from] != c {
        lemma_index_of_bounds(s, c, from + 1);
    }
}

/// First index at or after `from` that is not white space, or the length.
pub open spec fn skip_space(s: Seq<char>, from: int) -> int
    decreases s.len() - from,
{
    if from >= s.len() {
        s.len() as int
    } else if is_white_space(s[from]) {
        skip_space(s, from + 1)
    } else {
        from
    }
}

/// First index at or after `from` that is white space, or the length.
pub open spec fn token_end(s: Seq<char>, from: int) -> int
    decreases s.len() - from,
{
    if from >= s.len() {
        s.len() as int
    } else if is_white_space(s[from]) {
        from
    } else {
        token_end(s, from + 1)
    }
}

pub proof fn lemma_skip_space(s: Seq<char>, from: int)
    requires
        0 <= from <= s.len(),
    ensures
        from <= skip_space(s, from) <= s.len(),
        skip_space(s, from) < s.len() ==> !is_white_space(s[skip_space(s, from)]),
    decreases s.len() - from,
{
    if from < s.len() && is_white_space(s[from]) {
        lemma_skip_space(s, from + 1);
    }
}

pub proof fn lemma_token_end(s: Seq<char>, from: int)
    requires
        0 <= from <= s.len(),
    ensures
        from <= token_end(s, from) <= s.len(),
    decreases s.len() - from,
{
    if from < s.len() && !is_white_space(s[from]) {
        lemma_token_end(s, from + 1);
    }
}

/// One past the last character before `end` that is not white space, or zero.
pub open spec fn trim_end(s: Seq<char>, end: int) -> int
    decreases end,
{
    if end <= 0 {
        0
    } else if is_white_space(s[end - 1]) {
        trim_end(s, end - 1)
    } else {
        end
    }
}

/// `s` without leading and trailing white space.
pub open spec fn trimmed(s: Seq<char>) -> Seq<char> {
    let a = skip_space(s, 0);
    let b = trim_end(s, s.len() as int);
    if a < b {
        s.subrange(a, b)
    } else {
        Seq::empty()
    }
}

pub open spec fn is_digit(c: char) -> bool {
    '0' <= c && c <= '9'
}

/// Value of a sequence of decimal digits.
pub open spec fn decimal_value(d: Seq<char>) -> nat
    decreases d.len(),
{
    if d.len() == 0 {
        0
    } else {
        decimal_value(d.drop_last()) * 10 + ((d.last() as u32) - ('0' as u32)) as nat
    }
}

/// `s` without the one `+` that may lead it.
pub open spec fn unsigned_digits(s: Seq<char>) -> Seq<char> {
    if s.len() > 0 && s[0] == '+' {
        s.drop_first()
    } else {
        s
    }
}

/// Every character of `d` is a decimal digit.
pub open spec fn all_digits(d: Seq<char>) -> bool {
    forall|i: int| 0 <= i < d.len() ==> is_digit(#[trigger] d[i])
}

/// The `usize` that `s` spells, as `usize::from_str` reads it: an optional
/// `+`, then one or more decimal digits, with a value that fits.
pub open spec fn parse_usize(s: Seq<char>) -> Option<nat> {
    let digits = unsigned_digits(s);
    if digits.len() == 0 || !all_digits(digits) {
        None
    } else if decimal_value(digits) > usize::MAX {
        None
    } else {
        Some(decimal_value(digits))
    }
}

/// ASCII lower case of `c`; other characters are left alone.
pub open spec fn ascii_lower(c: char) -> char {
    if 'A' <= c && c <= 'Z' {
        ((c as u32) + 32) as char
    } else {
        c
    }
}

/// `name` equals `content-length` when ASCII case is ignored.
pub open spec fn is_content_length_name(name: Seq<char>) -> bool {
    name.len() == "content-length"@.len() && forall|i: int|
        0 <= i < name.len() ==> ascii_lower(#[trigger] name[i]) == "content-length"@[i]
}

/// The length that a header line announces, if it is a well-formed `Content-Length` line.
pub open spec fn length_header_value(line: Seq<char>) -> Option<nat> {
    let c = index_of(line, ':', 0);
    if c >= line.len() {
        None
    } else if is_content_length_name(line.subrange(0, c)) {
        parse_usize(trimmed(line.subrange(c + 1, line.len() as int)))
    } else {
        None
    }
}

/// The first announced length in the lines that start at `from`.
pub open spec fn content_length_from(s: Seq<char>, from: int) -> Option<nat>
    decreases s.len() - from,
{
    if from < 0 || from > s.len() {
        None
    } else {
        let e = index_of(s, '\n', from);
        proof {
            lemma_index_of_bounds(s, '\n', from);
        }
        match length_header_value(s.subrange(from, e)) {
            Some(v) => Some(v),
            None => if e >= s.len() {
                None
            } else {
                content_length_from(s, e + 1)
            },
        }
    }
}

/// The method that a token names, if it is one the server serves.
pub open spec fn method_of(t: Seq<char>) -> Option<Method> {
    if t == "GET"@ {
        Some(Method::Get)
    } else if t == "POST"@ {
        Some(Method::Post)
    } else if t == "OPTIONS"@ {
        Some(Method::Options)
    } else {
        None
    }
}

/// What the header text `s` says of the request, or why it is refused.
pub open spec fn head_of_text(s: Seq<char>) -> Result<HeadView, HttpError> {
    if s.len() == 0 {
        Err(HttpError::NoRequestLine)
    } else {
        let e = index_of(s, '\n', 0);
        let line = s.subrange(0, e);
        let a = skip_space(line, 0);
        let b = token_end(line, a);
        let c = skip_space(line, b);
        let d = token_end(line, c);
        if a >= line.len() {
            Err(HttpError::NoMethod)
        } else if c >= line.len() {
            Err(HttpError::NoPath)
        } else {
            let method = line.subrange(a, b);
            let path = line.subrange(c, d);
            if method_of(method) is None || path[0] != '/' {
                Err(HttpError::Malformed)
            } else {
                let length = if e >= s.len() {
                    0
                } else {
                    match content_length_from(s, e + 1) {
                        Some(v) => v,
                        None => 0,
                    }
                };
                if length > MAX_REQUEST_BYTES {
                    Err(HttpError::BodyTooLarge)
                } else {
                    Ok(
                        HeadView {
                            method: method_of(method)->0,
                            path: path.subrange(0, index_of(path, '?', 0)),
                            content_length: length,
                        },
                    )
                }
            }
        }
    }
}

/// What the header bytes `h` say of the request, or why it is refused.
pub open spec fn head_of(h: Seq<u8>) -> Result<HeadView, HttpError> {
    if !valid_utf8(h) {
        Err(HttpError::NotUtf8)
    } else {
        head_of_text(decode_utf8(h))
    }
}

/// Where reading stands once the bytes `d` have arrived (and no earlier prefix
/// of them completed or refused the request).
pub open spec fn request_outcome(d: Seq<u8>) -> ReadOutcome {
    if d.len() > MAX_REQUEST_BYTES {
        ReadOutcome::Failed(HttpError::TooLarge)
    } else {
        match header_end(d) {
            None => ReadOutcome::NeedMore,
            Some(k) => match head_of(d.take(k as int)) {
                Err(e) => ReadOutcome::Failed(e),
                Ok(h) => if d.len() < k + 4 + h.content_length {
                    ReadOutcome::NeedMore
                } else {
                    ReadOutcome::Complete(
                        RequestView {
                            method: h.method,
                            path: h.path,
                            body: d.subrange((k + 4) as int, (k + 4 + h.content_length) as int),
                        },
                    )
                },
            },
        }
    }
}

/// Why reading fails when the connection ends after the bytes `d`.
pub open spec fn end_of_stream_error(d: Seq<u8>) -> HttpError {
    if header_end(d) is Some {
        HttpError::BodyTruncated
    } else if d.len() == 0 {
        HttpError::EmptyConnection
    } else {
        HttpError::Truncated
    }
}

// ---------------------------------------------------------------- exec helpers

/// `std::str::from_utf8`: the text that the bytes spell. The contract claims
/// that it succeeds exactly on valid UTF-8, and that the text it gives encodes
/// back to the same bytes.
#[verifier::external_body]
fn utf8_text(bytes: &[u8]) -> (r: Option<&str>)
    ensures
        r is Some <==> valid_utf8(bytes@),
        r matches Some(s) ==> encode_utf8(s@) == bytes@,
{
    match std::str::from_utf8(bytes) {
        Ok(s) => Some(s),
        Err(_) => None,
    }
}

fn index_of_exec(s: &Vec<char>, c: char, from: usize) -> (r: usize)
    requires
        from <= s@.len(),
    ensures
        r == index_of(s@, c, from as int),
        from <= r <= s@.len(),
{
    let mut i = from;
    while i < s.len()
        invariant
            from <= i <= s@.len(),
            index_of(s@, c, from as int) == index_of(s@, c, i as int),
        decreases s@.len() - i,
    {
        if s[i] == c {
            return i;
        }
        i = i + 1;
    }
    i
}

/// The characters `s[a..b]`.
fn sub_chars(s: &Vec<char>, a: usize, b: usize) -> (r: Vec<char>)
    requires
        a <= b <= s@.len(),
    ensures
        r@ == s@.subrange(a as int, b as int),
{
    let mut r: Vec<char> = Vec::new();
    let mut i = a;
    while i < b
        invariant
            a <= i <= b <= s@.len(),
            r@ == s@.subrange(a as int, i as int),
        decreases b - i,
    {
        r.push(s[i]);
        i = i + 1;
    }
    r
}

fn skip_space_exec(s: &Vec<char>, from: usize) -> (r: usize)
    requires
        from <= s@.len(),
    ensures
        r == skip_space(s@, from as int),
        from <= r <= s@.len(),
{
    let mut i = from;
    while i < s.len()
        invariant
            from <= i <= s@.len(),
            skip_space(s@, from as int) == skip_space(s@, i as int),
        decreases s@.len() - i,
    {
        if !white_space(s[i]) {
            return i;
        }
        i = i + 1;
    }
    i
}

fn token_end_exec(s: &Vec<char>, from: usize) -> (r: usize)
    requires
        from <= s@.len(),
    ensures
        r == token_end(s@, from as int),
        from <= r <= s@.len(),
{
    let mut i = from;
    while i < s.len()
        invariant
            from <= i <= s@.len(),
            token_end(s@, from as int) == token_end(s@, i as int),
        decreases s@.len() - i,
    {
        if white_space(s[i]) {
            return i;
        }
        i = i + 1;
    }
    i
}

fn trimmed_exec(s: &Vec<char>) -> (r: Vec<char>)
    ensures
        r@ == trimmed(s@),
{
    let a = skip_space_exec(s, 0);
    let mut k = s.len();
    while k > 0 && white_space(s[k - 1])
        invariant
            k <= s@.len(),
            trim_end(s@, s@.len() as int) == trim_end(s@, k as int),
        decreases k,
    {
        k = k - 1;
    }
    if a < k {
        sub_chars(s, a, k)
    } else {
        Vec::new()
    }
}

proof fn lemma_decimal_prefix(d: Seq<char>, k: int)
    requires
        0 <= k <= d.len(),
    ensures
        decimal_value(d.take(k)) <= decimal_value(d),
    decreases d.len() - k,
{
    if k < d.len() {
        lemma_decimal_prefix(d, k + 1);
        assert(d.take(k + 1).drop_last() =~= d.take(k));
    } else {
        assert(d.take(k) =~= d);
    }
}

/// Reads `t` as `usize::from_str` does.
fn parse_usize_exec(t: &Vec<char>) -> (r: Option<usize>)
    ensures
        match r {
            Some(v) => parse_usize(t@) == Some(v as nat),
            None => parse_usize(t@) is None,
        },
{
    let mut a: usize = 0;
    if t.len() > 0 && t[0] == '+' {
        a = 1;
    }
    let end = t.len();
    let ghost digits = unsigned_digits(t@);
    assert(digits =~= t@.subrange(a as int, end as int));
    if a >= end {
        return None;
    }
    let mut i = a;
    while i < end
        invariant
            a <= i <= end == t@.len(),
            digits == t@.subrange(a as int, end as int),
            digits == unsigned_digits(t@),
            forall|j: int| 0 <= j < i - a ==> is_digit(#[trigger] digits[j]),
        decreases end - i,
    {
        let c = t[i];
        if !('0' <= c && c <= '9') {
            assert(!is_digit(digits[i - a]));
            assert(!all_digits(digits));
            return None;
        }
        i = i + 1;
    }
    assert(all_digits(digits));
    let mut v: usize = 0;
    let mut i = a;
    while i < end
        invariant
            a <= i <= end == t@.len(),
            digits == t@.subrange(a as int, end as int),
            digits == unsigned_digits(t@),
            all_digits(digits),
            v == decimal_value(digits.take(i - a)),
        decreases end - i,
    {
        let ghost k = i - a;
        assert(digits.take(k + 1).drop_last() =~= digits.take(k));
        assert(digits.take(k + 1).last() == t@[i as int]);
        assert(is_digit(digits[k]));
        let d = (t[i] as u32 - '0' as u32) as usize;
        match v.checked_mul(10) {
            Some(m) => match m.checked_add(d) {
                Some(n) => {
                    v = n;
                },
                None => {
                    proof {
                        lemma_decimal_prefix(digits, k + 1);
                    }
                    return None;
                },
            },
            None => {
                proof {
                    lemma_decimal_prefix(digits, k + 1);
                }
                return None;
            },
        }
        i = i + 1;
    }
    assert(digits.take(end - a) =~= digits);
    Some(v)
}

fn ascii_lower_exec(c: char) -> (r: char)
    ensures
        r == ascii_lower(c),
{
    if 'A' <= c && c <= 'Z' {
        let b = c as u8;
        (b + 32) as char
    } else {
        c
    }
}

fn content_length_name_exec(name: &Vec<char>) -> (r: bool)
    ensures
        r == is_content_length_name(name@),
{
    let target = "content-length";
    proof {
        reveal_strlit("content-length");
    }
    let t = chars_of(target);
    if name.len() != t.len() {
        return false;
    }
    let mut i: usize = 0;
    while i < t.len()
        invariant
            name@.len() == t@.len(),
            t@ == "content-length"@,
            i <= t@.len(),
            forall|j: int| 0 <= j < i ==> ascii_lower(#[trigger] name@[j]) == "content-length"@[j],
        decreases t@.len() - i,
    {
        if ascii_lower_exec(name[i]) != t[i] {
            return false;
        }
        i = i + 1;
    }
    true
}

fn length_header_value_exec(line: &Vec<char>) -> (r: Option<usize>)
    ensures
        match r {
            Some(v) => length_header_value(line@) == Some(v as nat),
            None => length_header_value(line@) is None,
        },
{
    let c = index_of_exec(line, ':', 0);
    if c >= line.len() {
        return None;
    }
    let name = sub_chars(line, 0, c);
    if !content_length_name_exec(&name) {
        return None;
    }
    let value = sub_chars(line, c + 1, line.len());
    let t = trimmed_exec(&value);
    parse_usize_exec(&t)
}

fn content_length_from_exec(s: &Vec<char>, from: usize) -> (r: Option<usize>)
    requires
        from <= s@.len(),
    ensures
        match r {
            Some(v) => content_length_from(s@, from as int) == Some(v as nat),
            None => content_length_from(s@, from as int) is None,
        },
{
    let mut i = from;
    loop
        invariant
            from <= i <= s@.len(),
            content_length_from(s@, from as int) == content_length_from(s@, i as int),
        decreases s@.len() - i,
    {
        let e = index_of_exec(s, '\n', i);
        let line = sub_chars(s, i, e);
        match length_header_value_exec(&line) {
            Some(v) => {
                return Some(v);
            },
            None => {
                if e >= s.len() {
                    return None;
                }
                i = e + 1;
            },
        }
    }
}

/// Whether two character sequences are equal.
fn same_chars(a: &Vec<char>, b: &Vec<char>) -> (r: bool)
    ensures
        r == (a@ == b@),
{
    if a.len() != b.len() {
        return false;
    }
    let mut i: usize = 0;
    while i < a.len()
        invariant
            a@.len() == b@.len(),
            i <= a@.len(),
            forall|j: int| 0 <= j < i ==> a@[j] == b@[j],
        decreases a@.len() - i,
    {
        if a[i] != b[i] {
            return false;
        }
        i = i + 1;
    }
    assert(a@ =~= b@);
    true
}

fn method_exec(t: &Vec<char>) -> (r: Option<Method>)
    ensures
        r == method_of(t@),
{
    proof {
        reveal_strlit("GET");
        reveal_strlit("POST");
        reveal_strlit("OPTIONS");
    }
    if same_chars(t, &chars_of("GET")) {
        Some(Method::Get)
    } else if same_chars(t, &chars_of("POST")) {
        Some(Method::Post)
    } else if same_chars(t, &chars_of("OPTIONS")) {
        Some(Method::Options)
    } else {
        None
    }
}

/// The first `n` characters of `v` as a string.
fn string_of(v: &Vec<char>, n: usize) -> (r: String)
    requires
        n <= v@.len(),
    ensures
        r@ == v@.subrange(0, n as int),
{
    let mut r = String::new();
    let mut i: usize = 0;
    while i < n
        invariant
            n <= v@.len(),
            i <= n,
            r@ == v@.subrange(0, i as int),
        decreases n - i,
    {
        push_char(&mut r, v[i]);
        assert(v@.subrange(0, i as int + 1) =~= v@.subrange(0, i as int).push(v@[i as int]));
        i = i + 1;
    }
    r
}

/// Reads the header block `header` (the bytes before the first empty line).
pub fn parse_head(header: &[u8]) -> (r: Result<RequestHead, HttpError>)
    ensures
        match r {
            Ok(h) => head_of(header@) == Ok::<HeadView, HttpError>(h.view()),
            Err(e) => head_of(header@) == Err::<HeadView, HttpError>(e),
        },
{
    let text = match utf8_text(header) {
        Some(t) => t,
        None => {
            return Err(HttpError::NotUtf8);
        },
    };
    let s = chars_of(text);
    assert(decode_utf8(header@) == s@);
    if s.len() == 0 {
        return Err(HttpError::NoRequestLine);
    }
    let e = index_of_exec(&s, '\n', 0);
    let line = sub_chars(&s, 0, e);
    let a = skip_space_exec(&line, 0);
    let b = token_end_exec(&line, a);
    let c = skip_space_exec(&line, b);
    let d = token_end_exec(&line, c);
    if a >= line.len() {
        return Err(HttpError::NoMethod);
    }
    if c >= line.len() {
        return Err(HttpError::NoPath);
    }
    proof {
        lemma_skip_space(line@, b as int);
        lemma_token_end(line@, c as int + 1);
    }
    let method_token = sub_chars(&line, a, b);
    let path_token = sub_chars(&line, c, d);
    let method = method_exec(&method_token);
    if method.is_none() || path_token[0] != '/' {
        return Err(HttpError::Malformed);
    }
    let length = if e >= s.len() {
        0
    } else {
        match content_length_from_exec(&s, e + 1) {
            Some(v) => v,
            None => 0,
        }
    };
    if length > MAX_REQUEST_BYTES {
        return Err(HttpError::BodyTooLarge);
    }
    let q = index_of_exec(&path_token, '?', 0);
    let path = string_of(&path_token, q);
    let method = match method {
        Some(m) => m,
        None => Method::Get,
    };
    Ok(RequestHead { method, path, content_length: length })
}

/// Appending bytes does not move the first empty line of `old`.
proof fn lemma_header_end_stable(old: Seq<u8>, new: Seq<u8>, k: nat)
    requires
        header_end(old) == Some(k),
        new.len() >= old.len(),
        old == new.take(old.len() as int),
    ensures
        header_end(new) == Some(k),
        new.take(k as int) == old.take(k as int),
{
    lemma_blank_line_from(old, 0);
    assert forall|j: int| 0 <= j < k implies !blank_line_at(new, j) by {
        assert(!blank_line_at(old, j));
        assert(new[j] == old[j] && new[j + 1] == old[j + 1] && new[j + 2] == old[j + 2] && new[j + 3] == old[j + 3]);
    }
    lemma_blank_line_skip(new, 0, k);
    assert(blank_line_at(new, k as int)) by {
        let i = k as int;
        assert(new[i] == old[i] && new[i + 1] == old[i + 1] && new[i + 2] == old[i + 2] && new[i + 3] == old[i + 3]);
    }
    assert(new.take(k as int) =~= old.take(k as int));
}

/// With no empty line in `old`, a search of `new` may start three bytes before its end.
proof fn lemma_header_search_start(old: Seq<u8>, new: Seq<u8>, start: nat)
    requires
        header_end(old) is None,
        new.len() >= old.len(),
        old == new.take(old.len() as int),
        start == (if old.len() >= 3 { old.len() - 3 } else { 0 }),
    ensures
        header_end(new) == blank_line_from(new, start),
{
    lemma_blank_line_from(old, 0);
    assert forall|j: int| 0 <= j < start implies !blank_line_at(new, j) by {
        assert(!blank_line_at(old, j));
        assert(new[j] == old[j] && new[j + 1] == old[j + 1] && new[j + 2] == old[j + 2] && new[j + 3] == old[j + 3]);
    }
    lemma_blank_line_skip(new, 0, start);
}

/// Accumulates the bytes of one request as they arrive.
pub struct RequestReader {
    data: Vec<u8>,
    head: Option<(usize, RequestHead)>,
}

impl RequestReader {
    /// The bytes received so far.
    pub closed spec fn data(&self) -> Seq<u8> {
        self.data@
    }

    /// The reader's record of the header block agrees with the bytes received.
    pub closed spec fn wf(&self) -> bool {
        match self.head {
            None => header_end(self.data@) is None,
            Some((k, h)) => {
                &&& header_end(self.data@) == Some(k as nat)
                &&& head_of(self.data@.take(k as int)) == Ok::<HeadView, HttpError>(h.view())
            },
        }
    }

    pub fn new() -> (r: Self)
        ensures
            r.wf(),
            r.data() == Seq::<u8>::empty(),
    {
        RequestReader { data: Vec::new(), head: None }
    }

    /// Adds the bytes of one read and reports where the request stands.
    pub fn feed(&mut self, chunk: &[u8]) -> (p: ReadProgress)
        requires
            old(self).wf(),
            request_outcome(old(self).data()) is NeedMore,
        ensures
            final(self).data() == old(self).data() + chunk@,
            p.outcome() == request_outcome(final(self).data()),
            p.outcome() is NeedMore ==> final(self).wf(),
    {
        let ghost old_data = self.data@;
        let old_len = self.data.len();
        self.data.extend_from_slice(chunk);
        assert(old_data == self.data@.take(old_len as int));
        if self.data.len() > MAX_REQUEST_BYTES {
            return ReadProgress::Failed(HttpError::TooLarge);
        }
        if self.head.is_none() {
            let start = if old_len >= 3 { old_len - 3 } else { 0 };
            proof {
                lemma_header_search_start(old_data, self.data@, start as nat);
            }
            match find_blank_line_from(self.data.as_slice(), start) {
                None => {
                    return ReadProgress::NeedMore;
                },
                Some(k) => {
                    proof {
                        lemma_blank_line_from(self.data@, start as nat);
                    }
                    let header = vstd::slice::slice_subrange(self.data.as_slice(), 0, k);
                    assert(header@ =~= self.data@.take(k as int));
                    match parse_head(header) {
                        Err(e) => {
                            return ReadProgress::Failed(e);
                        },
                        Ok(h) => {
                            self.head = Some((k, h));
                        },
                    }
                },
            }
        } else {
            proof {
                let pair = self.head->0;
                let k = pair.0;
                lemma_header_end_stable(old_data, self.data@, k as nat);
            }
        }
        let (k, length) = match &self.head {
            Some((k, h)) => (*k, h.content_length),
            None => {
                return ReadProgress::NeedMore;
            },
        };
        proof {
            lemma_blank_line_from(self.data@, 0);
        }
        let body_start = k + 4;
        if self.data.len() - body_start < length {
            return ReadProgress::NeedMore;
        }
        let (method, path) = match &self.head {
            Some((_, h)) => (h.method, h.path.clone()),
            None => {
                return ReadProgress::NeedMore;
            },
        };
        let body = vstd::slice::slice_to_vec(
            vstd::slice::slice_subrange(self.data.as_slice(), body_start, body_start + length),
        );
        ReadProgress::Done(HttpRequest { method, path, body })
    }

    /// The bytes received so far.
    pub fn received(&self) -> (r: &[u8])
        ensures
            r@ == self.data(),
    {
        self.data.as_slice()
    }

    /// Why reading fails when the connection ends now.
    pub fn end_of_stream(&self) -> (e: HttpError)
        requires
            self.wf(),
        ensures
            e == end_of_stream_error(self.data()),
    {
        if self.head.is_some() {
            HttpError::BodyTruncated
        } else if self.data.len() == 0 {
            HttpError::EmptyConnection
        } else {
            HttpError::Truncated
        }
    }
}

/// Reads the characters `t` as `usize::from_str` does.
pub fn parse_usize_text(t: &Vec<char>) -> (r: Option<usize>)
    ensures
        match r {
            Some(v) => parse_usize(t@) == Some(v as nat),
            None => parse_usize(t@) is None,
        },
{
    parse_usize_exec(t)
}

/// The characters `t` without leading and trailing white space.
pub fn trimmed_text(t: &Vec<char>) -> (r: Vec<char>)
    ensures
        r@ == trimmed(t@),
{
    trimmed_exec(t)
}

/// `index_of` finds the first `c` at or after `from`.
proof fn lemma_index_of_first(s: Seq<char>, c: char, from: int)
    requires
        0 <= from <= s.len(),
    ensures
        forall|i: int| from <= i < index_of(s, c, from) ==> s[i] != c,
    decreases s.len() - from,
{
    if from < s.len() && s[from] != c {
        lemma_index_of_first(s, c, from + 1);
    }
}

/// What a complete request is, whatever reads it arrived in: its path starts
/// with `/` and stops before any `?`, and its body is exactly the announced
/// number of bytes after the empty line that ends the headers. An empty
/// connection, one that ends inside the headers, and one that ends inside the
/// body are refused with their own errors, and so is one past 2 MiB.
pub proof fn law_request_shape(d: Seq<u8>)
    ensures
        request_outcome(d) matches ReadOutcome::Complete(r) ==> {
            &&& r.path.len() > 0
            &&& r.path[0] == '/'
            &&& forall|i: int| 0 <= i < r.path.len() ==> r.path[i] != '?'
            &&& header_end(d) matches Some(k) && r.body == d.subrange((k + 4) as int, (k + 4 + r.body.len()) as int)
            &&& r.body.len() <= MAX_REQUEST_BYTES
        },
        d.len() > MAX_REQUEST_BYTES ==> request_outcome(d) == ReadOutcome::Failed(HttpError::TooLarge),
        d.len() == 0 ==> end_of_stream_error(d) == HttpError::EmptyConnection,
        d.len() > 0 && header_end(d) is None ==> end_of_stream_error(d) == HttpError::Truncated,
        header_end(d) is Some ==> end_of_stream_error(d) == HttpError::BodyTruncated,
{
    if d.len() <= MAX_REQUEST_BYTES && header_end(d) is Some {
        let k = header_end(d)->0;
        let h = d.take(k as int);
        if valid_utf8(h) {
            let s = decode_utf8(h);
            if s.len() > 0 {
                let e = index_of(s, '\n', 0);
                lemma_index_of_bounds(s, '\n', 0);
                let line = s.subrange(0, e);
                let a = skip_space(line, 0);
                let b = token_end(line, a);
                let c = skip_space(line, b);
                let dd = token_end(line, c);
                lemma_skip_space(line, 0);
                lemma_token_end(line, a);
                lemma_skip_space(line, b);
                lemma_token_end(line, c);
                if a < line.len() && c < line.len() {
                    lemma_token_end(line, c + 1);
                    assert(dd >= c + 1);
                    let p = line.subrange(c, dd);
                    if p[0] == '/' {
                        lemma_index_of_bounds(p, '?', 0);
                        lemma_index_of_first(p, '?', 0);
                        assert(index_of(p, '?', 0) >= 1);
                    }
                }
            }
        }
    }
}

} // verus!
