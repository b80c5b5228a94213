//! An HTTP response and its rendering.

use vstd::prelude::*;
use vstd::utf8::encode_utf8;
use crate::request::{
    all_entries, assembled, blank_line, body_of, colon_space, content_length_name, content_length_of,
    header_entry, header_lines_of, header_map, lacks, lemma_content_length_first_line, lemma_join_front,
    starts_with,
    lemma_reassembled_request_parses_back, newline, parseable, plain_line, rejected, start_line_of,
    ContentLengthError,
};
use crate::text::{
    after_first, split_once, find_from, first_word, is_whitespace, lemma_find_from_found,
    lemma_skip_word_run, lemma_skip_ws_run, second_word, decimal, first_piece, join, join_strings, lemma_absent_char, lemma_decimal_digits,
    lemma_decimal_parses, lemma_find_from_first, occurs_at, push_decimal, is_digit,
};

verus! {

broadcast use vstd::string::group_string_axioms;

/// The reason phrase of a status code (empty for a code without one).
pub open spec fn status_message(status: u16) -> Seq<char> {
    match status {
        100 => "Continue"@,
        101 => "Switching Protocols"@,
        102 => "Processing"@,
        103 => "Early Hints"@,
        200 => "OK"@,
        201 => "Created"@,
        202 => "Accepted"@,
        203 => "Non-Authoritative Information"@,
        204 => "No Content"@,
        205 => "Reset Content"@,
        206 => "Partial Content"@,
        207 => "Multi-Status"@,
        208 => "Already Reported"@,
        226 => "IM Used"@,
        300 => "Multiple Choices"@,
        301 => "Moved Permanently"@,
        302 => "Found"@,
        303 => "See Other"@,
        304 => "Not Modified"@,
        307 => "Temporary Redirect"@,
        308 => "Permanent Redirect"@,
        400 => "Bad Request"@,
        401 => "Unauthorized"@,
        402 => "Payment Required"@,
        403 => "Forbidden"@,
        404 => "Not Found"@,
        405 => "Method Not Allowed"@,
        406 => "Not Acceptable"@,
        407 => "Proxy Authentication Required"@,
        408 => "Request Timeout"@,
        409 => "Conflict"@,
        410 => "Gone"@,
        411 => "Length Required"@,
        412 => "Precondition Failed"@,
        413 => "Payload Too Large"@,
        414 => "URI Too Long"@,
        415 => "Unsupported Media Type"@,
        416 => "Range Not Satisfiable"@,
        417 => "Expectation Failed"@,
        418 => "I'm a teapot"@,
        421 => "Misdirected Request"@,
        422 => "Unprocessable Content"@,
        423 => "Locked"@,
        424 => "Failed Dependency"@,
        425 => "Too Early"@,
        426 => "Upgrade Required"@,
        428 => "Precondition Required"@,
        429 => "Too Many Requests"@,
        431 => "Request Header Fields Too Large"@,
        451 => "Unavailable For Legal Reasons"@,
        500 => "Internal Server Error"@,
        501 => "Not Implemented"@,
        502 => "Bad Gateway"@,
        503 => "Service Unavailable"@,
        504 => "Gateway Timeout"@,
        505 => "HTTP Version Not Supported"@,
        506 => "Variant Also Negotiates"@,
        507 => "Insufficient Storage"@,
        508 => "Loop Detected"@,
        510 => "Not Extended"@,
        511 => "Network Authentication Required"@,
        _ => Seq::empty(),
    }
}

/// The length in bytes of the UTF-8 encoding of `s`, as `str::len` gives it.
pub open spec fn byte_len(s: Seq<char>) -> usize {
    encode_utf8(s).len() as usize
}

/// The status line of a response, without its line end.
pub open spec fn status_line(status: u16) -> Seq<char> {
    "HTTP/1.1 "@ + decimal(status as nat) + " "@ + status_message(status)
}

/// The header lines of a response, each ended by a line end.
pub open spec fn header_block(headers: Seq<Seq<char>>) -> Seq<char> {
    if headers.len() == 0 {
        Seq::empty()
    } else {
        join(headers, "\n"@) + "\n"@
    }
}

/// The `Content-Length` line of a body, without its line end.
pub open spec fn content_length_line(body: Seq<char>) -> Seq<char> {
    "Content-Length: "@ + decimal(byte_len(body) as nat)
}

/// The text of a response: the status line, the headers, a
/// `Content-Length` header that gives the byte length of the body, a blank
/// line and the body.
pub open spec fn rendered(status: u16, headers: Seq<Seq<char>>, body: Seq<char>) -> Seq<char> {
    status_line(status) + "\n"@ + header_block(headers) + content_length_line(body) + "\n\n"@
        + body
}

/// The views of a list of strings.
pub open spec fn string_views(v: Seq<String>) -> Seq<Seq<char>> {
    v.map_values(|s: String| s@)
}

/// An HTTP response.
pub struct Response {
    pub status: u16,
    pub headers: Vec<String>,
    pub body: String,
}

impl Response {
    /// A response with status 200, no headers and an empty body.
    pub fn new() -> (r: Response)
        ensures
            r.status == 200,
            r.headers@.len() == 0,
            r.body@ == Seq::<char>::empty(),
    {
        Response { status: 200, headers: Vec::new(), body: String::new() }
    }

    /// The reason phrase of the response's status.
    pub fn get_status_msg(&self) -> (r: String)
        ensures
            r@ == status_message(self.status),
    {
        let msg: &str = match self.status {
            100 => "Continue",
            101 => "Switching Protocols",
            102 => "Processing",
            103 => "Early Hints",
            200 => "OK",
            201 => "Created",
            202 => "Accepted",
            203 => "Non-Authoritative Information",
            204 => "No Content",
            205 => "Reset Content",
            206 => "Partial Content",
            207 => "Multi-Status",
            208 => "Already Reported",
            226 => "IM Used",
            300 => "Multiple Choices",
            301 => "Moved Permanently",
            302 => "Found",
            303 => "See Other",
            304 => "Not Modified",
            307 => "Temporary Redirect",
            308 => "Permanent Redirect",
            400 => "Bad Request",
            401 => "Unauthorized",
            402 => "Payment Required",
            403 => "Forbidden",
            404 => "Not Found",
            405 => "Method Not Allowed",
            406 => "Not Acceptable",
            407 => "Proxy Authentication Required",
            408 => "Request Timeout",
            409 => "Conflict",
            410 => "Gone",
            411 => "Length Required",
            412 => "Precondition Failed",
            413 => "Payload Too Large",
            414 => "URI Too Long",
            415 => "Unsupported Media Type",
            416 => "Range Not Satisfiable",
            417 => "Expectation Failed",
            418 => "I'm a teapot",
            421 => "Misdirected Request",
            422 => "Unprocessable Content",
            423 => "Locked",
            424 => "Failed Dependency",
            425 => "Too Early",
            426 => "Upgrade Required",
            428 => "Precondition Required",
            429 => "Too Many Requests",
            431 => "Request Header Fields Too Large",
            451 => "Unavailable For Legal Reasons",
            500 => "Internal Server Error",
            501 => "Not Implemented",
            502 => "Bad Gateway",
            503 => "Service Unavailable",
            504 => "Gateway Timeout",
            505 => "HTTP Version Not Supported",
            506 => "Variant Also Negotiates",
            507 => "Insufficient Storage",
            508 => "Loop Detected",
            510 => "Not Extended",
            511 => "Network Authentication Required",
            _ => "",
        };
        proof {
            reveal_strlit("");
        }
        String::from_str(msg)
    }

    /// The text of the response, as it is sent.
    pub fn render(&self) -> (r: String)
        ensures
            r@ == rendered(self.status, string_views(self.headers@), self.body@),
    {
        let mut out = String::from_str("HTTP/1.1 ");
        push_decimal(&mut out, self.status as u64);
        out.append(" ");
        let msg = self.get_status_msg();
        out.append(msg.as_str());
        out.append("\n");
        if self.headers.len() > 0 {
            let joined = join_strings(&self.headers, "\n");
            out.append(joined.as_str());
            out.append("\n");
        }
        out.append("Content-Length: ");
        let n = self.body.as_str().len();
        push_decimal(&mut out, n as u64);
        out.append("\n\n");
        out.append(self.body.as_str());
        out
    }
}

/// The `Content-Length` line of a body splits at its first `": "` into the
/// header's name and the decimal byte length of the body.
pub proof fn lemma_content_length_line_entry(body: Seq<char>)
    ensures
        split_once(content_length_line(body), colon_space()) == Some(
            (content_length_name(), decimal(byte_len(body) as nat)),
        ),
        after_first(content_length_line(body), colon_space()) == Some(decimal(byte_len(body) as nat)),
        forall|i: int| 0 <= i < content_length_line(body).len() ==> content_length_line(body)[i] != '\n'
            && content_length_line(body)[i] != '\r',
        content_length_line(body).len() > 16,
{
    reveal_strlit("Content-Length: ");
    let n = byte_len(body);
    let d = decimal(n as nat);
    let line = content_length_line(body);
    let prefix = "Content-Length: "@;
    lemma_decimal_digits(n as nat);
    assert(line == prefix + d);
    assert forall|j: int| 0 <= j < 14 implies !occurs_at(line, colon_space(), j) by {
        assert(line[j] == prefix[j]);
        assert(line.subrange(j, j + 2)[0] == line[j]);
    }
    assert(line.subrange(14, 16) =~= colon_space());
    lemma_find_from_first(line, colon_space(), 0, 14);
    assert(line.take(14) =~= content_length_name());
    assert(line.skip(16) =~= d);
    assert forall|i: int| 0 <= i < line.len() implies line[i] != '\n' && line[i] != '\r' by {
        if i >= 16 {
            assert(line[i] == d[i - 16]);
            assert(is_digit(d[i - 16]));
        } else {
            assert(line[i] == prefix[i]);
        }
    }
}

/// Reading back the `Content-Length` line that `render` writes, as the
/// server reads a request's head, gives the byte length of the body.
pub proof fn lemma_content_length_read_back(body: Seq<char>)
    ensures
        content_length_of(seq![content_length_line(body)]) == Ok::<usize, ContentLengthError>(
            byte_len(body),
        ),
{
    let n = byte_len(body);
    let d = decimal(n as nat);
    let line = content_length_line(body);
    let lines = seq![line];
    lemma_content_length_line_entry(body);
    reveal_strlit("Content-Length: ");
    assert(line == "Content-Length: "@ + d);
    assert(line.take(14) =~= content_length_name());
    assert(lines[0] == line);
    assert(crate::request::first_with_prefix(lines, content_length_name(), 0) == Some(0nat));
    lemma_decimal_digits(n as nat);
    assert forall|i: int| 0 <= i < d.len() implies d[i] != colon_space()[0] by {
        assert(is_digit(d[i]));
    }
    lemma_absent_char(d, colon_space());
    assert(first_piece(d, colon_space()) == d);
    lemma_decimal_parses(n);
}

/// The `Content-Length` line that `render` writes is read back as the byte
/// length of the body after any head lines that do not start with
/// `Content-Length`.
pub proof fn lemma_content_length_read_after(pre: Seq<Seq<char>>, body: Seq<char>)
    requires
        forall|j: int| 0 <= j < pre.len() ==> !starts_with(pre[j], content_length_name()),
    ensures
        content_length_of(pre.push(content_length_line(body))) == Ok::<usize, ContentLengthError>(
            byte_len(body),
        ),
{
    let cl = content_length_line(body);
    let lines = pre.push(cl);
    reveal_strlit("Content-Length: ");
    lemma_decimal_digits(byte_len(body) as nat);
    assert(cl == "Content-Length: "@ + decimal(byte_len(body) as nat));
    assert(cl.take(14) =~= content_length_name());
    assert(lines[pre.len() as int] == cl);
    assert forall|j: int| 0 <= j < pre.len() implies !starts_with(lines[j], content_length_name()) by {
        assert(lines[j] == pre[j]);
    }
    lemma_content_length_first_line(lines, pre.len() as int);
    lemma_content_length_read_back(body);
}

/// The reason phrases of the listed statuses, as HTTP names them.
pub proof fn lemma_status_phrase_table()
    ensures
        status_message(100) == "Continue"@,
        status_message(101) == "Switching Protocols"@,
        status_message(102) == "Processing"@,
        status_message(103) == "Early Hints"@,
        status_message(200) == "OK"@,
        status_message(201) == "Created"@,
        status_message(202) == "Accepted"@,
        status_message(203) == "Non-Authoritative Information"@,
        status_message(204) == "No Content"@,
        status_message(205) == "Reset Content"@,
        status_message(206) == "Partial Content"@,
        status_message(207) == "Multi-Status"@,
        status_message(208) == "Already Reported"@,
        status_message(226) == "IM Used"@,
        status_message(300) == "Multiple Choices"@,
        status_message(301) == "Moved Permanently"@,
        status_message(302) == "Found"@,
        status_message(303) == "See Other"@,
        status_message(304) == "Not Modified"@,
        status_message(307) == "Temporary Redirect"@,
        status_message(308) == "Permanent Redirect"@,
        status_message(400) == "Bad Request"@,
        status_message(401) == "Unauthorized"@,
        status_message(402) == "Payment Required"@,
        status_message(403) == "Forbidden"@,
        status_message(404) == "Not Found"@,
        status_message(405) == "Method Not Allowed"@,
        status_message(406) == "Not Acceptable"@,
        status_message(407) == "Proxy Authentication Required"@,
        status_message(408) == "Request Timeout"@,
        status_message(409) == "Conflict"@,
        status_message(410) == "Gone"@,
        status_message(411) == "Length Required"@,
        status_message(412) == "Precondition Failed"@,
        status_message(413) == "Payload Too Large"@,
        status_message(414) == "URI Too Long"@,
        status_message(415) == "Unsupported Media Type"@,
        status_message(416) == "Range Not Satisfiable"@,
        status_message(417) == "Expectation Failed"@,
        status_message(418) == "I'm a teapot"@,
        status_message(421) == "Misdirected Request"@,
        status_message(422) == "Unprocessable Content"@,
        status_message(423) == "Locked"@,
        status_message(424) == "Failed Dependency"@,
        status_message(425) == "Too Early"@,
        status_message(426) == "Upgrade Required"@,
        status_message(428) == "Precondition Required"@,
        status_message(429) == "Too Many Requests"@,
        status_message(431) == "Request Header Fields Too Large"@,
        status_message(451) == "Unavailable For Legal Reasons"@,
        status_message(500) == "Internal Server Error"@,
        status_message(501) == "Not Implemented"@,
        status_message(502) == "Bad Gateway"@,
        status_message(503) == "Service Unavailable"@,
        status_message(504) == "Gateway Timeout"@,
        status_message(505) == "HTTP Version Not Supported"@,
        status_message(506) == "Variant Also Negotiates"@,
        status_message(507) == "Insufficient Storage"@,
        status_message(508) == "Loop Detected"@,
        status_message(510) == "Not Extended"@,
        status_message(511) == "Network Authentication Required"@,
        status_message(0) == Seq::<char>::empty(),
        status_message(299) == Seq::<char>::empty(),
{
}

/// The status whose reason phrase `s` is, told apart by its length and a
/// few of its characters.
spec fn status_of_message(s: Seq<char>) -> u16 {
    if s.len() == 8 && s[0] == 'C' && s[7] == 'e' {
        100
    } else if s.len() == 19 && s[0] == 'S' && s[18] == 's' {
        101
    } else if s.len() == 10 && s[0] == 'P' && s[9] == 'g' {
        102
    } else if s.len() == 11 && s[0] == 'E' && s[10] == 's' {
        103
    } else if s.len() == 2 && s[0] == 'O' && s[1] == 'K' {
        200
    } else if s.len() == 7 && s[0] == 'C' && s[6] == 'd' {
        201
    } else if s.len() == 8 && s[0] == 'A' && s[7] == 'd' {
        202
    } else if s.len() == 29 && s[0] == 'N' && s[28] == 'n' {
        203
    } else if s.len() == 10 && s[0] == 'N' && s[9] == 't' {
        204
    } else if s.len() == 13 && s[0] == 'R' && s[12] == 't' {
        205
    } else if s.len() == 15 && s[0] == 'P' && s[14] == 't' {
        206
    } else if s.len() == 12 && s[0] == 'M' && s[11] == 's' {
        207
    } else if s.len() == 16 && s[0] == 'A' && s[15] == 'd' {
        208
    } else if s.len() == 7 && s[0] == 'I' && s[6] == 'd' {
        226
    } else if s.len() == 16 && s[0] == 'M' && s[15] == 's' {
        300
    } else if s.len() == 17 && s[0] == 'M' && s[16] == 'y' {
        301
    } else if s.len() == 5 && s[0] == 'F' && s[4] == 'd' {
        302
    } else if s.len() == 9 && s[0] == 'S' && s[8] == 'r' {
        303
    } else if s.len() == 12 && s[0] == 'N' && s[11] == 'd' && s[4] == 'M' {
        304
    } else if s.len() == 18 && s[0] == 'T' && s[17] == 't' {
        307
    } else if s.len() == 18 && s[0] == 'P' && s[17] == 't' {
        308
    } else if s.len() == 11 && s[0] == 'B' && s[10] == 't' {
        400
    } else if s.len() == 12 && s[0] == 'U' && s[11] == 'd' {
        401
    } else if s.len() == 16 && s[0] == 'P' && s[15] == 'd' {
        402
    } else if s.len() == 9 && s[0] == 'F' && s[8] == 'n' {
        403
    } else if s.len() == 9 && s[0] == 'N' && s[8] == 'd' {
        404
    } else if s.len() == 18 && s[0] == 'M' && s[17] == 'd' {
        405
    } else if s.len() == 14 && s[0] == 'N' && s[13] == 'e' {
        406
    } else if s.len() == 29 && s[0] == 'P' && s[28] == 'd' {
        407
    } else if s.len() == 15 && s[0] == 'R' && s[14] == 't' {
        408
    } else if s.len() == 8 && s[0] == 'C' && s[7] == 't' {
        409
    } else if s.len() == 4 && s[0] == 'G' && s[3] == 'e' {
        410
    } else if s.len() == 15 && s[0] == 'L' && s[14] == 'd' {
        411
    } else if s.len() == 19 && s[0] == 'P' && s[18] == 'd' {
        412
    } else if s.len() == 17 && s[0] == 'P' && s[16] == 'e' {
        413
    } else if s.len() == 12 && s[0] == 'U' && s[11] == 'g' {
        414
    } else if s.len() == 22 && s[0] == 'U' && s[21] == 'e' {
        415
    } else if s.len() == 21 && s[0] == 'R' && s[20] == 'e' {
        416
    } else if s.len() == 18 && s[0] == 'E' && s[17] == 'd' {
        417
    } else if s.len() == 12 && s[0] == 'I' && s[11] == 't' {
        418
    } else if s.len() == 19 && s[0] == 'M' && s[18] == 't' {
        421
    } else if s.len() == 21 && s[0] == 'U' && s[20] == 't' {
        422
    } else if s.len() == 6 && s[0] == 'L' && s[5] == 'd' {
        423
    } else if s.len() == 17 && s[0] == 'F' && s[16] == 'y' {
        424
    } else if s.len() == 9 && s[0] == 'T' && s[8] == 'y' {
        425
    } else if s.len() == 16 && s[0] == 'U' && s[15] == 'd' {
        426
    } else if s.len() == 21 && s[0] == 'P' && s[20] == 'd' {
        428
    } else if s.len() == 17 && s[0] == 'T' && s[16] == 's' {
        429
    } else if s.len() == 31 && s[0] == 'R' && s[30] == 'e' {
        431
    } else if s.len() == 29 && s[0] == 'U' && s[28] == 's' {
        451
    } else if s.len() == 21 && s[0] == 'I' && s[20] == 'r' {
        500
    } else if s.len() == 15 && s[0] == 'N' && s[14] == 'd' {
        501
    } else if s.len() == 11 && s[0] == 'B' && s[10] == 'y' {
        502
    } else if s.len() == 19 && s[0] == 'S' && s[18] == 'e' {
        503
    } else if s.len() == 15 && s[0] == 'G' && s[14] == 't' {
        504
    } else if s.len() == 26 && s[0] == 'H' && s[25] == 'd' {
        505
    } else if s.len() == 23 && s[0] == 'V' && s[22] == 's' {
        506
    } else if s.len() == 20 && s[0] == 'I' && s[19] == 'e' {
        507
    } else if s.len() == 13 && s[0] == 'L' && s[12] == 'd' {
        508
    } else if s.len() == 12 && s[0] == 'N' && s[11] == 'd' && s[4] == 'E' {
        510
    } else if s.len() == 31 && s[0] == 'N' && s[30] == 'd' {
        511
    } else {
        0
    }
}

/// What each reason phrase is: it holds no line end or carriage return, and
/// a non-empty one names its status.
proof fn lemma_status_phrase(status: u16)
    ensures
        forall|i: int| 0 <= i < status_message(status).len() ==> status_message(status)[i] != '\n'
            && status_message(status)[i] != '\r',
        status_message(status).len() > 0 ==> status_of_message(status_message(status)) == status,
{
    reveal_strlit("Continue");
    reveal_strlit("Switching Protocols");
    reveal_strlit("Processing");
    reveal_strlit("Early Hints");
    reveal_strlit("OK");
    reveal_strlit("Created");
    reveal_strlit("Accepted");
    reveal_strlit("Non-Authoritative Information");
    reveal_strlit("No Content");
    reveal_strlit("Reset Content");
    reveal_strlit("Partial Content");
    reveal_strlit("Multi-Status");
    reveal_strlit("Already Reported");
    reveal_strlit("IM Used");
    reveal_strlit("Multiple Choices");
    reveal_strlit("Moved Permanently");
    reveal_strlit("Found");
    reveal_strlit("See Other");
    reveal_strlit("Not Modified");
    reveal_strlit("Temporary Redirect");
    reveal_strlit("Permanent Redirect");
    reveal_strlit("Bad Request");
    reveal_strlit("Unauthorized");
    reveal_strlit("Payment Required");
    reveal_strlit("Forbidden");
    reveal_strlit("Not Found");
    reveal_strlit("Method Not Allowed");
    reveal_strlit("Not Acceptable");
    reveal_strlit("Proxy Authentication Required");
    reveal_strlit("Request Timeout");
    reveal_strlit("Conflict");
    reveal_strlit("Gone");
    reveal_strlit("Length Required");
    reveal_strlit("Precondition Failed");
    reveal_strlit("Payload Too Large");
    reveal_strlit("URI Too Long");
    reveal_strlit("Unsupported Media Type");
    reveal_strlit("Range Not Satisfiable");
    reveal_strlit("Expectation Failed");
    reveal_strlit("I'm a teapot");
    reveal_strlit("Misdirected Request");
    reveal_strlit("Unprocessable Content");
    reveal_strlit("Locked");
    reveal_strlit("Failed Dependency");
    reveal_strlit("Too Early");
    reveal_strlit("Upgrade Required");
    reveal_strlit("Precondition Required");
    reveal_strlit("Too Many Requests");
    reveal_strlit("Request Header Fields Too Large");
    reveal_strlit("Unavailable For Legal Reasons");
    reveal_strlit("Internal Server Error");
    reveal_strlit("Not Implemented");
    reveal_strlit("Bad Gateway");
    reveal_strlit("Service Unavailable");
    reveal_strlit("Gateway Timeout");
    reveal_strlit("HTTP Version Not Supported");
    reveal_strlit("Variant Also Negotiates");
    reveal_strlit("Insufficient Storage");
    reveal_strlit("Loop Detected");
    reveal_strlit("Not Extended");
    reveal_strlit("Network Authentication Required");
}

/// No reason phrase holds a line end or a carriage return.
pub proof fn lemma_status_message_plain(status: u16)
    ensures
        forall|i: int| 0 <= i < status_message(status).len() ==> status_message(status)[i] != '\n'
            && status_message(status)[i] != '\r',
{
    lemma_status_phrase(status);
}

/// The reason phrase depends on the status alone, and no two statuses share
/// a phrase unless it is empty.
pub proof fn lemma_status_messages_distinct(a: u16, b: u16)
    ensures
        (status_message(a) == status_message(b)) <==> (a == b || (status_message(a)
            == Seq::<char>::empty() && status_message(b) == Seq::<char>::empty())),
{
    if status_message(a) == status_message(b) && a != b {
        if status_message(a).len() > 0 {
            lemma_status_phrase(a);
            lemma_status_phrase(b);
        } else {
            assert(status_message(a) =~= Seq::<char>::empty());
        }
    }
}

/// Joining a first line, some middle lines and a last line by line ends.
proof fn lemma_join_three(x: Seq<char>, hs: Seq<Seq<char>>, y: Seq<char>)
    ensures
        join(seq![x] + hs + seq![y], newline()) == x + newline() + header_block_nl(hs) + y,
{
    let l = seq![x] + hs + seq![y];
    let init = seq![x] + hs;
    assert(l.drop_last() =~= init);
    assert(l.last() == y);
    if hs.len() == 0 {
        assert(init =~= seq![x]);
        assert(join(init, newline()) == x);
    } else {
        lemma_join_front(init, newline());
        assert(init.drop_first() =~= hs);
        assert(init[0] == x);
    }
    assert(join(l, newline()) == join(init, newline()) + newline() + y);
    assert(join(l, newline()) =~= x + newline() + header_block_nl(hs) + y);
}

/// The header block, with the line end written as `newline()`.
spec fn header_block_nl(hs: Seq<Seq<char>>) -> Seq<char> {
    if hs.len() == 0 {
        Seq::empty()
    } else {
        join(hs, newline()) + newline()
    }
}

/// Parsing a rendered response as a request gives back what was rendered:
/// the words of the status line (`HTTP/1.1` and the status), the headers in
/// order followed by `Content-Length` with the byte length of the body, and
/// the body, when the headers hold a `": "` and no line end or carriage
/// return and the body holds neither a carriage return nor a blank line.
pub proof fn lemma_rendered_response_parses(status: u16, headers: Seq<Seq<char>>, body: Seq<char>)
    requires
        forall|i: int| 0 <= i < headers.len() ==> (#[trigger] header_entry(headers[i])) is Some
            && lacks(headers[i], '\n') && lacks(headers[i], '\r'),
        lacks(body, '\r'),
        find_from(body, blank_line(), 0) is None,
    ensures
        ({
            let raw = rendered(status, headers, body);
            &&& parseable(raw)
            &&& !rejected(raw)
            &&& first_word(start_line_of(raw)) == "HTTP/1.1"@
            &&& second_word(start_line_of(raw)) == decimal(status as nat)
            &&& header_lines_of(raw) == headers.push(content_length_line(body))
            &&& header_map(header_lines_of(raw)) == header_map(headers).insert(
                content_length_name(),
                decimal(byte_len(body) as nat),
            )
            &&& body_of(raw) == body
        }),
{
    reveal_strlit("HTTP/1.1 ");
    reveal_strlit("HTTP/1.1");
    reveal_strlit(" ");
    reveal_strlit("\n");
    reveal_strlit("\n\n");
    let sl = status_line(status);
    let cl = content_length_line(body);
    let d = decimal(status as nat);
    let m = status_message(status);
    let p = "HTTP/1.1 "@;
    let lines = seq![sl] + headers + seq![cl];
    let raw = rendered(status, headers, body);
    lemma_decimal_digits(status as nat);
    lemma_status_message_plain(status);
    lemma_content_length_line_entry(body);
    // The status line, character by character.
    assert(sl == p + d + " "@ + m);
    assert forall|k: int| 0 <= k < sl.len() implies sl[k] != '\n' && sl[k] != '\r' by {
        if k < 9 {
            assert(sl[k] == p[k]);
        } else if k < 9 + d.len() {
            assert(sl[k] == d[k - 9]);
            assert(is_digit(d[k - 9]));
        } else if k == 9 + d.len() {
        } else {
            assert(sl[k] == m[k - 10 - d.len()]);
        }
    }
    // Every line is plain.
    assert forall|i: int| 0 <= i < lines.len() implies plain_line(#[trigger] lines[i]) by {
        if i == 0 {
            assert(lines[i] == sl);
        } else if i <= headers.len() {
            assert(lines[i] == headers[i - 1]);
            assert(header_entry(headers[i - 1]) is Some);
            lemma_find_from_found(headers[i - 1], colon_space(), 0);
        } else {
            assert(lines[i] == cl);
        }
    }
    // The rendered text is the reassembled request of these lines.
    lemma_join_three(sl, headers, cl);
    assert("\n"@ =~= newline());
    assert("\n\n"@ =~= blank_line());
    assert(header_block(headers) == header_block_nl(headers));
    assert(raw =~= assembled(lines, body));
    lemma_reassembled_request_parses_back(lines, body);
    assert(lines.drop_first() =~= headers.push(cl));
    assert(lines[0] == sl);
    // Every header line holds a `": "`.
    let hl = headers.push(cl);
    assert forall|i: int| 0 <= i < hl.len() implies (#[trigger] header_entry(hl[i])) is Some by {
        if i < headers.len() {
            assert(hl[i] == headers[i]);
        } else {
            assert(hl[i] == cl);
        }
    }
    assert(all_entries(hl));
    assert(hl.drop_last() =~= headers);
    assert(hl.last() == cl);
    // The words of the status line.
    assert(!is_whitespace(sl[0]));
    lemma_skip_ws_run(sl, 0, 0);
    assert forall|k: int| 0 <= k < 8 implies !is_whitespace(#[trigger] sl[k]) by {
        assert(sl[k] == p[k]);
    }
    assert(sl[8] == ' ');
    lemma_skip_word_run(sl, 0, 8);
    assert(sl.subrange(0, 8) =~= "HTTP/1.1"@);
    assert(sl[9] == d[0]);
    assert(is_digit(d[0]));
    lemma_skip_ws_run(sl, 8, 9);
    assert forall|k: int| 9 <= k < 9 + d.len() implies !is_whitespace(#[trigger] sl[k]) by {
        assert(sl[k] == d[k - 9]);
        assert(is_digit(d[k - 9]));
    }
    assert(sl[9 + d.len() as int] == ' ');
    lemma_skip_word_run(sl, 9, (9 + d.len()) as nat);
    assert(sl.subrange(9, 9 + d.len() as int) =~= d);
}

} // verus!
