//! Parsing of a raw HTTP request.

use vstd::prelude::*;
use crate::headers::Headers;
use crate::text::{
    after_first, find_from, lemma_absent_char, lemma_find_from_first, occurs_at, join, join_strings, occurs_at_exec, parse_usize, parse_usize_exec, trim,
    trim_chars, chars_to_string, find_from_exec, first_piece, first_word, lemma_find_from_found,
    lemma_split_first, remove_carriage_returns, second_word, skip_word_exec, skip_ws_exec,
    split_once, split_pieces, string_to_chars, sub_chars, without_cr,
};

verus! {

broadcast use vstd::string::group_string_axioms;

// ----- specification --------------------------------------------------------

/// The blank line that ends the head of a request.
pub open spec fn blank_line() -> Seq<char> {
    seq!['\n', '\n']
}

/// The end of a line.
pub open spec fn newline() -> Seq<char> {
    seq!['\n']
}

/// What separates a header's name from its value.
pub open spec fn colon_space() -> Seq<char> {
    seq![':', ' ']
}

/// The head of a raw request: what precedes the first blank line once the
/// carriage returns are gone.
pub open spec fn head_of(raw: Seq<char>) -> Seq<char> {
    first_piece(without_cr(raw), blank_line())
}

/// The body of a raw request: the text between the first and the second
/// blank line (or the end), empty when there is no blank line.
pub open spec fn body_of(raw: Seq<char>) -> Seq<char> {
    match after_first(without_cr(raw), blank_line()) {
        Some(rest) => first_piece(rest, blank_line()),
        None => Seq::empty(),
    }
}

/// The lines of the head.
pub open spec fn lines_of(raw: Seq<char>) -> Seq<Seq<char>> {
    split_pieces(head_of(raw), newline())
}

/// The start line: the first line of the head.
pub open spec fn start_line_of(raw: Seq<char>) -> Seq<char> {
    first_piece(head_of(raw), newline())
}

/// The header lines: the lines of the head after the start line.
pub open spec fn header_lines_of(raw: Seq<char>) -> Seq<Seq<char>> {
    lines_of(raw).drop_first()
}

/// A header line cut at its first `": "` into name and value.
pub open spec fn header_entry(line: Seq<char>) -> Option<(Seq<char>, Seq<char>)> {
    split_once(line, colon_space())
}

/// Every line holds a `": "`.
pub open spec fn all_entries(lines: Seq<Seq<char>>) -> bool {
    forall|i: int| 0 <= i < lines.len() ==> (#[trigger] header_entry(lines[i])) is Some
}

/// The headers that the lines give, a later line replacing the value of an
/// earlier line of the same name.
pub open spec fn header_map(lines: Seq<Seq<char>>) -> Map<Seq<char>, Seq<char>>
    decreases lines.len(),
{
    if lines.len() == 0 {
        Map::empty()
    } else {
        match header_entry(lines.last()) {
            Some((name, value)) => header_map(lines.drop_last()).insert(name, value),
            None => header_map(lines.drop_last()),
        }
    }
}

/// A raw request is refused (with status 400) when one of its header lines
/// holds no `": "`.
pub open spec fn rejected(raw: Seq<char>) -> bool {
    !all_entries(header_lines_of(raw))
}

/// The start line holds a method and a URL.
pub open spec fn start_line_complete(raw: Seq<char>) -> bool {
    first_word(start_line_of(raw)).len() > 0 && second_word(start_line_of(raw)).len() > 0
}

/// The raw requests that are either refused or hold a method and a URL.
pub open spec fn parseable(raw: Seq<char>) -> bool {
    rejected(raw) || start_line_complete(raw)
}

/// A request as it was received.
#[derive(Debug, Clone)]
pub struct Request {
    pub method: String,
    pub url: String,
    pub headers: Headers,
    pub body: String,
    /// The current status of the request; it may change as the request is
    /// processed.
    pub status: u16,
}

// ----- executable -----------------------------------------------------------

/// The head (as characters) and the body of a raw request.
fn split_head_body(raw: &str) -> (r: (Vec<char>, String))
    ensures
        r.0@ == head_of(raw@),
        r.1@ == body_of(raw@),
{
    let chars = string_to_chars(raw);
    let clean = remove_carriage_returns(&chars);
    let blank = vec!['\n', '\n'];
    assert(blank@ =~= blank_line());
    assert(blank@.len() == 2);
    match find_from_exec(&clean, &blank, 0) {
        None => {
            let body = String::new();
            (clean, body)
        },
        Some(i) => {
            proof {
                lemma_find_from_found(clean@, blank@, 0);
                assert(find_from(clean@, blank@, 0) == Some(i as nat));
                assert(i + blank@.len() <= clean@.len());
                assert(blank@.len() == 2);
            }
            assert(i + 2 <= clean.len());
            let rest = sub_chars(&clean, i + 2, clean.len());
            assert(rest@ =~= clean@.skip(i + 2));
            let body = match find_from_exec(&rest, &blank, 0) {
                Some(j) => {
                    proof {
                        lemma_find_from_found(rest@, blank@, 0);
                    }
                    chars_to_string(&rest, 0, j)
                },
                None => chars_to_string(&rest, 0, rest.len()),
            };
            assert(rest@.subrange(0, rest@.len() as int) =~= rest@);
            assert(rest@.subrange(0, body@.len() as int) =~= rest@.take(body@.len() as int));
            let head = sub_chars(&clean, 0, i);
            assert(head@ =~= clean@.take(i as int));
            (head, body)
        },
    }
}

/// The start line of `head`, and the header map when every header line of
/// `head` holds a `": "`.
fn parse_head(head: &Vec<char>, Ghost(raw): Ghost<Seq<char>>) -> (r: (Vec<char>, Option<Headers>))
    requires
        head@ == head_of(raw),
    ensures
        r.0@ == start_line_of(raw),
        match r.1 {
            Some(h) => !rejected(raw) && h@ == header_map(header_lines_of(raw)),
            None => rejected(raw),
        },
{
    let nl = vec!['\n'];
    assert(nl@ =~= newline());
    assert(nl@.len() == 1);
    proof {
        lemma_split_first(head@, newline());
    }
    let (start, mut rest, mut more) = match find_from_exec(head, &nl, 0) {
        Some(j) => {
            proof {
                lemma_find_from_found(head@, newline(), 0);
            }
            let start = sub_chars(head, 0, j);
            let rest = sub_chars(head, j + 1, head.len());
            assert(start@ =~= head@.take(j as int));
            assert(rest@ =~= head@.skip(j + 1));
            (start, rest, true)
        },
        None => (sub_chars(head, 0, head.len()), Vec::new(), false),
    };
    assert(head@.subrange(0, head@.len() as int) =~= head@);
    let mut headers = Headers::new();
    let ghost mut done: Seq<Seq<char>> = Seq::empty();
    while more
        invariant
            more ==> header_lines_of(raw) == done + split_pieces(rest@, newline()),
            !more ==> header_lines_of(raw) == done,
            all_entries(done),
            headers@ == header_map(done),
            nl@ == newline(),
            nl@.len() == 1,
            start@ == start_line_of(raw),
        decreases (if more { rest@.len() + 1 } else { 0 }),
    {
        proof {
            lemma_split_first(rest@, newline());
        }
        let ghost pieces = split_pieces(rest@, newline());
        let (line, next, found) = match find_from_exec(&rest, &nl, 0) {
            Some(j) => {
                proof {
                    lemma_find_from_found(rest@, newline(), 0);
                }
                let line = sub_chars(&rest, 0, j);
                let next = sub_chars(&rest, j + 1, rest.len());
                assert(line@ =~= rest@.take(j as int));
                assert(next@ =~= rest@.skip(j + 1));
                (line, next, true)
            },
            None => {
                let line = sub_chars(&rest, 0, rest.len());
                assert(line@ =~= rest@);
                (line, Vec::new(), false)
            },
        };
        assert(line@ == pieces[0]);
        let sep = vec![':', ' '];
        assert(sep@ =~= colon_space());
        match find_from_exec(&line, &sep, 0) {
            None => {
                proof {
                    let hl = header_lines_of(raw);
                    assert(hl[done.len() as int] == line@);
                    assert(header_entry(hl[done.len() as int]) is None);
                }
                return (start, None);
            },
            Some(k) => {
                proof {
                    lemma_find_from_found(line@, colon_space(), 0);
                    assert(sep@.len() == 2);
                }
                assert(k + 2 <= line.len());
                let name = chars_to_string(&line, 0, k);
                let value = chars_to_string(&line, k + 2, line.len());
                assert(name@ =~= line@.take(k as int));
                assert(value@ =~= line@.skip(k + 2));
                headers.insert(name, value);
                proof {
                    let nd = done.push(line@);
                    assert(nd.drop_last() =~= done);
                    assert(nd.last() == line@);
                    assert(all_entries(nd)) by {
                        assert forall|i: int| 0 <= i < nd.len() implies (#[trigger] header_entry(
                            nd[i],
                        )) is Some by {
                            if i < done.len() {
                                assert(nd[i] == done[i]);
                            }
                        }
                    }
                    if found {
                        assert(pieces.drop_first() == split_pieces(next@, newline()));
                        assert(done + pieces =~= nd + split_pieces(next@, newline()));
                    } else {
                        assert(pieces =~= seq![line@]);
                        assert(done + pieces =~= nd);
                    }
                    done = nd;
                }
            },
        }
        rest = next;
        more = found;
    }
    (start, Some(headers))
}

impl Request {
    /// Whether `raw` can be handed to `Request::from`: either one of its
    /// header lines holds no `": "` or its start line holds a method and a
    /// URL.
    pub fn can_parse(raw: &str) -> (b: bool)
        ensures
            b == parseable(raw@),
    {
        let (head, _body) = split_head_body(raw);
        let (start, headers) = parse_head(&head, Ghost(raw@));
        match headers {
            None => true,
            Some(_) => {
                let a = skip_ws_exec(&start, 0);
                let b = skip_word_exec(&start, a);
                let c = skip_ws_exec(&start, b);
                let d = skip_word_exec(&start, c);
                a < b && c < d
            },
        }
    }

    /// Parses a raw request. A request with a header line that holds no
    /// `": "` is refused with status 400; otherwise the method and URL are
    /// the first two words of the start line, each header line gives a
    /// header, and the body is the text after the first blank line.
    pub fn from(raw: String) -> (r: Result<Request, u16>)
        requires
            parseable(raw@),
        ensures
            match r {
                Err(status) => rejected(raw@) && status == 400,
                Ok(req) => {
                    &&& !rejected(raw@)
                    &&& req.method@ == first_word(start_line_of(raw@))
                    &&& req.url@ == second_word(start_line_of(raw@))
                    &&& req.headers@ == header_map(header_lines_of(raw@))
                    &&& req.body@ == body_of(raw@)
                    &&& req.status == 200
                },
            },
    {
        let (head, body) = split_head_body(raw.as_str());
        let (start, headers) = parse_head(&head, Ghost(raw@));
        match headers {
            None => Err(400),
            Some(headers) => {
                let a = skip_ws_exec(&start, 0);
                let b = skip_word_exec(&start, a);
                let c = skip_ws_exec(&start, b);
                let d = skip_word_exec(&start, c);
                let method = chars_to_string(&start, a, b);
                let url = chars_to_string(&start, c, d);
                Ok(Request { method, url, headers, body, status: 200 })
            },
        }
    }
}

// ----- the head as the server reads it ----------------------------------------

/// The name of the header that gives the length of the body.
pub open spec fn content_length_name() -> Seq<char> {
    seq!['C', 'o', 'n', 't', 'e', 'n', 't', '-', 'L', 'e', 'n', 'g', 't', 'h']
}

/// `s` starts with `prefix`.
pub open spec fn starts_with(s: Seq<char>, prefix: Seq<char>) -> bool {
    prefix.len() <= s.len() && s.take(prefix.len() as int) == prefix
}

/// The index of the first line at or after `k` that starts with `prefix`.
pub open spec fn first_with_prefix(lines: Seq<Seq<char>>, prefix: Seq<char>, k: nat) -> Option<nat>
    decreases lines.len() - k,
{
    if k >= lines.len() {
        None
    } else if starts_with(lines[k as int], prefix) {
        Some(k)
    } else {
        first_with_prefix(lines, prefix, k + 1)
    }
}

/// Why the length of a body could not be read from its header.
#[derive(Debug, Clone, Copy, PartialEq, Eq, Structural)]
pub enum ContentLengthError {
    /// The header holds no `": "`.
    MissingValue,
    /// The value is not a number that fits in `usize`.
    InvalidNumber,
}

/// The length of the body that the head lines announce: 0 without a line
/// that starts with `Content-Length`; otherwise the number that stands,
/// trimmed, between the first and the second `": "` of the first such line.
pub open spec fn content_length_of(lines: Seq<Seq<char>>) -> Result<usize, ContentLengthError> {
    match first_with_prefix(lines, content_length_name(), 0) {
        None => Ok(0),
        Some(i) => match after_first(lines[i as int], colon_space()) {
            None => Err(ContentLengthError::MissingValue),
            Some(rest) => match parse_usize(trim(first_piece(rest, colon_space()))) {
                Some(n) => Ok(n),
                None => Err(ContentLengthError::InvalidNumber),
            },
        },
    }
}

/// Whether `s` starts with `prefix`.
fn starts_with_exec(s: &Vec<char>, prefix: &Vec<char>) -> (b: bool)
    ensures
        b == starts_with(s@, prefix@),
{
    if prefix.len() > s.len() {
        return false;
    }
    let r = occurs_at_exec(s, prefix, 0);
    assert(s@.subrange(0, prefix@.len() as int) =~= s@.take(prefix@.len() as int));
    r
}

/// The length of the body that the head lines (without their line ends)
/// announce.
pub fn content_length(lines: &Vec<String>) -> (r: Result<usize, ContentLengthError>)
    ensures
        r == content_length_of(lines@.map_values(|l: String| l@)),
{
    let ghost views = lines@.map_values(|l: String| l@);
    let name = vec!['C', 'o', 'n', 't', 'e', 'n', 't', '-', 'L', 'e', 'n', 'g', 't', 'h'];
    assert(name@ =~= content_length_name());
    let mut i: usize = 0;
    while i < lines.len()
        invariant
            i <= lines.len(),
            views == lines@.map_values(|l: String| l@),
            name@ == content_length_name(),
            first_with_prefix(views, content_length_name(), 0) == first_with_prefix(
                views,
                content_length_name(),
                i as nat,
            ),
        decreases lines.len() - i,
    {
        let line = string_to_chars(lines[i].as_str());
        assert(line@ == views[i as int]);
        if starts_with_exec(&line, &name) {
            let sep = vec![':', ' '];
            assert(sep@ =~= colon_space());
            match find_from_exec(&line, &sep, 0) {
                None => {
                    return Err(ContentLengthError::MissingValue);
                },
                Some(k) => {
                    proof {
                        lemma_find_from_found(line@, colon_space(), 0);
                        assert(sep@.len() == 2);
                    }
                    assert(k + 2 <= line.len());
                    let rest = sub_chars(&line, k + 2, line.len());
                    assert(rest@ =~= line@.skip(k + 2));
                    let piece = match find_from_exec(&rest, &sep, 0) {
                        Some(m) => {
                            proof {
                                lemma_find_from_found(rest@, colon_space(), 0);
                            }
                            let p = sub_chars(&rest, 0, m);
                            assert(p@ =~= rest@.take(m as int));
                            p
                        },
                        None => rest,
                    };
                    let trimmed = trim_chars(&piece);
                    return match parse_usize_exec(&trimmed) {
                        Some(n) => Ok(n),
                        None => Err(ContentLengthError::InvalidNumber),
                    };
                },
            }
        }
        i = i + 1;
    }
    Ok(0)
}

/// Where the lines that start with `Content-Length` lie decides the search:
/// it finds the first of them at whatever index, and nothing when no line
/// starts so.
proof fn lemma_prefix_search(lines: Seq<Seq<char>>, prefix: Seq<char>, k: nat)
    ensures
        first_with_prefix(lines, prefix, k) is None <==> forall|j: int| k <= j < lines.len()
            ==> !starts_with(lines[j], prefix),
        first_with_prefix(lines, prefix, k) matches Some(i) ==> k <= i < lines.len() && starts_with(
            lines[i as int],
            prefix,
        ) && forall|j: int| k <= j < i ==> !starts_with(lines[j], prefix),
    decreases lines.len() - k,
{
    if k < lines.len() {
        lemma_prefix_search(lines, prefix, k + 1);
    }
}

/// The body length is read from the first head line that starts with
/// `Content-Length`, wherever it stands: the lines before it do not count.
/// Without such a line the length is 0.
pub proof fn lemma_content_length_first_line(lines: Seq<Seq<char>>, i: int)
    requires
        0 <= i < lines.len(),
        starts_with(lines[i], content_length_name()),
        forall|j: int| 0 <= j < i ==> !starts_with(lines[j], content_length_name()),
    ensures
        content_length_of(lines) == content_length_of(seq![lines[i]]),
{
    lemma_prefix_search(lines, content_length_name(), 0);
    lemma_prefix_search(seq![lines[i]], content_length_name(), 0);
    assert(seq![lines[i]][0] == lines[i]);
    match first_with_prefix(lines, content_length_name(), 0) {
        Some(k) => {
            if (k as int) < i {
            } else if (k as int) > i {
                assert(!starts_with(lines[i], content_length_name()));
            }
        },
        None => {
            assert(!starts_with(lines[i], content_length_name()));
        },
    }
}

/// Head lines none of which starts with `Content-Length` announce no body.
pub proof fn lemma_no_content_length_line(lines: Seq<Seq<char>>)
    requires
        forall|j: int| 0 <= j < lines.len() ==> !starts_with(lines[j], content_length_name()),
    ensures
        content_length_of(lines) == Ok::<usize, ContentLengthError>(0),
{
    lemma_prefix_search(lines, content_length_name(), 0);
}

/// The raw request the server reassembles from the head lines it read
/// (without their line ends) and the body.
pub open spec fn assembled(lines: Seq<Seq<char>>, body: Seq<char>) -> Seq<char> {
    join(lines, newline()) + blank_line() + body
}

/// Joins the head lines with line ends and appends a blank line and the
/// body.
pub fn assemble_request(lines: &Vec<String>, body: &str) -> (r: String)
    ensures
        r@ == assembled(lines@.map_values(|l: String| l@), body@),
{
    let mut r = join_strings(lines, "\n");
    r.append("\n\n");
    r.append(body);
    proof {
        reveal_strlit("\n");
        reveal_strlit("\n\n");
        assert("\n"@ =~= newline());
        assert("\n\n"@ =~= blank_line());
    }
    r
}

// ----- laws -------------------------------------------------------------------

/// The value of a header is the value on the last line with its name.
pub proof fn lemma_last_line_wins(lines: Seq<Seq<char>>, i: int, name: Seq<char>, value: Seq<char>)
    requires
        0 <= i < lines.len(),
        header_entry(lines[i]) == Some((name, value)),
        forall|j: int| i < j < lines.len() ==> !(#[trigger] header_entry(lines[j]) matches Some((n, _)) && n == name),
    ensures
        header_map(lines).contains_key(name),
        header_map(lines)[name] == value,
    decreases lines.len(),
{
    if i == lines.len() - 1 {
    } else {
        let last = lines.last();
        assert(!(header_entry(lines[lines.len() - 1]) matches Some((n, _)) && n == name));
        assert(lines.drop_last()[i] == lines[i]);
        assert forall|j: int| i < j < lines.drop_last().len() implies !(#[trigger] header_entry(
            lines.drop_last()[j],
        ) matches Some((n, _)) && n == name) by {
            assert(lines.drop_last()[j] == lines[j]);
        }
        lemma_last_line_wins(lines.drop_last(), i, name, value);
    }
}

/// A header name that no line gives is not in the map.
pub proof fn lemma_unnamed_absent(lines: Seq<Seq<char>>, name: Seq<char>)
    requires
        forall|j: int| 0 <= j < lines.len() ==> !(#[trigger] header_entry(lines[j]) matches Some((n, _)) && n == name),
    ensures
        !header_map(lines).contains_key(name),
    decreases lines.len(),
{
    if lines.len() > 0 {
        assert(!(header_entry(lines[lines.len() - 1]) matches Some((n, _)) && n == name));
        assert forall|j: int| 0 <= j < lines.drop_last().len() implies !(#[trigger] header_entry(
            lines.drop_last()[j],
        ) matches Some((n, _)) && n == name) by {
            assert(lines.drop_last()[j] == lines[j]);
        }
        lemma_unnamed_absent(lines.drop_last(), name);
    }
}

/// `s` holds no `c`.
pub open spec fn lacks(s: Seq<char>, c: char) -> bool {
    forall|i: int| 0 <= i < s.len() ==> s[i] != c
}

/// A line as the server reads it: non-empty, without line ends or carriage
/// returns.
pub open spec fn plain_line(l: Seq<char>) -> bool {
    l.len() > 0 && lacks(l, '\n') && lacks(l, '\r')
}

/// Text without carriage returns is left as it is.
proof fn lemma_without_cr_plain(s: Seq<char>)
    requires
        lacks(s, '\r'),
    ensures
        without_cr(s) == s,
    decreases s.len(),
{
    if s.len() > 0 {
        lemma_without_cr_plain(s.drop_last());
        assert(s.drop_last().push(s.last()) =~= s);
    }
}

/// Lines joined by line ends: no two line ends meet, and the text neither
/// starts nor ends with one.
pub open spec fn spaced(s: Seq<char>) -> bool {
    &&& s.len() > 0
    &&& s[0] != '\n'
    &&& s[s.len() - 1] != '\n'
    &&& forall|k: int| 0 <= k < s.len() - 1 ==> !(#[trigger] s[k] == '\n' && s[k + 1] == '\n')
}

proof fn lemma_join_facts(lines: Seq<Seq<char>>)
    requires
        lines.len() >= 1,
        forall|i: int| 0 <= i < lines.len() ==> plain_line(#[trigger] lines[i]),
    ensures
        spaced(join(lines, newline())),
        lacks(join(lines, newline()), '\r'),
    decreases lines.len(),
{
    let j = join(lines, newline());
    if lines.len() == 1 {
        assert(plain_line(lines[0]));
    } else {
        let init = lines.drop_last();
        assert forall|i: int| 0 <= i < init.len() implies plain_line(#[trigger] init[i]) by {
            assert(init[i] == lines[i]);
        }
        lemma_join_facts(init);
        let a = join(init, newline());
        let l = lines.last();
        assert(plain_line(lines[lines.len() - 1]));
        assert(j == a + newline() + l);
        assert forall|k: int| 0 <= k < j.len() - 1 implies !(#[trigger] j[k] == '\n' && j[k + 1] == '\n') by {
            if k < a.len() - 1 {
                assert(j[k] == a[k] && j[k + 1] == a[k + 1]);
            } else if k == a.len() - 1 {
                assert(j[k] == a[k]);
            } else if k == a.len() {
                assert(j[k + 1] == l[0]);
            } else {
                assert(j[k] == l[k - a.len() - 1]);
            }
        }
        assert forall|k: int| 0 <= k < j.len() implies j[k] != '\r' by {
            if k < a.len() {
                assert(j[k] == a[k]);
            } else if k > a.len() {
                assert(j[k] == l[k - a.len() - 1]);
            }
        }
        assert(j[0] == a[0]);
        assert(j[j.len() - 1] == l[l.len() - 1]);
    }
}

/// Joining from the front: the first line, a line end, and the rest joined.
pub proof fn lemma_join_front(lines: Seq<Seq<char>>, sep: Seq<char>)
    requires
        lines.len() >= 2,
    ensures
        join(lines, sep) == lines[0] + sep + join(lines.drop_first(), sep),
    decreases lines.len(),
{
    if lines.len() == 2 {
        assert(lines.drop_last() =~= seq![lines[0]]);
        assert(lines.drop_first() =~= seq![lines[1]]);
        assert(join(lines.drop_last(), sep) == lines[0]);
        assert(join(lines.drop_first(), sep) == lines[1]);
        assert(join(lines, sep) == join(lines.drop_last(), sep) + sep + lines.last());
    } else {
        let init = lines.drop_last();
        let tail = lines.drop_first();
        lemma_join_front(init, sep);
        assert(init.drop_first() =~= tail.drop_last());
        assert(tail.last() == lines.last());
        assert(init[0] == lines[0]);
        assert(join(tail, sep) == join(tail.drop_last(), sep) + sep + tail.last());
        assert(join(lines, sep) == join(init, sep) + sep + lines.last());
        assert(join(lines, sep) =~= lines[0] + sep + join(tail, sep));
    }
}

/// Splitting lines joined by line ends gives the lines back.
proof fn lemma_split_join(lines: Seq<Seq<char>>)
    requires
        lines.len() >= 1,
        forall|i: int| 0 <= i < lines.len() ==> plain_line(#[trigger] lines[i]),
    ensures
        split_pieces(join(lines, newline()), newline()) == lines,
    decreases lines.len(),
{
    let l0 = lines[0];
    assert(plain_line(lines[0]));
    if lines.len() == 1 {
        assert(join(lines, newline()) == l0);
        lemma_absent_char(l0, newline());
        assert(split_pieces(l0, newline()) =~= lines);
    } else {
        lemma_join_front(lines, newline());
        let rest = lines.drop_first();
        assert forall|i: int| 0 <= i < rest.len() implies plain_line(#[trigger] rest[i]) by {
            assert(rest[i] == lines[i + 1]);
        }
        lemma_split_join(rest);
        let j = join(lines, newline());
        let jr = join(rest, newline());
        assert(j == l0 + newline() + jr);
        assert forall|k: int| 0 <= k < l0.len() implies !occurs_at(j, newline(), k) by {
            assert(j.subrange(k, k + 1)[0] == j[k]);
            assert(j[k] == l0[k]);
        }
        assert(j.subrange(l0.len() as int, (l0.len() + 1) as int) =~= newline());
        lemma_find_from_first(j, newline(), 0, l0.len());
        assert(j.take(l0.len() as int) =~= l0);
        assert(j.skip((l0.len() + 1) as int) =~= jr);
        assert(split_pieces(j, newline()) =~= seq![l0] + split_pieces(jr, newline()));
        assert(seq![l0] + rest =~= lines);
    }
}

/// The request the server reassembles from the head lines it read and the
/// body parses back to those lines and that body, when the lines are plain
/// and the body holds neither a carriage return nor a blank line.
pub proof fn lemma_reassembled_request_parses_back(lines: Seq<Seq<char>>, body: Seq<char>)
    requires
        lines.len() >= 1,
        forall|i: int| 0 <= i < lines.len() ==> plain_line(#[trigger] lines[i]),
        lacks(body, '\r'),
        find_from(body, blank_line(), 0) is None,
    ensures
        lines_of(assembled(lines, body)) == lines,
        start_line_of(assembled(lines, body)) == lines[0],
        header_lines_of(assembled(lines, body)) == lines.drop_first(),
        body_of(assembled(lines, body)) == body,
{
    let j = join(lines, newline());
    let a = assembled(lines, body);
    lemma_join_facts(lines);
    assert(a == j + blank_line() + body);
    assert forall|k: int| 0 <= k < a.len() implies a[k] != '\r' by {
        if k < j.len() {
            assert(a[k] == j[k]);
        } else if k >= j.len() + 2 {
            assert(a[k] == body[k - j.len() - 2]);
        }
    }
    lemma_without_cr_plain(a);
    assert forall|k: int| 0 <= k < j.len() implies !occurs_at(a, blank_line(), k) by {
        if occurs_at(a, blank_line(), k) {
            assert(a.subrange(k, k + 2)[0] == a[k]);
            assert(a.subrange(k, k + 2)[1] == a[k + 1]);
            assert(a[k] == j[k]);
            if k < j.len() - 1 {
                assert(a[k + 1] == j[k + 1]);
            }
        }
    }
    assert(a.subrange(j.len() as int, (j.len() + 2) as int) =~= blank_line());
    lemma_find_from_first(a, blank_line(), 0, j.len());
    assert(a.take(j.len() as int) =~= j);
    assert(a.skip((j.len() + 2) as int) =~= body);
    assert(head_of(a) == j);
    assert(body_of(a) == first_piece(body, blank_line()));
    lemma_split_join(lines);
    lemma_split_first(j, newline());
}

} // verus!
