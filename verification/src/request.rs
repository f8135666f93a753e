//! Reading a request: the request line, the headers and the body.

use vstd::prelude::*;
use vstd::string::StringExecFns;
use crate::text::{
    after_word, chars_of, cut, index_of, next_word, same_text, scan, trim, trim_bounds, word,
    CharClass,
};

verus! {

/// The request methods that are told apart.
#[allow(clippy::upper_case_acronyms)]
#[derive(Clone, Copy, Debug, PartialEq, Eq, Structural)]
pub enum Method {
    GET,
    POST,
    PUT,
    DELETE,
}

/// Header fields by name: each name is held once, with the value that was
/// entered last under it.
#[derive(Debug)]
pub struct Headers {
    entries: Vec<(String, String)>,
}

/// The map that holds each name of `entries` with the value that was
/// entered last under it.
spec fn entries_map(entries: Seq<(String, String)>) -> Map<Seq<char>, Seq<char>>
    decreases entries.len(),
{
    if entries.len() == 0 {
        Map::empty()
    } else {
        entries_map(entries.drop_last()).insert(entries.last().0@, entries.last().1@)
    }
}

/// No name occurs twice in `entries`.
spec fn names_distinct(entries: Seq<(String, String)>) -> bool {
    forall|i: int, j: int|
        0 <= i < j < entries.len() ==> (#[trigger] entries[i]).0@ != (#[trigger] entries[j]).0@
}

/// Some entry of `entries` has the name `name`.
spec fn has_name(entries: Seq<(String, String)>, name: Seq<char>) -> bool {
    exists|i: int| 0 <= i < entries.len() && (#[trigger] entries[i]).0@ == name
}

/// Where no name occurs twice, the map holds every entry as it stands, and
/// nothing else.
proof fn lemma_entries_map(entries: Seq<(String, String)>)
    requires
        names_distinct(entries),
    ensures
        forall|i: int|
            0 <= i < entries.len() ==> entries_map(entries).contains_key(
                (#[trigger] entries[i]).0@,
            ) && entries_map(entries)[entries[i].0@] == entries[i].1@,
        forall|name: Seq<char>| #[trigger]
            entries_map(entries).contains_key(name) ==> has_name(entries, name),
    decreases entries.len(),
{
    if entries.len() > 0 {
        let init = entries.drop_last();
        let last = entries.last();
        assert forall|i: int, j: int| 0 <= i < j < init.len() implies (#[trigger] init[i]).0@ != (
        #[trigger] init[j]).0@ by {
            assert(init[i] == entries[i] && init[j] == entries[j]);
        }
        lemma_entries_map(init);
        assert forall|i: int| 0 <= i < entries.len() implies entries_map(entries).contains_key(
            (#[trigger] entries[i]).0@,
        ) && entries_map(entries)[entries[i].0@] == entries[i].1@ by {
            if i < init.len() {
                assert(init[i] == entries[i]);
                assert(entries[i].0@ != entries[entries.len() - 1].0@);
            }
        }
        assert forall|name: Seq<char>| #[trigger]
            entries_map(entries).contains_key(name) implies has_name(entries, name) by {
            if name == last.0@ {
                assert(entries[entries.len() - 1].0@ == name);
            } else {
                assert(entries_map(init).contains_key(name));
                let i = choose|i: int| 0 <= i < init.len() && (#[trigger] init[i]).0@ == name;
                assert(entries[i].0@ == name);
            }
        }
    }
}

/// Putting a new value in the place of an entry's value is an insertion
/// under the entry's name, and leaves every name where it was.
proof fn lemma_replace_entry(entries: Seq<(String, String)>, at: int, entry: (String, String))
    requires
        names_distinct(entries),
        0 <= at < entries.len(),
        entries[at].0@ == entry.0@,
    ensures
        names_distinct(entries.update(at, entry)),
        entries_map(entries.update(at, entry)) == entries_map(entries).insert(entry.0@, entry.1@),
{
    let changed = entries.update(at, entry);
    assert forall|i: int, j: int| 0 <= i < j < changed.len() implies (#[trigger] changed[i]).0@ != (
    #[trigger] changed[j]).0@ by {
        assert(changed[i].0@ == entries[i].0@ && changed[j].0@ == entries[j].0@);
    }
    lemma_entries_map(entries);
    lemma_entries_map(changed);
    let before = entries_map(entries).insert(entry.0@, entry.1@);
    let after = entries_map(changed);
    assert forall|name: Seq<char>| before.contains_key(name) <==> after.contains_key(name) by {
        if before.contains_key(name) {
            if name == entry.0@ {
                assert(changed[at].0@ == name);
            } else {
                let i = choose|i: int| 0 <= i < entries.len() && (#[trigger] entries[i]).0@ == name;
                assert(changed[i].0@ == name);
            }
        }
        if after.contains_key(name) {
            let i = choose|i: int| 0 <= i < changed.len() && (#[trigger] changed[i]).0@ == name;
            assert(entries[i].0@ == name);
        }
    }
    assert forall|name: Seq<char>| before.contains_key(name) implies before[name] == after[name] by {
        let i = choose|i: int| 0 <= i < changed.len() && (#[trigger] changed[i]).0@ == name;
        if i != at {
            assert(changed[i] == entries[i]);
            assert(entries[i].0@ != entries[at].0@);
        }
    }
    assert(before =~= after);
}

impl View for Headers {
    type V = Map<Seq<char>, Seq<char>>;

    closed spec fn view(&self) -> Map<Seq<char>, Seq<char>> {
        entries_map(self.entries@)
    }
}

impl Headers {
    /// No name is held twice.
    pub closed spec fn wf(&self) -> bool {
        names_distinct(self.entries@)
    }

    /// The map made by the `n` entries that came first.
    spec fn first(&self, n: int) -> Map<Seq<char>, Seq<char>> {
        entries_map(self.entries@.take(n))
    }

    /// No header fields.
    pub fn new() -> (headers: Headers)
        ensures
            headers.wf(),
            headers@ == Map::<Seq<char>, Seq<char>>::empty(),
    {
        Headers { entries: Vec::new() }
    }

    /// Enters `value` under `name`, in place of any value entered before.
    pub fn insert(&mut self, name: String, value: String)
        requires
            old(self).wf(),
        ensures
            final(self).wf(),
            final(self)@ == old(self)@.insert(name@, value@),
    {
        let mut i: usize = 0;
        while i < self.entries.len()
            invariant
                i <= self.entries.len(),
                self.entries == old(self).entries,
                old(self).wf(),
                forall|k: int| 0 <= k < i ==> (#[trigger] self.entries[k]).0@ != name@,
            decreases self.entries.len() - i,
        {
            if same_text(self.entries[i].0.as_str(), name.as_str()) {
                proof {
                    lemma_replace_entry(self.entries@, i as int, (name, value));
                }
                self.entries.set(i, (name, value));
                return;
            }
            i += 1;
        }
        self.entries.push((name, value));
        assert(self.entries@.drop_last() =~= old(self).entries@);
        assert forall|a: int, b: int| 0 <= a < b < self.entries.len() implies (
        #[trigger] self.entries[a]).0@ != (#[trigger] self.entries[b]).0@ by {
            assert(self.entries[a] == old(self).entries[a]);
            if b < old(self).entries.len() {
                assert(self.entries[b] == old(self).entries[b]);
            }
        }
    }

    /// The value entered under `name`, if there is one.
    pub fn get(&self, name: &str) -> (value: Option<&String>)
        ensures
            value is Some <==> self@.contains_key(name@),
            value matches Some(v) ==> v@ == self@[name@],
    {
        let mut i: usize = self.entries.len();
        assert(self.entries@.take(i as int) =~= self.entries@);
        while i > 0
            invariant
                i <= self.entries.len(),
                self@.contains_key(name@) <==> self.first(i as int).contains_key(name@),
                self@.contains_key(name@) ==> self@[name@] == self.first(i as int)[name@],
            decreases i,
        {
            proof {
                let upto = self.entries@.take(i as int);
                assert(upto.drop_last() =~= self.entries@.take(i - 1));
            }
            if same_text(self.entries[i - 1].0.as_str(), name) {
                return Some(&self.entries[i - 1].1);
            }
            i -= 1;
        }
        None
    }

    /// Whether a value was entered under `name`.
    pub fn contains_key(&self, name: &str) -> (found: bool)
        ensures
            found == self@.contains_key(name@),
    {
        self.get(name).is_some()
    }
}

/// A request taken apart.
#[derive(Debug)]
pub struct ParsedRequest {
    pub method: Method,
    pub route: String,
    pub version: String,
    pub query: String,
    pub headers: Headers,
    pub body: String,
}

/// The lines of a request as sequences of characters.
pub open spec fn lines_of(request: Seq<String>) -> Seq<Seq<char>> {
    Seq::new(request.len(), |i: int| request[i]@)
}

/// The request line: the first line, or nothing where there is no line.
pub open spec fn request_line(lines: Seq<Seq<char>>) -> Seq<char> {
    if lines.len() > 0 {
        lines[0]
    } else {
        Seq::empty()
    }
}

/// The second word of the request line: path and query.
pub open spec fn target_of(line: Seq<char>) -> Seq<char> {
    word(after_word(line))
}

/// The third word of the request line.
pub open spec fn version_of(line: Seq<char>) -> Seq<char> {
    word(after_word(after_word(line)))
}

/// Whether `line` holds the three words of a request line.
pub open spec fn is_request_line(line: Seq<char>) -> bool {
    version_of(line).len() > 0
}

/// The method that the first word of the request line names; `GET` for a
/// word that names none.
pub open spec fn method_of(token: Seq<char>) -> Method {
    if token == "POST"@ {
        Method::POST
    } else if token == "PUT"@ {
        Method::PUT
    } else if token == "DELETE"@ {
        Method::DELETE
    } else {
        Method::GET
    }
}

/// The path: the target up to its first `?`.
pub open spec fn route_of(target: Seq<char>) -> Seq<char> {
    target.take(index_of(target, '?') as int)
}

/// The query: what stands between the first `?` of the target and the
/// next one, or nothing where the target has no `?`.
pub open spec fn query_of(target: Seq<char>) -> Seq<char> {
    if index_of(target, '?') < target.len() {
        let rest = target.skip(index_of(target, '?') + 1int);
        rest.take(index_of(rest, '?') as int)
    } else {
        Seq::empty()
    }
}

/// Whether `line` is read as a header field: it holds a `:` and does not
/// start with `{`.
pub open spec fn is_header(line: Seq<char>) -> bool {
    index_of(line, ':') < line.len() && line[0] != '{'
}

/// The name of the header field in `line`: what stands before the first
/// `:`, without white space around it.
pub open spec fn header_name(line: Seq<char>) -> Seq<char> {
    trim(line.take(index_of(line, ':') as int))
}

/// The value of the header field in `line`: what stands behind the first
/// `:`, without white space around it.
pub open spec fn header_value(line: Seq<char>) -> Seq<char> {
    trim(line.skip(index_of(line, ':') + 1int))
}

/// The header fields of `lines`, each line read in turn, the request line too.
pub open spec fn headers_of(lines: Seq<Seq<char>>) -> Map<Seq<char>, Seq<char>>
    decreases lines.len(),
{
    if lines.len() == 0 {
        Map::empty()
    } else if is_header(lines.last()) {
        headers_of(lines.drop_last()).insert(header_name(lines.last()), header_value(lines.last()))
    } else {
        headers_of(lines.drop_last())
    }
}

/// The body: the last line of a `POST` request if it starts with `{`,
/// nothing otherwise.
pub open spec fn body_of(method: Method, lines: Seq<Seq<char>>) -> Seq<char> {
    if method is POST && lines.len() > 0 && lines.last().len() > 0 && lines.last()[0] == '{' {
        lines.last()
    } else {
        Seq::empty()
    }
}

/// The first line of `request`, or the empty text.
fn first_line(request: &[String]) -> (line: &str)
    ensures
        line@ == request_line(lines_of(request@)),
{
    if request.len() > 0 {
        request[0].as_str()
    } else {
        proof {
            reveal_strlit("");
        }
        ""
    }
}

/// Whether the first line of `request` holds the three words of a request
/// line, so that `parse_request` can read it.
pub fn has_request_line(request: &[String]) -> (b: bool)
    ensures
        b == is_request_line(request_line(lines_of(request@))),
{
    let line = first_line(request);
    let chars = chars_of(line);
    let method = next_word(&chars, 0);
    let target = next_word(&chars, method.1);
    let version = next_word(&chars, target.1);
    proof {
        assert(chars@.skip(0) =~= line@);
    }
    version.1 > version.0
}

/// The method that `token` names.
fn method_named(token: &str) -> (method: Method)
    ensures
        method == method_of(token@),
{
    if same_text(token, "POST") {
        Method::POST
    } else if same_text(token, "PUT") {
        Method::PUT
    } else if same_text(token, "DELETE") {
        Method::DELETE
    } else {
        Method::GET
    }
}

/// Enters the header field of `line` into `headers`, if the line is one.
fn read_header(headers: &mut Headers, line: &str)
    requires
        old(headers).wf(),
    ensures
        final(headers).wf(),
        final(headers)@ == (if is_header(line@) {
            old(headers)@.insert(header_name(line@), header_value(line@))
        } else {
            old(headers)@
        }),
{
    let chars = chars_of(line);
    let len = chars.len();
    let colon = scan(&chars, 0, len, CharClass::Except(':'));
    assert(chars@.subrange(0, len as int) =~= line@);
    if colon < len && chars[0] != '{' {
        let name = trim_bounds(&chars, 0, colon);
        let value = trim_bounds(&chars, colon + 1, len);
        headers.insert(cut(line, name.0, name.1), cut(line, value.0, value.1));
    }
}

/// The header fields of the lines of `request`.
fn read_headers(request: &[String]) -> (headers: Headers)
    ensures
        headers.wf(),
        headers@ == headers_of(lines_of(request@)),
{
    let ghost lines = lines_of(request@);
    let mut headers = Headers::new();
    let mut i: usize = 0;
    while i < request.len()
        invariant
            i <= request.len(),
            lines == lines_of(request@),
            headers.wf(),
            headers@ == headers_of(lines.take(i as int)),
        decreases request.len() - i,
    {
        proof {
            let upto = lines.take(i + 1);
            assert(upto.drop_last() =~= lines.take(i as int));
        }
        read_header(&mut headers, request[i].as_str());
        i += 1;
    }
    assert(lines.take(request.len() as int) =~= lines);
    headers
}

/// Takes a request apart: the method, path, query and version of the
/// request line, the header fields of all lines, and the body.
///
/// The first line must hold the three words of a request line.
pub fn parse_request(request: &[String]) -> (parsed: ParsedRequest)
    requires
        is_request_line(request_line(lines_of(request@))),
    ensures
        ({
            let lines = lines_of(request@);
            let line = request_line(lines);
            &&& parsed.method == method_of(word(line))
            &&& parsed.route@ == route_of(target_of(line))
            &&& parsed.query@ == query_of(target_of(line))
            &&& parsed.version@ == version_of(line)
            &&& parsed.headers.wf()
            &&& parsed.headers@ == headers_of(lines)
            &&& parsed.body@ == body_of(parsed.method, lines)
        }),
{
    let ghost lines = lines_of(request@);
    let line = first_line(request);
    let chars = chars_of(line);
    let m = next_word(&chars, 0);
    let t = next_word(&chars, m.1);
    let v = next_word(&chars, t.1);
    proof {
        assert(chars@.skip(0) =~= line@);
    }
    let method = method_named(cut(line, m.0, m.1).as_str());
    let question = scan(&chars, t.0, t.1, CharClass::Except('?'));
    let route = cut(line, t.0, question);
    let ghost target = target_of(line@);
    let query = if question < t.1 {
        let end = scan(&chars, question + 1, t.1, CharClass::Except('?'));
        proof {
            let rest = target.skip(index_of(target, '?') + 1int);
            assert(rest =~= chars@.subrange(question + 1, t.1 as int));
        }
        cut(line, question + 1, end)
    } else {
        String::new()
    };
    let version = cut(line, v.0, v.1);
    let headers = read_headers(request);
    let body = match method {
        Method::POST => {
            if request.len() > 0 {
                let last = request[request.len() - 1].as_str();
                let first = chars_of(last);
                if first.len() > 0 && first[0] == '{' {
                    String::from_str(last)
                } else {
                    String::new()
                }
            } else {
                String::new()
            }
        },
        _ => String::new(),
    };
    ParsedRequest { method, route, version, query, headers, body }
}

} // verus!
