//! The request that goes out: its method, address, headers and body.

use crate::json::{distinct_keys, json_members, json_parse, object_members, parse_json};
use serde_json::Value;
use vstd::prelude::*;
use vstd::string::*;

verus! {

/// An HTTP request, ready to be sent.
#[derive(Clone, Debug, PartialEq, Eq)]
pub struct Request {
    /// The method's name, in capitals, as it is written on the wire.
    pub method: String,
    /// Where the request goes.
    pub url: String,
    /// The headers, name and value, in the order in which they are attached.
    pub headers: Vec<(String, String)>,
    /// The payload, if there is one.
    pub body: Option<String>,
}

/// What a `Request` holds, as mathematical values.
pub struct RequestView {
    pub method: Seq<char>,
    pub url: Seq<char>,
    pub headers: Seq<(Seq<char>, Seq<char>)>,
    pub body: Option<Seq<char>>,
}

impl View for Request {
    type V = RequestView;

    open spec fn view(&self) -> RequestView {
        RequestView {
            method: self.method@,
            url: self.url@,
            headers: self.headers.deep_view(),
            body: self.body.deep_view(),
        }
    }
}

impl Request {
    /// A request is sent with a method's name.
    pub open spec fn well_formed(&self) -> bool {
        is_method_token(self.method@)
    }
}

/// The characters that a method's name is made of: letters, digits and
/// ``!#$%&'*+-.^_`|~``.
pub open spec fn is_method_char(c: char) -> bool {
    ('a' <= c && c <= 'z') || ('A' <= c && c <= 'Z') || ('0' <= c && c <= '9') || c == '!' || c
        == '#' || c == '$' || c == '%' || c == '&' || c == '\'' || c == '*' || c == '+' || c == '-'
        || c == '.' || c == '^' || c == '_' || c == '`' || c == '|' || c == '~'
}

/// A method's name: not empty, and made of such characters only.
pub open spec fn is_method_token(s: Seq<char>) -> bool {
    s.len() > 0 && forall|i: int| 0 <= i < s.len() ==> is_method_char(#[trigger] s[i])
}

/// The capital of a small letter `a` to `z`; any other character is itself.
pub open spec fn fold_char(c: char) -> char {
    if 'a' <= c && c <= 'z' {
        ((c as u8 - 32) as u8) as char
    } else {
        c
    }
}

/// A text with its small letters `a` to `z` turned into capitals.
pub open spec fn fold_upper(text: Seq<char>) -> Seq<char> {
    Seq::new(text.len(), |i: int| fold_char(text[i]))
}

/// The method that a request is sent with. A method is read without regard
/// to the case of its letters: where what was asked for is a method's name,
/// it is that name in capitals; where it is not, it is GET.
pub open spec fn resolved_method(asked: Seq<char>) -> Seq<char> {
    if is_method_token(asked) {
        fold_upper(asked)
    } else {
        "GET"@
    }
}

/// No header name occurs at two places.
pub open spec fn distinct_names(headers: Seq<(Seq<char>, Seq<char>)>) -> bool {
    forall|i: int, j: int|
        0 <= i < j < headers.len() ==> (#[trigger] headers[i]).0 != (#[trigger] headers[j]).0
}

/// Of an object's members, those that are strings, in the same order.
pub open spec fn string_members(members: Seq<(Seq<char>, Option<Seq<char>>)>) -> Seq<
    (Seq<char>, Seq<char>),
>
    decreases members.len(),
{
    if members.len() == 0 {
        Seq::empty()
    } else {
        let rest = string_members(members.drop_last());
        match members.last().1 {
            Some(text) => rest.push((members.last().0, text)),
            None => rest,
        }
    }
}

/// The headers that a document gives: the string members of an object, and
/// none for any other document.
pub open spec fn document_headers(doc: Value) -> Seq<(Seq<char>, Seq<char>)> {
    match json_members(doc) {
        Some(members) => string_members(members),
        None => Seq::empty(),
    }
}

/// The headers that a request gets from the header text it was given: those
/// of the document that the text holds, and none where there is no text or
/// the text is no JSON.
pub open spec fn request_headers(given: Option<Seq<char>>) -> Seq<(Seq<char>, Seq<char>)> {
    match given {
        Some(text) => match json_parse(text) {
            Some(doc) => document_headers(doc),
            None => Seq::empty(),
        },
        None => Seq::empty(),
    }
}

/// Calls `str::parse` for a `reqwest::Method` and takes the name of what
/// comes back with `Method::as_str`. Trusted: the text is accepted exactly
/// where it is a method's name, and the method's name is then that text.
#[verifier::external_body]
pub(crate) fn parse_method(asked: &str) -> (r: Option<String>)
    ensures
        r.is_some() == is_method_token(asked@),
        r matches Some(name) ==> name@ == asked@,
{
    asked.parse::<reqwest::Method>().ok().map(|m| m.as_str().to_owned())
}

/// The capital of a small letter, given by its ASCII code.
fn capital(b: u8) -> (r: &'static str)
    requires
        'a' <= b as char && b as char <= 'z',
    ensures
        r@ == seq![fold_char(b as char)],
{
    proof {
        reveal_strlit("A");
        reveal_strlit("B");
        reveal_strlit("C");
        reveal_strlit("D");
        reveal_strlit("E");
        reveal_strlit("F");
        reveal_strlit("G");
        reveal_strlit("H");
        reveal_strlit("I");
        reveal_strlit("J");
        reveal_strlit("K");
        reveal_strlit("L");
        reveal_strlit("M");
        reveal_strlit("N");
        reveal_strlit("O");
        reveal_strlit("P");
        reveal_strlit("Q");
        reveal_strlit("R");
        reveal_strlit("S");
        reveal_strlit("T");
        reveal_strlit("U");
        reveal_strlit("V");
        reveal_strlit("W");
        reveal_strlit("X");
        reveal_strlit("Y");
        reveal_strlit("Z");
    }
    let r = if b == 97 {
        "A"
    } else if b == 98 {
        "B"
    } else if b == 99 {
        "C"
    } else if b == 100 {
        "D"
    } else if b == 101 {
        "E"
    } else if b == 102 {
        "F"
    } else if b == 103 {
        "G"
    } else if b == 104 {
        "H"
    } else if b == 105 {
        "I"
    } else if b == 106 {
        "J"
    } else if b == 107 {
        "K"
    } else if b == 108 {
        "L"
    } else if b == 109 {
        "M"
    } else if b == 110 {
        "N"
    } else if b == 111 {
        "O"
    } else if b == 112 {
        "P"
    } else if b == 113 {
        "Q"
    } else if b == 114 {
        "R"
    } else if b == 115 {
        "S"
    } else if b == 116 {
        "T"
    } else if b == 117 {
        "U"
    } else if b == 118 {
        "V"
    } else if b == 119 {
        "W"
    } else if b == 120 {
        "X"
    } else if b == 121 {
        "Y"
    } else {
        "Z"
    };
    assert(r@ =~= seq![fold_char(b as char)]);
    r
}

/// Writes a method's name in capitals.
fn fold_name(name: &str) -> (r: String)
    requires
        is_method_token(name@),
    ensures
        r@ == fold_upper(name@),
{
    proof {
        lemma_token_is_ascii(name@);
        is_ascii_spec_bytes(name);
    }
    let n = name.as_bytes().len();
    let mut out = String::new();
    let mut i: usize = 0;
    while i < n
        invariant
            is_ascii(name),
            n == name@.len(),
            i <= n,
            out@ == fold_upper(name@).take(i as int),
        decreases n - i,
    {
        let b = name.get_ascii(i);
        let ghost before = out@;
        if 97 <= b && b <= 122 {
            out.append(capital(b));
        } else {
            out.append(name.substring_ascii(i, i + 1));
        }
        assert(out@ =~= before.push(fold_char(name@[i as int])));
        assert(fold_upper(name@).take(i + 1) =~= fold_upper(name@).take(i as int).push(
            fold_char(name@[i as int]),
        ));
        i += 1;
    }
    assert(fold_upper(name@).take(n as int) =~= fold_upper(name@));
    out
}

/// Settles the method of a request, without regard to the case of its
/// letters. Nothing is rejected: what is no method's name gives GET.
pub fn resolve_method(asked: &str) -> (r: String)
    ensures
        r@ == resolved_method(asked@),
        is_method_token(r@),
{
    proof {
        lemma_resolved_method_is_token(asked@);
    }
    match parse_method(asked) {
        Some(name) => fold_name(name.as_str()),
        None => String::from_str("GET"),
    }
}

/// Picks the string members out of an object's members.
pub fn select_headers(members: Vec<(String, Option<String>)>) -> (r: Vec<(String, String)>)
    ensures
        r.deep_view() == string_members(members.deep_view()),
        distinct_keys(members.deep_view()) ==> distinct_names(r.deep_view()),
{
    let ghost all = members.deep_view();
    proof {
        if distinct_keys(all) {
            lemma_distinct_keys_kept(all);
        }
    }
    let mut out: Vec<(String, String)> = Vec::new();
    let mut i: usize = 0;
    assert(all.take(0) =~= Seq::empty());
    while i < members.len()
        invariant
            i <= members.len(),
            all == members.deep_view(),
            out.deep_view() == string_members(all.take(i as int)),
        decreases members.len() - i,
    {
        let ghost before = out.deep_view();
        proof {
            assert(all.take(i + 1).drop_last() =~= all.take(i as int));
            assert(all.take(i + 1).last() == all[i as int]);
            assert(all[i as int] == members@[i as int].deep_view());
        }
        match &members[i].1 {
            Some(text) => {
                out.push((members[i].0.clone(), text.clone()));
                assert(out.deep_view() =~= before.push((all[i as int].0, text@)));
            },
            None => {},
        }
        i += 1;
    }
    assert(all.take(i as int) =~= all);
    out
}

/// The headers of a document.
pub fn headers_of_document(doc: &Value) -> (r: Vec<(String, String)>)
    ensures
        r.deep_view() == document_headers(*doc),
        distinct_names(r.deep_view()),
{
    match object_members(doc) {
        Some(members) => select_headers(members),
        None => {
            let out: Vec<(String, String)> = Vec::new();
            assert(out.deep_view() =~= Seq::empty());
            out
        },
    }
}

/// The headers of a request, from the header text it was given.
pub fn headers_of_text(given: &Option<String>) -> (r: Vec<(String, String)>)
    ensures
        r.deep_view() == request_headers(given.deep_view()),
        distinct_names(r.deep_view()),
{
    let mut out: Vec<(String, String)> = Vec::new();
    assert(out.deep_view() =~= Seq::empty());
    if let Some(text) = given {
        if let Ok(doc) = parse_json(text.as_str()) {
            out = headers_of_document(&doc);
        }
    }
    out
}

/// Puts together the request of a call: the method settled by
/// `resolved_method`, the address as given, the headers that the header text
/// gives, no name twice, and the body as given.
pub fn call_api_request(
    method: String,
    url: String,
    headers: Option<String>,
    body: Option<String>,
) -> (r: Request)
    ensures
        r@ == (RequestView {
            method: resolved_method(method@),
            url: url@,
            headers: request_headers(headers.deep_view()),
            body: body.deep_view(),
        }),
        r.well_formed(),
        distinct_names(r@.headers),
{
    let name = resolve_method(method.as_str());
    let attached = headers_of_text(&headers);
    Request { method: name, url, headers: attached, body }
}

/// Puts together the request of a chat call: a POST to the address, with the
/// one header that declares the body to be JSON, and the body as given.
pub fn chat_api_request(url: String, body: String) -> (r: Request)
    ensures
        r@ == (RequestView {
            method: "POST"@,
            url: url@,
            headers: seq![("Content-Type"@, "application/json"@)],
            body: Some(body@),
        }),
        r.well_formed(),
{
    proof {
        reveal_strlit("POST");
    }
    let mut attached: Vec<(String, String)> = Vec::new();
    attached.push((String::from_str("Content-Type"), String::from_str("application/json")));
    assert(attached.deep_view() =~= seq![("Content-Type"@, "application/json"@)]);
    Request { method: String::from_str("POST"), url, headers: attached, body: Some(body) }
}

/// A method's name holds ASCII characters only.
pub proof fn lemma_token_is_ascii(name: Seq<char>)
    requires
        is_method_token(name),
    ensures
        vstd::utf8::is_ascii_chars(name),
{
    assert forall|i: int| 0 <= i < name.len() implies '\0' <= #[trigger] name[i] <= '\u{7f}' by {
        assert(is_method_char(name[i]));
    }
}

/// A method's name in capitals is a method's name, of the same length, and
/// holds no small letter.
pub proof fn lemma_fold_keeps_token(name: Seq<char>)
    requires
        is_method_token(name),
    ensures
        is_method_token(fold_upper(name)),
        fold_upper(name).len() == name.len(),
        forall|i: int|
            0 <= i < name.len() ==> !('a' <= #[trigger] fold_upper(name)[i] && fold_upper(name)[i]
                <= 'z'),
{
    assert forall|i: int| 0 <= i < name.len() implies is_method_char(
        #[trigger] fold_upper(name)[i],
    ) && !('a' <= fold_upper(name)[i] && fold_upper(name)[i] <= 'z') by {
        assert(is_method_char(name[i]));
    }
}

/// Writing a text in capitals a second time changes nothing: two methods
/// that differ in the case of their letters alone are one method.
pub proof fn lemma_fold_is_idempotent(text: Seq<char>)
    ensures
        fold_upper(fold_upper(text)) == fold_upper(text),
{
    assert(fold_upper(fold_upper(text)) =~= fold_upper(text));
}

/// The method that a request is sent with is a method's name, whatever was
/// asked for, and the case of what was asked for does not matter to it.
pub proof fn lemma_resolved_method_is_token(asked: Seq<char>)
    ensures
        is_method_token(resolved_method(asked)),
        is_method_token(asked) ==> resolved_method(fold_upper(asked)) == resolved_method(asked),
{
    reveal_strlit("GET");
    if is_method_token(asked) {
        lemma_fold_keeps_token(asked);
        lemma_fold_is_idempotent(asked);
    }
}

/// Each header that is selected is a member, with its key and text.
pub proof fn lemma_selected_is_member(members: Seq<(Seq<char>, Option<Seq<char>>)>, j: int)
    requires
        0 <= j < string_members(members).len(),
    ensures
        exists|i: int|
            0 <= i < members.len() && #[trigger] members[i] == (
                string_members(members)[j].0,
                Some(string_members(members)[j].1),
            ),
    decreases members.len(),
{
    if members.len() > 0 {
        let front = members.drop_last();
        if j < string_members(front).len() {
            lemma_selected_is_member(front, j);
            let i = choose|i: int|
                0 <= i < front.len() && #[trigger] front[i] == (
                    string_members(front)[j].0,
                    Some(string_members(front)[j].1),
                );
            assert(members[i] == front[i]);
        } else {
            assert(members[members.len() - 1] == members.last());
        }
    }
}

/// Where no key occurs twice among the members, no name occurs twice among
/// the headers selected from them.
pub proof fn lemma_distinct_keys_kept(members: Seq<(Seq<char>, Option<Seq<char>>)>)
    requires
        distinct_keys(members),
    ensures
        distinct_names(string_members(members)),
    decreases members.len(),
{
    if members.len() > 0 {
        let front = members.drop_last();
        let selected = string_members(members);
        assert(distinct_keys(front)) by {
            assert forall|i: int, j: int| 0 <= i < j < front.len() implies (#[trigger] front[i]).0
                != (#[trigger] front[j]).0 by {
                assert(front[i] == members[i] && front[j] == members[j]);
            }
        }
        lemma_distinct_keys_kept(front);
        assert forall|a: int, b: int| 0 <= a < b < selected.len() implies (#[trigger] selected[a]).0
            != (#[trigger] selected[b]).0 by {
            if b < string_members(front).len() {
                assert(selected[a] == string_members(front)[a]);
                assert(selected[b] == string_members(front)[b]);
            } else {
                lemma_selected_is_member(front, a);
                let i = choose|i: int|
                    0 <= i < front.len() && #[trigger] front[i] == (
                        string_members(front)[a].0,
                        Some(string_members(front)[a].1),
                    );
                assert(front[i] == members[i]);
                assert(members[members.len() - 1] == members.last());
                assert(selected[a] == string_members(front)[a]);
            }
        }
    }
}

/// Where every member of an object is a string, each member gives one
/// header, at the member's own place: as many headers as members, the header
/// at each place holding that member's key and text.
pub proof fn lemma_all_strings_selected(members: Seq<(Seq<char>, Option<Seq<char>>)>)
    requires
        forall|i: int| 0 <= i < members.len() ==> (#[trigger] members[i]).1.is_some(),
    ensures
        string_members(members).len() == members.len(),
        forall|i: int|
            0 <= i < members.len() ==> #[trigger] string_members(members)[i] == (
                members[i].0,
                members[i].1.unwrap(),
            ),
    decreases members.len(),
{
    if members.len() > 0 {
        lemma_all_strings_selected(members.drop_last());
    }
}

/// A header text that holds a JSON object whose members are all strings
/// gives each member as a header once: the request has as many headers as
/// the object has members, the header at each place holds the key and the
/// text of the member at that place, and, no key coming twice in the object,
/// no name comes twice among the headers.
pub proof fn lemma_string_headers_attached(text: Seq<char>)
    requires
        json_parse(text) matches Some(doc) && json_members(doc) matches Some(members) && forall|
            i: int,
        |
            0 <= i < members.len() ==> (#[trigger] members[i]).1.is_some(),
    ensures
        ({
            let members = json_members(json_parse(text).unwrap()).unwrap();
            let headers = request_headers(Some(text));
            &&& headers.len() == members.len()
            &&& forall|i: int|
                0 <= i < members.len() ==> #[trigger] headers[i] == (
                    members[i].0,
                    members[i].1.unwrap(),
                )
            &&& distinct_keys(members) ==> distinct_names(headers)
        }),
{
    let members = json_members(json_parse(text).unwrap()).unwrap();
    lemma_all_strings_selected(members);
    if distinct_keys(members) {
        lemma_distinct_keys_kept(members);
    }
}

/// A header text that is no JSON gives no header, and a text that holds a
/// document other than an object gives none either.
pub proof fn lemma_unreadable_headers_ignored(text: Seq<char>)
    requires
        json_parse(text) matches Some(doc) ==> json_members(doc).is_none(),
    ensures
        request_headers(Some(text)) == Seq::<(Seq<char>, Seq<char>)>::empty(),
{
}

} // verus!
