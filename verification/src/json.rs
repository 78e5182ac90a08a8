//! JSON values and their text.
//!
//! A value is written compactly: no white space, the members of an object
//! in the order they were put in. Strings are quoted by `serde_json`.

use crate::text::push_char;
use vstd::prelude::*;
use vstd::string::StringExecFns;

verus! {

/// A JSON value.
#[derive(Debug)]
pub enum Json {
    Null,
    Bool(bool),
    Number(i64),
    Text(String),
    Array(Vec<Json>),
    Object(Vec<Member>),
}

/// One member of a JSON object.
#[derive(Debug)]
pub struct Member {
    pub key: String,
    pub value: Json,
}

/// A JSON value as contracts see it.
pub enum JsonView {
    Null,
    Bool(bool),
    Number(int),
    Text(Seq<char>),
    Array(Seq<JsonView>),
    Object(Seq<MemberView>),
}

/// One member of a JSON object as contracts see it.
pub struct MemberView {
    pub key: Seq<char>,
    pub value: JsonView,
}

/// A JSON value as contracts see it: its texts as sequences of characters,
/// its numbers as integers.
pub open spec fn json_view(j: Json) -> JsonView
    decreases j,
{
    match j {
        Json::Null => JsonView::Null,
        Json::Bool(b) => JsonView::Bool(b),
        Json::Number(n) => JsonView::Number(n as int),
        Json::Text(s) => JsonView::Text(s@),
        Json::Array(items) => JsonView::Array(
            Seq::new(
                items@.len(),
                |i: int|
                    if 0 <= i < items@.len() {
                        json_view(items@[i])
                    } else {
                        JsonView::Null
                    },
            ),
        ),
        Json::Object(members) => JsonView::Object(
            Seq::new(
                members@.len(),
                |i: int|
                    if 0 <= i < members@.len() {
                        MemberView { key: members@[i].key@, value: json_view(members@[i].value) }
                    } else {
                        MemberView { key: Seq::empty(), value: JsonView::Null }
                    },
            ),
        ),
    }
}

impl View for Json {
    type V = JsonView;

    open spec fn view(&self) -> JsonView {
        json_view(*self)
    }
}

impl View for Member {
    type V = MemberView;

    open spec fn view(&self) -> MemberView {
        MemberView { key: self.key@, value: self.value@ }
    }
}

/// The JSON string literal for `text`: the text between double quotes,
/// with the characters escaped that JSON wants escaped.
pub uninterp spec fn json_quoted(text: Seq<char>) -> Seq<char>;

/// `serde_json::to_string` on a string: its JSON string literal.
#[verifier::external_body]
fn quote(text: &str) -> (literal: String)
    ensures
        literal@ == json_quoted(text@),
{
    serde_json::to_string(text).unwrap_or_default()
}

/// The decimal digit of value `d`.
pub open spec fn digit(d: int) -> char {
    ('0' as int + d) as char
}

/// The decimal digits of `n`, without leading zeros.
pub open spec fn digits(n: nat) -> Seq<char>
    decreases n,
{
    if n < 10 {
        seq![digit(n as int)]
    } else {
        digits(n / 10).push(digit(n as int % 10))
    }
}

/// `n` in decimal, with a minus sign if it is negative.
pub open spec fn decimal_text(n: int) -> Seq<char> {
    if n < 0 {
        seq!['-'] + digits((-n) as nat)
    } else {
        digits(n as nat)
    }
}

/// The text of the first `n` of `items`, with commas between them.
pub open spec fn array_text(items: Seq<JsonView>, n: nat) -> Seq<char>
    decreases items, n,
{
    if n == 0 || n > items.len() {
        Seq::empty()
    } else if n == 1 {
        json_text(items[0])
    } else {
        array_text(items, (n - 1) as nat) + seq![','] + json_text(items[n - 1])
    }
}

/// The text of the first `n` of `members`, each as its quoted key, a colon
/// and its value, with commas between them.
pub open spec fn object_text(members: Seq<MemberView>, n: nat) -> Seq<char>
    decreases members, n,
{
    if n == 0 || n > members.len() {
        Seq::empty()
    } else if n == 1 {
        json_quoted(members[0].key) + seq![':'] + json_text(members[0].value)
    } else {
        object_text(members, (n - 1) as nat) + seq![','] + json_quoted(members[n - 1].key) + seq![
            ':',
        ] + json_text(members[n - 1].value)
    }
}

/// The text of a JSON value.
pub open spec fn json_text(j: JsonView) -> Seq<char>
    decreases j,
{
    match j {
        JsonView::Null => "null"@,
        JsonView::Bool(b) => if b {
            "true"@
        } else {
            "false"@
        },
        JsonView::Number(n) => decimal_text(n),
        JsonView::Text(s) => json_quoted(s),
        JsonView::Array(items) => seq!['['] + array_text(items, items.len()) + seq![']'],
        JsonView::Object(members) => seq!['{'] + object_text(members, members.len()) + seq!['}'],
    }
}

fn push_digits(out: &mut String, n: u64)
    ensures
        final(out)@ == old(out)@ + digits(n as nat),
    decreases n,
{
    if n >= 10 {
        push_digits(out, n / 10);
    }
    push_char(out, ('0' as u8 + (n % 10) as u8) as char);
    assert(out@ =~= old(out)@ + digits(n as nat));
}

fn push_decimal(out: &mut String, n: i64)
    ensures
        final(out)@ == old(out)@ + decimal_text(n as int),
{
    if n < 0 {
        push_char(out, '-');
        push_digits(out, (-(n as i128)) as u64);
        assert(out@ =~= old(out)@ + decimal_text(n as int));
    } else {
        push_digits(out, n as u64);
    }
}

impl Json {
    /// A JSON string holding `text`.
    pub fn text(text: &str) -> (j: Json)
        ensures
            j@ == JsonView::Text(text@),
    {
        Json::Text(text.to_owned())
    }

    /// Appends the text of this value to `out`.
    pub fn write_to(&self, out: &mut String)
        ensures
            final(out)@ == old(out)@ + json_text(self@),
        decreases self,
    {
        broadcast use vstd::std_specs::vec::axiom_vec_index_decreases;

        match self {
            Json::Null => {
                out.append("null");
            },
            Json::Bool(b) => {
                if *b {
                    out.append("true");
                } else {
                    out.append("false");
                }
            },
            Json::Number(n) => {
                push_decimal(out, *n);
            },
            Json::Text(s) => {
                let literal = quote(s.as_str());
                out.append(literal.as_str());
            },
            Json::Array(items) => {
                let ghost views = self@->Array_0;
                push_char(out, '[');
                let ghost opened = out@;
                let mut i: usize = 0;
                while i < items.len()
                    invariant
                        i <= items@.len(),
                        self == Json::Array(*items),
                        views == self@->Array_0,
                        views.len() == items@.len(),
                        out@ == opened + array_text(views, i as nat),
                    decreases items@.len() - i,
                {
                    if i > 0 {
                        push_char(out, ',');
                    }
                    assert(views[i as int] == items@[i as int]@);
                    items[i].write_to(out);
                    assert(out@ =~= opened + array_text(views, (i + 1) as nat));
                    i += 1;
                }
                push_char(out, ']');
                assert(out@ =~= old(out)@ + json_text(self@));
            },
            Json::Object(members) => {
                let ghost views = self@->Object_0;
                push_char(out, '{');
                let ghost opened = out@;
                let mut i: usize = 0;
                while i < members.len()
                    invariant
                        i <= members@.len(),
                        self == Json::Object(*members),
                        views == self@->Object_0,
                        views.len() == members@.len(),
                        out@ == opened + object_text(views, i as nat),
                    decreases members@.len() - i,
                {
                    if i > 0 {
                        push_char(out, ',');
                    }
                    assert(views[i as int] == members@[i as int]@);
                    let literal = quote(members[i].key.as_str());
                    out.append(literal.as_str());
                    push_char(out, ':');
                    members[i].value.write_to(out);
                    assert(out@ =~= opened + object_text(views, (i + 1) as nat));
                    i += 1;
                }
                push_char(out, '}');
                assert(out@ =~= old(out)@ + json_text(self@));
            },
        }
    }

    /// The text of this value.
    pub fn render(&self) -> (text: String)
        ensures
            text@ == json_text(self@),
    {
        let mut text = String::new();
        self.write_to(&mut text);
        assert(text@ =~= json_text(self@));
        text
    }
}

} // verus!
