//! JSON text: string literals, numbers, and the two small bodies that the
//! service answers with.
//!
//! The service writes its JSON itself, member by member, so that what it sends
//! can be stated exactly. Only the escaping of a string is left to
//! `serde_json`.

use vstd::prelude::*;
use vstd::string::StringExecFns;

verus! {

/// The JSON string literal that `serde_json::to_string` writes for `text`: the
/// text between double quotes, escaped as JSON asks. It depends on the text
/// alone.
pub uninterp spec fn json_string(text: Seq<char>) -> Seq<char>;

/// `serde_json::to_string` on a string slice. The contract names the text that
/// it returns. It also claims that a text is returned: `to_string` fails only
/// where the value's `Serialize` impl fails or where a map has a key that is no
/// string, and a string slice is neither; it is written, escaped, into a byte
/// vector that grows as needed.
#[verifier::external_body]
fn serialize_string(text: &str) -> (r: Option<String>)
    ensures
        r is Some,
        r matches Some(literal) ==> literal@ == json_string(text@),
{
    serde_json::to_string(text).ok()
}

/// The JSON string literal for `text`.
pub fn quote(text: &str) -> (r: String)
    ensures
        r@ == json_string(text@),
{
    match serialize_string(text) {
        Some(literal) => literal,
        // Never taken: a string slice always serializes.
        None => String::new(),
    }
}

/// The decimal digit `d`.
pub open spec fn digit(d: nat) -> char {
    if d == 0 {
        '0'
    } else if d == 1 {
        '1'
    } else if d == 2 {
        '2'
    } else if d == 3 {
        '3'
    } else if d == 4 {
        '4'
    } else if d == 5 {
        '5'
    } else if d == 6 {
        '6'
    } else if d == 7 {
        '7'
    } else if d == 8 {
        '8'
    } else {
        '9'
    }
}

/// `n` in decimal, without sign and without leading zeros.
pub open spec fn decimal(n: nat) -> Seq<char>
    decreases n,
{
    if n < 10 {
        seq![digit(n)]
    } else {
        decimal(n / 10).push(digit(n % 10))
    }
}

fn digit_text(d: u64) -> (r: &'static str)
    requires
        d < 10,
    ensures
        r@ == seq![digit(d as nat)],
{
    proof {
        reveal_strlit("0");
        reveal_strlit("1");
        reveal_strlit("2");
        reveal_strlit("3");
        reveal_strlit("4");
        reveal_strlit("5");
        reveal_strlit("6");
        reveal_strlit("7");
        reveal_strlit("8");
        reveal_strlit("9");
    }
    let r = if d == 0 {
        "0"
    } else if d == 1 {
        "1"
    } else if d == 2 {
        "2"
    } else if d == 3 {
        "3"
    } else if d == 4 {
        "4"
    } else if d == 5 {
        "5"
    } else if d == 6 {
        "6"
    } else if d == 7 {
        "7"
    } else if d == 8 {
        "8"
    } else {
        "9"
    };
    r
}

/// `n` in decimal, as JSON writes a number.
pub fn decimal_text(n: u64) -> (r: String)
    ensures
        r@ == decimal(n as nat),
    decreases n,
{
    if n < 10 {
        String::from_str(digit_text(n))
    } else {
        let mut text = decimal_text(n / 10);
        text.append(digit_text(n % 10));
        text
    }
}

/// The texts of `parts`, in the same order.
pub open spec fn texts(parts: Seq<String>) -> Seq<Seq<char>> {
    parts.map_values(|s: String| s@)
}

/// `parts` one after the other, with `sep` between neighbours.
pub open spec fn joined(parts: Seq<Seq<char>>, sep: Seq<char>) -> Seq<char>
    decreases parts.len(),
{
    if parts.len() == 0 {
        Seq::empty()
    } else if parts.len() == 1 {
        parts[0]
    } else {
        joined(parts.drop_last(), sep) + sep + parts.last()
    }
}

/// `parts` one after the other, with `sep` between neighbours.
pub fn join(parts: &Vec<String>, sep: &str) -> (r: String)
    ensures
        r@ == joined(texts(parts@), sep@),
{
    let n = parts.len();
    let mut out = String::new();
    let mut i: usize = 0;
    while i < n
        invariant
            i <= n,
            n == parts.len(),
            out@ == joined(texts(parts@).take(i as int), sep@),
        decreases n - i,
    {
        proof {
            let now = texts(parts@).take(i as int + 1);
            assert(now.drop_last() =~= texts(parts@).take(i as int));
        }
        if i > 0 {
            out.append(sep);
        }
        out.append(parts[i].as_str());
        i += 1;
    }
    assert(texts(parts@).take(n as int) =~= texts(parts@));
    out
}

/// One member of an object: the name as a string literal, a colon, and the
/// value as it is written.
pub open spec fn member(name: Seq<char>, value: Seq<char>) -> Seq<char> {
    json_string(name) + ":"@ + value
}

/// An object with the given members, in order and without white space.
pub open spec fn object_json(members: Seq<Seq<char>>) -> Seq<char> {
    "{"@ + joined(members, ","@) + "}"@
}

/// One member of an object.
pub fn member_text(name: &str, value: &str) -> (r: String)
    ensures
        r@ == member(name@, value@),
{
    let mut out = quote(name);
    out.append(":");
    out.append(value);
    out
}

/// An object with the given members.
pub fn object_text(members: &Vec<String>) -> (r: String)
    ensures
        r@ == object_json(texts(members@)),
{
    let mut out = String::from_str("{");
    out.append(join(members, ",").as_str());
    out.append("}");
    out
}

/// The body that reports the host: an object with the members `hostname`,
/// `pid` and `uptime`, in this order. The name is a string, the two numbers
/// are written in decimal.
pub open spec fn host_info_json(hostname: Seq<char>, pid: u32, uptime: u64) -> Seq<char> {
    object_json(
        seq![
            member("hostname"@, json_string(hostname)),
            member("pid"@, decimal(pid as nat)),
            member("uptime"@, decimal(uptime as nat)),
        ],
    )
}

/// The body that reports the host.
pub fn host_info_body(hostname: &str, pid: u32, uptime: u64) -> (r: String)
    ensures
        r@ == host_info_json(hostname@, pid, uptime),
{
    let mut members: Vec<String> = Vec::new();
    members.push(member_text("hostname", quote(hostname).as_str()));
    members.push(member_text("pid", decimal_text(pid as u64).as_str()));
    members.push(member_text("uptime", decimal_text(uptime).as_str()));
    assert(texts(members@) =~= seq![
        member("hostname"@, json_string(hostname@)),
        member("pid"@, decimal(pid as nat)),
        member("uptime"@, decimal(uptime as nat)),
    ]);
    object_text(&members)
}

/// The body that reports a failure: an object whose only member, `error`,
/// holds the message.
pub open spec fn error_json(message: Seq<char>) -> Seq<char> {
    object_json(seq![member("error"@, json_string(message))])
}

/// The body that reports a failure.
pub fn error_body(message: &str) -> (r: String)
    ensures
        r@ == error_json(message@),
{
    let mut members: Vec<String> = Vec::new();
    members.push(member_text("error", quote(message).as_str()));
    object_text(&members)
}

} // verus!
