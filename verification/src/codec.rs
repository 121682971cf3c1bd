//! The serialized form of states and records. Every state serializes to its
//! lowercase tag string; the error variant serializes as a single-key mapping
//! carrying the numeric code. A record serializes to a fixed field order:
//! `profile_url`, `profile_name`, `profile_status`, `download_size_mb`.

use crate::record::RecordModel;
use crate::record::Streamer;
use crate::state::StreamerState;
use crate::text::str_eq;
use vstd::prelude::*;
use vstd::string::StringExecFns;

verus! {

/// The character for one decimal digit.
pub open spec fn dec_digit_char(d: nat) -> char {
    if d == 0 {
        '0'
    } else if d == 1 {
        '1'
    } else if d == 2 {
        '2'
    } else if d == 3 {
        '3'
    } else if d == 4 {
        '4'
    } else if d == 5 {
        '5'
    } else if d == 6 {
        '6'
    } else if d == 7 {
        '7'
    } else if d == 8 {
        '8'
    } else {
        '9'
    }
}

/// The decimal representation of a number, without leading zeros.
pub open spec fn dec_str(n: nat) -> Seq<char>
    decreases n,
{
    if n < 10 {
        seq![dec_digit_char(n)]
    } else {
        dec_str(n / 10).push(dec_digit_char(n % 10))
    }
}

/// The numeric value of one digit character; 10 for a non-digit.
pub open spec fn dec_digit_val(c: char) -> nat {
    if c == '0' {
        0
    } else if c == '1' {
        1
    } else if c == '2' {
        2
    } else if c == '3' {
        3
    } else if c == '4' {
        4
    } else if c == '5' {
        5
    } else if c == '6' {
        6
    } else if c == '7' {
        7
    } else if c == '8' {
        8
    } else if c == '9' {
        9
    } else {
        10
    }
}

pub open spec fn is_dec_digit(c: char) -> bool {
    dec_digit_val(c) < 10
}

/// The numeric value of a digit string.
pub open spec fn dec_val(s: Seq<char>) -> nat
    decreases s.len(),
{
    if s.len() == 0 {
        0
    } else {
        dec_val(s.drop_last()) * 10 + dec_digit_val(s.last())
    }
}

/// A canonical digit string: nonempty, all digits, no leading zero except in
/// `"0"` itself.
pub open spec fn canonical_dec(s: Seq<char>) -> bool {
    &&& s.len() > 0
    &&& forall|i: int| 0 <= i < s.len() ==> is_dec_digit(#[trigger] s[i])
    &&& (s.len() > 1 ==> s[0] != '0')
}

/// The decimal representation of `n` evaluates back to `n` and is canonical.
pub proof fn lemma_dec_str_val(n: nat)
    ensures
        dec_val(dec_str(n)) == n,
        canonical_dec(dec_str(n)),
        n > 0 ==> dec_str(n)[0] != '0',
    decreases n,
{
    if n < 10 {
        let s = dec_str(n);
        assert(s =~= seq![dec_digit_char(n)]);
        assert(s.drop_last() =~= Seq::<char>::empty());
        assert(dec_val(Seq::<char>::empty()) == 0);
        assert(s.last() == dec_digit_char(n));
        assert(dec_val(s) == dec_val(s.drop_last()) * 10 + dec_digit_val(s.last()));
        assert(dec_digit_val(dec_digit_char(n)) == n);
    } else {
        lemma_dec_str_val(n / 10);
        let s = dec_str(n);
        assert(s == dec_str(n / 10).push(dec_digit_char(n % 10)));
        assert(s.drop_last() =~= dec_str(n / 10));
        assert(s.last() == dec_digit_char(n % 10));
        assert(dec_val(s) == dec_val(dec_str(n / 10)) * 10 + dec_digit_val(
            dec_digit_char(n % 10),
        ));
        assert(dec_digit_val(dec_digit_char(n % 10)) == n % 10);
        assert(n / 10 * 10 + n % 10 == n) by {
            vstd::arithmetic::div_mod::lemma_fundamental_div_mod(n as int, 10);
        }
        assert(s[0] == dec_str(n / 10)[0]);
    }
}

/// The single-character string for one digit.
fn digit_str(d: u64) -> (r: &'static str)
    requires
        d < 10,
    ensures
        r@ == seq![dec_digit_char(d as nat)],
{
    proof {
        reveal_strlit("0");
        reveal_strlit("1");
        reveal_strlit("2");
        reveal_strlit("3");
        reveal_strlit("4");
        reveal_strlit("5");
        reveal_strlit("6");
        reveal_strlit("7");
        reveal_strlit("8");
        reveal_strlit("9");
    }
    let r = if d == 0 {
        "0"
    } else if d == 1 {
        "1"
    } else if d == 2 {
        "2"
    } else if d == 3 {
        "3"
    } else if d == 4 {
        "4"
    } else if d == 5 {
        "5"
    } else if d == 6 {
        "6"
    } else if d == 7 {
        "7"
    } else if d == 8 {
        "8"
    } else {
        "9"
    };
    proof {
        assert(r@ =~= seq![dec_digit_char(d as nat)]);
    }
    r
}

/// Formats a number in decimal.
pub fn u64_to_dec(n: u64) -> (r: String)
    ensures
        r@ == dec_str(n as nat),
    decreases n,
{
    if n < 10 {
        String::from_str(digit_str(n))
    } else {
        let mut s = u64_to_dec(n / 10);
        s.append(digit_str(n % 10));
        proof {
            assert(s@ =~= dec_str(n as nat / 10).push(dec_digit_char(n as nat % 10)));
        }
        s
    }
}

/// The serialized form of a state: the lowercase tag in quotes, except the
/// error variant, which is a single-key mapping carrying the numeric code.
pub open spec fn state_json(s: StreamerState) -> Seq<char> {
    match s {
        StreamerState::Added => "\"added\""@,
        StreamerState::Waiting => "\"waiting\""@,
        StreamerState::Downloading => "\"downloading\""@,
        StreamerState::Stopped => "\"stopped\""@,
        StreamerState::Stopping => "\"stopping\""@,
        StreamerState::Error(c) => "{\"error\":"@ + dec_str(c as nat) + "}"@,
    }
}

/// Serializes a state.
pub fn state_to_json(s: StreamerState) -> (r: String)
    ensures
        r@ == state_json(s),
{
    match s {
        StreamerState::Added => String::from_str("\"added\""),
        StreamerState::Waiting => String::from_str("\"waiting\""),
        StreamerState::Downloading => String::from_str("\"downloading\""),
        StreamerState::Stopped => String::from_str("\"stopped\""),
        StreamerState::Stopping => String::from_str("\"stopping\""),
        StreamerState::Error(c) => {
            let mut out = String::from_str("{\"error\":");
            let digits = u64_to_dec(c as u64);
            out.append(digits.as_str());
            out.append("}");
            proof {
                assert(out@ =~= state_json(s));
            }
            out
        },
    }
}

/// The value of a digit string prefix never exceeds the whole string's value.
pub proof fn lemma_dec_val_prefix_le(s: Seq<char>, k: int)
    requires
        0 <= k <= s.len(),
    ensures
        dec_val(s.subrange(0, k)) <= dec_val(s),
    decreases s.len(),
{
    if k == s.len() {
        assert(s.subrange(0, k) =~= s);
    } else {
        lemma_dec_val_prefix_le(s.drop_last(), k);
        assert(s.drop_last().subrange(0, k) =~= s.subrange(0, k));
        assert(dec_val(s) == dec_val(s.drop_last()) * 10 + dec_digit_val(s.last()));
        assert(dec_val(s.drop_last()) * 10 >= dec_val(s.drop_last()));
    }
}

/// The opening of the error variant's serialized form.
pub open spec fn error_prefix() -> Seq<char> {
    "{\"error\":"@
}

/// The digit characters between the error prefix and the closing brace.
pub open spec fn error_body(j: Seq<char>) -> Seq<char> {
    j.subrange(error_prefix().len() as int, j.len() - 1)
}

/// Whether `j` is the serialized form of some error state: the error prefix,
/// a canonical digit string whose value fits the code's range, and a closing
/// brace.
pub open spec fn parses_error_json(j: Seq<char>) -> bool {
    &&& j.len() >= error_prefix().len() + 2
    &&& j.subrange(0, error_prefix().len() as int) == error_prefix()
    &&& j.last() == '}'
    &&& canonical_dec(error_body(j))
    &&& dec_val(error_body(j)) <= u32::MAX
}

/// The state a serialized form denotes, if any: one of the five quoted tags,
/// or an error mapping.
pub open spec fn spec_parse_state_json(j: Seq<char>) -> Option<StreamerState> {
    if j == "\"added\""@ {
        Some(StreamerState::Added)
    } else if j == "\"waiting\""@ {
        Some(StreamerState::Waiting)
    } else if j == "\"downloading\""@ {
        Some(StreamerState::Downloading)
    } else if j == "\"stopped\""@ {
        Some(StreamerState::Stopped)
    } else if j == "\"stopping\""@ {
        Some(StreamerState::Stopping)
    } else if parses_error_json(j) {
        Some(StreamerState::Error(dec_val(error_body(j)) as u32))
    } else {
        None
    }
}

/// Law: serializing any state and parsing the result yields the state back.
/// Every variant but the error one round-trips through its exact lowercase
/// tag string, and the error variant through the single-key mapping carrying
/// its code.
pub proof fn lemma_state_json_round_trip(s: StreamerState)
    ensures
        spec_parse_state_json(state_json(s)) == Some(s),
{
    reveal_strlit("\"added\"");
    reveal_strlit("\"waiting\"");
    reveal_strlit("\"downloading\"");
    reveal_strlit("\"stopped\"");
    reveal_strlit("\"stopping\"");
    reveal_strlit("{\"error\":");
    reveal_strlit("}");
    assert("\"added\""@.len() == 7);
    assert("\"waiting\""@.len() == 9);
    assert("\"downloading\""@.len() == 13);
    assert("\"stopped\""@.len() == 9);
    assert("\"stopping\""@.len() == 10);
    assert("\"waiting\""@[1] == 'w');
    assert("\"stopped\""@[1] == 's');
    assert("\"waiting\""@ != "\"stopped\""@);
    match s {
        StreamerState::Added => {},
        StreamerState::Waiting => {},
        StreamerState::Downloading => {},
        StreamerState::Stopped => {},
        StreamerState::Stopping => {},
        StreamerState::Error(c) => {
            lemma_dec_str_val(c as nat);
            let j = state_json(s);
            let p = error_prefix();
            let d = dec_str(c as nat);
            assert(j == p + d + "}"@);
            assert(j.len() == p.len() + d.len() + 1);
            assert(j[0] == '{');
            assert(j != "\"added\""@);
            assert(j != "\"waiting\""@);
            assert(j != "\"downloading\""@);
            assert(j != "\"stopped\""@);
            assert(j != "\"stopping\""@);
            assert(j.subrange(0, p.len() as int) =~= p);
            assert(j.last() == '}');
            assert(error_body(j) =~= d);
            assert(dec_val(error_body(j)) == c as nat);
            assert(canonical_dec(error_body(j)));
            assert(parses_error_json(j));
        },
    }
}

/// The numeric value of one digit character, decided on a concrete value;
/// 10 for a non-digit.
fn digit_val(c: char) -> (r: u64)
    ensures
        r as nat == dec_digit_val(c),
{
    if c == '0' {
        0
    } else if c == '1' {
        1
    } else if c == '2' {
        2
    } else if c == '3' {
        3
    } else if c == '4' {
        4
    } else if c == '5' {
        5
    } else if c == '6' {
        6
    } else if c == '7' {
        7
    } else if c == '8' {
        8
    } else if c == '9' {
        9
    } else {
        10
    }
}

/// Parses the serialized form of a state: exactly the five quoted tags and
/// well-formed error mappings are accepted.
#[verifier::loop_isolation(false)]
pub fn state_from_json(j: &str) -> (r: Option<StreamerState>)
    ensures
        r == spec_parse_state_json(j@),
{
    if str_eq(j, "\"added\"") {
        return Some(StreamerState::Added);
    }
    if str_eq(j, "\"waiting\"") {
        return Some(StreamerState::Waiting);
    }
    if str_eq(j, "\"downloading\"") {
        return Some(StreamerState::Downloading);
    }
    if str_eq(j, "\"stopped\"") {
        return Some(StreamerState::Stopped);
    }
    if str_eq(j, "\"stopping\"") {
        return Some(StreamerState::Stopping);
    }
    proof {
        reveal_strlit("{\"error\":");
    }
    let n = j.unicode_len();
    if n < 11 {
        return None;
    }
    let p = "{\"error\":";
    let mut i: usize = 0;
    while i < 9
        invariant
            n == j@.len(),
            n >= 11,
            i <= 9,
            p@ == error_prefix(),
            p@.len() == 9,
            forall|t: int| 0 <= t < i ==> j@[t] == p@[t],
        decreases 9 - i,
    {
        if j.get_char(i) != p.get_char(i) {
            proof {
                assert(j@.subrange(0, 9)[i as int] == j@[i as int]);
                assert(!parses_error_json(j@)) by {
                    if j@.subrange(0, error_prefix().len() as int) == error_prefix() {
                        assert(j@.subrange(0, 9)[i as int] == error_prefix()[i as int]);
                    }
                }
            }
            return None;
        }
        i = i + 1;
    }
    proof {
        assert(j@.subrange(0, 9) =~= error_prefix());
    }
    if j.get_char(n - 1) != '}' {
        return None;
    }
    if n > 11 && j.get_char(9) == '0' {
        proof {
            assert(error_body(j@)[0] == j@[9]);
            assert(error_body(j@).len() > 1);
            assert(!canonical_dec(error_body(j@)));
        }
        return None;
    }
    let ghost body = j@.subrange(9, n as int - 1);
    proof {
        assert(body =~= error_body(j@));
        assert(j@.subrange(9, 9) =~= Seq::<char>::empty());
        assert(dec_val(Seq::<char>::empty()) == 0);
    }
    let mut val: u64 = 0;
    let mut k: usize = 9;
    while k < n - 1
        invariant
            n == j@.len(),
            n >= 11,
            9 <= k <= n - 1,
            body == error_body(j@),
            body == j@.subrange(9, n as int - 1),
            val == dec_val(j@.subrange(9, k as int)),
            val <= u32::MAX,
            forall|t: int| 9 <= t < k ==> is_dec_digit(#[trigger] j@[t]),
        decreases n - 1 - k,
    {
        let c = j.get_char(k);
        let d = digit_val(c);
        if d >= 10 {
            proof {
                assert(body[k as int - 9] == j@[k as int]);
                assert(!canonical_dec(body));
            }
            return None;
        }
        let newval = val * 10 + d;
        proof {
            let s1 = j@.subrange(9, k as int + 1);
            assert(s1.drop_last() =~= j@.subrange(9, k as int));
            assert(s1.last() == j@[k as int]);
            assert(dec_val(s1) == dec_val(j@.subrange(9, k as int)) * 10 + dec_digit_val(
                j@[k as int],
            ));
        }
        if newval > 0xFFFF_FFFF {
            proof {
                lemma_dec_val_prefix_le(body, k as int + 1 - 9);
                assert(body.subrange(0, k as int + 1 - 9) =~= j@.subrange(9, k as int + 1));
                assert(dec_val(body) > u32::MAX);
            }
            return None;
        }
        val = newval;
        k = k + 1;
    }
    proof {
        assert(j@.subrange(9, n as int - 1) == body);
        assert(val == dec_val(body));
        assert(forall|t: int| 0 <= t < body.len() ==> body[t] == j@[t + 9]);
        assert(canonical_dec(body));
        assert(parses_error_json(j@));
    }
    Some(StreamerState::Error(val as u32))
}

/// The display label of a state: the variant's name, with the error code in
/// parentheses on the error variant.
pub open spec fn state_label(s: StreamerState) -> Seq<char> {
    match s {
        StreamerState::Added => "Added"@,
        StreamerState::Waiting => "Waiting"@,
        StreamerState::Downloading => "Downloading"@,
        StreamerState::Stopped => "Stopped"@,
        StreamerState::Stopping => "Stopping"@,
        StreamerState::Error(c) => "Error("@ + dec_str(c as nat) + ")"@,
    }
}

/// Renders the display label of a state.
pub fn state_label_string(s: StreamerState) -> (r: String)
    ensures
        r@ == state_label(s),
{
    match s {
        StreamerState::Added => String::from_str("Added"),
        StreamerState::Waiting => String::from_str("Waiting"),
        StreamerState::Downloading => String::from_str("Downloading"),
        StreamerState::Stopped => String::from_str("Stopped"),
        StreamerState::Stopping => String::from_str("Stopping"),
        StreamerState::Error(c) => {
            let mut out = String::from_str("Error(");
            let digits = u64_to_dec(c as u64);
            out.append(digits.as_str());
            out.append(")");
            proof {
                assert(out@ =~= state_label(s));
            }
            out
        },
    }
}

/// The serialized form of a record: the four fields in their fixed order.
pub open spec fn streamer_json(m: RecordModel) -> Seq<char> {
    "{\"profile_url\":\""@ + m.url + "\",\"profile_name\":\""@ + m.name
        + "\",\"profile_status\":"@ + state_json(m.status) + ",\"download_size_mb\":"@ + dec_str(
        m.size,
    ) + "}"@
}

/// Serializes a record.
pub fn streamer_to_json(rec: &Streamer) -> (r: String)
    ensures
        r@ == streamer_json(rec@),
{
    let mut out = String::from_str("{\"profile_url\":\"");
    out.append(rec.profile_url.as_str());
    out.append("\",\"profile_name\":\"");
    out.append(rec.profile_name.as_str());
    out.append("\",\"profile_status\":");
    let st = state_to_json(rec.profile_status);
    out.append(st.as_str());
    out.append(",\"download_size_mb\":");
    let sz = u64_to_dec(rec.download_size_mb);
    out.append(sz.as_str());
    out.append("}");
    proof {
        assert(out@ =~= streamer_json(rec@));
    }
    out
}

} // verus!
