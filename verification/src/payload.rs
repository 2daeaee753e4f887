//! Typed payloads and the payload codec.
//!
//! A `CreateUser` payload travels as a JSON object with exactly the three
//! members `name` (string), `email` (string) and `role` (number), in any
//! order, with optional whitespace between tokens. Strings know the two
//! escapes `\"` and `\\` and refuse unescaped control characters; the role
//! is a plain decimal number up to 255 without a leading zero. Anything
//! else — other members, other value kinds, duplicated keys, trailing
//! text — does not satisfy the schema and is rejected, never panicking.

use vstd::prelude::*;

verus! {

/// Payload of the get-user operation: the identifier (or email) of the
/// user to fetch.
#[derive(Clone, Debug, PartialEq, Eq)]
pub struct GetUserPayload {
    pub id_or_email: String,
}

/// Payload of the create-user operation.
#[derive(Clone, Debug, PartialEq, Eq)]
pub struct CreateUserPayload {
    pub name: String,
    pub email: String,
    pub role: u8,
}

/// Mathematical image of [`CreateUserPayload`].
pub struct CreateUserPayloadModel {
    pub name: Seq<char>,
    pub email: Seq<char>,
    pub role: u8,
}

impl CreateUserPayload {
    pub open spec fn model(&self) -> CreateUserPayloadModel {
        CreateUserPayloadModel { name: self.name@, email: self.email@, role: self.role }
    }
}

/// A decoded JSON scalar: the only value kinds the schema knows.
#[derive(Clone, Debug)]
pub enum JsonValue {
    Str(String),
    Num(u8),
}

/// Mathematical image of [`JsonValue`].
pub enum JsonValueModel {
    Str(Seq<char>),
    Num(u8),
}

impl JsonValue {
    pub open spec fn model(&self) -> JsonValueModel {
        match self {
            JsonValue::Str(t) => JsonValueModel::Str(t@),
            JsonValue::Num(v) => JsonValueModel::Num(*v),
        }
    }
}

pub open spec fn is_ws(c: char) -> bool {
    c == ' ' || c == '\t' || c == '\n' || c == '\r'
}

/// First index at or after `i` holding a non-whitespace character (or the
/// end of the text).
pub open spec fn spec_skip_ws(s: Seq<char>, i: int) -> int
    decreases s.len() - i,
{
    if 0 <= i < s.len() && is_ws(s[i]) {
        spec_skip_ws(s, i + 1)
    } else {
        i
    }
}

/// The body of a JSON string, read from `i` up to its closing quote:
/// `\"` and `\\` are unescaped, a control character or a dangling escape
/// refuses, and the result is the decoded text with the index after the
/// closing quote.
pub open spec fn spec_parse_string_body(s: Seq<char>, i: int) -> Option<(Seq<char>, int)>
    decreases s.len() - i,
{
    if i < 0 || i >= s.len() {
        None
    } else if s[i] == '"' {
        Some((Seq::<char>::empty(), i + 1))
    } else if s[i] == '\\' {
        if i + 1 < s.len() && (s[i + 1] == '"' || s[i + 1] == '\\') {
            match spec_parse_string_body(s, i + 2) {
                Some((t, j)) => Some((seq![s[i + 1]] + t, j)),
                None => None,
            }
        } else {
            None
        }
    } else if (s[i] as u32) < 32 {
        None
    } else {
        match spec_parse_string_body(s, i + 1) {
            Some((t, j)) => Some((seq![s[i]] + t, j)),
            None => None,
        }
    }
}

/// A JSON string starting with its opening quote at `i`.
pub open spec fn spec_parse_string(s: Seq<char>, i: int) -> Option<(Seq<char>, int)> {
    if 0 <= i < s.len() && s[i] == '"' {
        spec_parse_string_body(s, i + 1)
    } else {
        None
    }
}

pub open spec fn spec_is_digit(c: char) -> bool {
    48 <= c as u32 <= 57
}

pub open spec fn spec_digit_val(c: char) -> int {
    c as u32 - 48
}

/// A decimal number at `i`: one to three digits, no leading zero, value at
/// most 255, not followed by a further digit.
pub open spec fn spec_parse_number(s: Seq<char>, i: int) -> Option<(u8, int)> {
    if !(0 <= i < s.len() && spec_is_digit(s[i])) {
        None
    } else if s[i] == '0' {
        if i + 1 < s.len() && spec_is_digit(s[i + 1]) {
            None
        } else {
            Some((0u8, i + 1))
        }
    } else if i + 1 < s.len() && spec_is_digit(s[i + 1]) {
        if i + 2 < s.len() && spec_is_digit(s[i + 2]) {
            if i + 3 < s.len() && spec_is_digit(s[i + 3]) {
                None
            } else {
                let v = spec_digit_val(s[i]) * 100 + spec_digit_val(s[i + 1]) * 10
                    + spec_digit_val(s[i + 2]);
                if v <= 255 {
                    Some((v as u8, i + 3))
                } else {
                    None
                }
            }
        } else {
            Some(((spec_digit_val(s[i]) * 10 + spec_digit_val(s[i + 1])) as u8, i + 2))
        }
    } else {
        Some((spec_digit_val(s[i]) as u8, i + 1))
    }
}

/// One `key: value` member, with whitespace allowed around the tokens.
pub open spec fn spec_parse_member(s: Seq<char>, i: int) -> Option<
    ((Seq<char>, JsonValueModel), int),
> {
    let i1 = spec_skip_ws(s, i);
    match spec_parse_string(s, i1) {
        Some((key, j)) => {
            let j1 = spec_skip_ws(s, j);
            if j1 < s.len() && s[j1] == ':' {
                let j2 = spec_skip_ws(s, j1 + 1);
                if j2 < s.len() && s[j2] == '"' {
                    match spec_parse_string(s, j2) {
                        Some((v, k)) => Some(((key, JsonValueModel::Str(v)), k)),
                        None => None,
                    }
                } else {
                    match spec_parse_number(s, j2) {
                        Some((v, k)) => Some(((key, JsonValueModel::Num(v)), k)),
                        None => None,
                    }
                }
            } else {
                None
            }
        },
        None => None,
    }
}

/// A whole payload text: an object of exactly three members and nothing
/// but whitespace after it.
pub open spec fn spec_parse_object3(s: Seq<char>) -> Option<
    ((Seq<char>, JsonValueModel), (Seq<char>, JsonValueModel), (Seq<char>, JsonValueModel)),
> {
    let i0 = spec_skip_ws(s, 0);
    if i0 < s.len() && s[i0] == '{' {
        match spec_parse_member(s, i0 + 1) {
            Some((m1, a)) => {
                let a1 = spec_skip_ws(s, a);
                if a1 < s.len() && s[a1] == ',' {
                    match spec_parse_member(s, a1 + 1) {
                        Some((m2, b)) => {
                            let b1 = spec_skip_ws(s, b);
                            if b1 < s.len() && s[b1] == ',' {
                                match spec_parse_member(s, b1 + 1) {
                                    Some((m3, c)) => {
                                        let c1 = spec_skip_ws(s, c);
                                        if c1 < s.len() && s[c1] == '}' && spec_skip_ws(s, c1 + 1)
                                            == s.len() {
                                            Some((m1, m2, m3))
                                        } else {
                                            None
                                        }
                                    },
                                    None => None,
                                }
                            } else {
                                None
                            }
                        },
                        None => None,
                    }
                } else {
                    None
                }
            },
            None => None,
        }
    } else {
        None
    }
}

pub open spec fn spec_as_str(v: JsonValueModel) -> Option<Seq<char>> {
    match v {
        JsonValueModel::Str(t) => Some(t),
        JsonValueModel::Num(_) => None,
    }
}

pub open spec fn spec_as_num(v: JsonValueModel) -> Option<u8> {
    match v {
        JsonValueModel::Str(_) => None,
        JsonValueModel::Num(n) => Some(n),
    }
}

/// The string value of the member named `key`, among the three.
pub open spec fn spec_pick_str(
    m1: (Seq<char>, JsonValueModel),
    m2: (Seq<char>, JsonValueModel),
    m3: (Seq<char>, JsonValueModel),
    key: Seq<char>,
) -> Option<Seq<char>> {
    if m1.0 == key {
        spec_as_str(m1.1)
    } else if m2.0 == key {
        spec_as_str(m2.1)
    } else if m3.0 == key {
        spec_as_str(m3.1)
    } else {
        None
    }
}

/// The numeric value of the member named `key`, among the three.
pub open spec fn spec_pick_num(
    m1: (Seq<char>, JsonValueModel),
    m2: (Seq<char>, JsonValueModel),
    m3: (Seq<char>, JsonValueModel),
    key: Seq<char>,
) -> Option<u8> {
    if m1.0 == key {
        spec_as_num(m1.1)
    } else if m2.0 == key {
        spec_as_num(m2.1)
    } else if m3.0 == key {
        spec_as_num(m3.1)
    } else {
        None
    }
}

/// Builds the payload from three members: their keys must be pairwise
/// distinct and be exactly `name` (a string), `email` (a string) and
/// `role` (a number).
pub open spec fn spec_assemble(
    m1: (Seq<char>, JsonValueModel),
    m2: (Seq<char>, JsonValueModel),
    m3: (Seq<char>, JsonValueModel),
) -> Option<CreateUserPayloadModel> {
    if m1.0 != m2.0 && m1.0 != m3.0 && m2.0 != m3.0 {
        match (spec_pick_str(m1, m2, m3, "name"@), spec_pick_str(m1, m2, m3, "email"@),
        spec_pick_num(m1, m2, m3, "role"@)) {
            (Some(n), Some(e), Some(r)) => Some(
                CreateUserPayloadModel { name: n, email: e, role: r },
            ),
            _ => None,
        }
    } else {
        None
    }
}

/// What decoding a payload text yields: the payload when the text
/// satisfies the schema, nothing otherwise.
pub open spec fn spec_decode_create_user(s: Seq<char>) -> Option<CreateUserPayloadModel> {
    match spec_parse_object3(s) {
        Some((m1, m2, m3)) => spec_assemble(m1, m2, m3),
        None => None,
    }
}

fn skip_ws(s: &str, i: usize) -> (r: usize)
    requires
        i <= s@.len(),
    ensures
        r as int == spec_skip_ws(s@, i as int),
        i <= r <= s@.len(),
    decreases s@.len() - i,
{
    let n = s.unicode_len();
    if i < n {
        let c = s.get_char(i);
        if c == ' ' || c == '\t' || c == '\n' || c == '\r' {
            return skip_ws(s, i + 1);
        }
    }
    i
}

fn parse_string_body(s: &str, i: usize) -> (r: Option<(String, usize)>)
    requires
        i <= s@.len(),
    ensures
        match r {
            Some(p) => spec_parse_string_body(s@, i as int) == Some((p.0@, p.1 as int)) && i < p.1
                <= s@.len(),
            None => spec_parse_string_body(s@, i as int) is None,
        },
    decreases s@.len() - i,
{
    let n = s.unicode_len();
    if i >= n {
        return None;
    }
    let c = s.get_char(i);
    if c == '"' {
        return Some((String::new(), i + 1));
    }
    if c == '\\' {
        if i + 1 < n {
            let e = s.get_char(i + 1);
            if e == '"' || e == '\\' {
                match parse_string_body(s, i + 2) {
                    Some((t, j)) => {
                        let mut out = String::from_str(s.substring_char(i + 1, i + 2));
                        out.append(t.as_str());
                        proof {
                            assert(out@ =~= seq![s@[i + 1]] + t@);
                        }
                        return Some((out, j));
                    },
                    None => return None,
                }
            }
        }
        return None;
    }
    if (c as u32) < 32 {
        return None;
    }
    match parse_string_body(s, i + 1) {
        Some((t, j)) => {
            let mut out = String::from_str(s.substring_char(i, i + 1));
            out.append(t.as_str());
            proof {
                assert(out@ =~= seq![s@[i as int]] + t@);
            }
            Some((out, j))
        },
        None => None,
    }
}

fn parse_string(s: &str, i: usize) -> (r: Option<(String, usize)>)
    requires
        i <= s@.len(),
    ensures
        match r {
            Some(p) => spec_parse_string(s@, i as int) == Some((p.0@, p.1 as int)) && i < p.1
                <= s@.len(),
            None => spec_parse_string(s@, i as int) is None,
        },
{
    let n = s.unicode_len();
    if i < n && s.get_char(i) == '"' {
        parse_string_body(s, i + 1)
    } else {
        None
    }
}

fn is_digit(c: char) -> (r: bool)
    ensures
        r == spec_is_digit(c),
{
    let u = c as u32;
    48 <= u && u <= 57
}

fn parse_number(s: &str, i: usize) -> (r: Option<(u8, usize)>)
    requires
        i <= s@.len(),
    ensures
        match r {
            Some(p) => spec_parse_number(s@, i as int) == Some((p.0, p.1 as int)) && i < p.1
                <= s@.len(),
            None => spec_parse_number(s@, i as int) is None,
        },
{
    let n = s.unicode_len();
    if i >= n {
        return None;
    }
    let c0 = s.get_char(i);
    if !is_digit(c0) {
        return None;
    }
    if c0 == '0' {
        if i + 1 < n && is_digit(s.get_char(i + 1)) {
            return None;
        }
        return Some((0, i + 1));
    }
    let d0: u32 = (c0 as u32) - 48;
    if i + 1 < n && is_digit(s.get_char(i + 1)) {
        let d1: u32 = (s.get_char(i + 1) as u32) - 48;
        if i + 2 < n && is_digit(s.get_char(i + 2)) {
            let d2: u32 = (s.get_char(i + 2) as u32) - 48;
            if i + 3 < n && is_digit(s.get_char(i + 3)) {
                return None;
            }
            let v: u32 = d0 * 100 + d1 * 10 + d2;
            if v <= 255 {
                return Some((v as u8, i + 3));
            } else {
                return None;
            }
        }
        return Some(((d0 * 10 + d1) as u8, i + 2));
    }
    Some((d0 as u8, i + 1))
}

fn parse_member(s: &str, i: usize) -> (r: Option<((String, JsonValue), usize)>)
    requires
        i <= s@.len(),
    ensures
        match r {
            Some(p) => spec_parse_member(s@, i as int) == Some(((p.0.0@, p.0.1.model()),
            p.1 as int)) && p.1 <= s@.len(),
            None => spec_parse_member(s@, i as int) is None,
        },
{
    let n = s.unicode_len();
    let i1 = skip_ws(s, i);
    match parse_string(s, i1) {
        Some((key, j)) => {
            let j1 = skip_ws(s, j);
            if j1 < n && s.get_char(j1) == ':' {
                let j2 = skip_ws(s, j1 + 1);
                if j2 < n && s.get_char(j2) == '"' {
                    match parse_string(s, j2) {
                        Some((v, k)) => Some(((key, JsonValue::Str(v)), k)),
                        None => None,
                    }
                } else {
                    match parse_number(s, j2) {
                        Some((v, k)) => Some(((key, JsonValue::Num(v)), k)),
                        None => None,
                    }
                }
            } else {
                None
            }
        },
        None => None,
    }
}

fn parse_object3(s: &str) -> (r: Option<
    ((String, JsonValue), (String, JsonValue), (String, JsonValue)),
>)
    ensures
        match r {
            Some(p) => spec_parse_object3(s@) == Some(
                ((p.0.0@, p.0.1.model()), (p.1.0@, p.1.1.model()), (p.2.0@, p.2.1.model())),
            ),
            None => spec_parse_object3(s@) is None,
        },
{
    let n = s.unicode_len();
    let i0 = skip_ws(s, 0);
    if !(i0 < n && s.get_char(i0) == '{') {
        return None;
    }
    match parse_member(s, i0 + 1) {
        Some((m1, a)) => {
            let a1 = skip_ws(s, a);
            if !(a1 < n && s.get_char(a1) == ',') {
                return None;
            }
            match parse_member(s, a1 + 1) {
                Some((m2, b)) => {
                    let b1 = skip_ws(s, b);
                    if !(b1 < n && s.get_char(b1) == ',') {
                        return None;
                    }
                    match parse_member(s, b1 + 1) {
                        Some((m3, c)) => {
                            let c1 = skip_ws(s, c);
                            if c1 < n && s.get_char(c1) == '}' && skip_ws(s, c1 + 1) == n {
                                Some((m1, m2, m3))
                            } else {
                                None
                            }
                        },
                        None => None,
                    }
                },
                None => None,
            }
        },
        None => None,
    }
}

fn pick_str(
    m1: &(String, JsonValue),
    m2: &(String, JsonValue),
    m3: &(String, JsonValue),
    key: &String,
) -> (r: Option<String>)
    ensures
        r.deep_view() == spec_pick_str(
            (m1.0@, m1.1.model()),
            (m2.0@, m2.1.model()),
            (m3.0@, m3.1.model()),
            key@,
        ),
{
    if m1.0 == *key {
        match &m1.1 {
            JsonValue::Str(t) => Some(t.clone()),
            JsonValue::Num(_) => None,
        }
    } else if m2.0 == *key {
        match &m2.1 {
            JsonValue::Str(t) => Some(t.clone()),
            JsonValue::Num(_) => None,
        }
    } else if m3.0 == *key {
        match &m3.1 {
            JsonValue::Str(t) => Some(t.clone()),
            JsonValue::Num(_) => None,
        }
    } else {
        None
    }
}

fn pick_num(
    m1: &(String, JsonValue),
    m2: &(String, JsonValue),
    m3: &(String, JsonValue),
    key: &String,
) -> (r: Option<u8>)
    ensures
        r == spec_pick_num(
            (m1.0@, m1.1.model()),
            (m2.0@, m2.1.model()),
            (m3.0@, m3.1.model()),
            key@,
        ),
{
    if m1.0 == *key {
        match &m1.1 {
            JsonValue::Str(_) => None,
            JsonValue::Num(v) => Some(*v),
        }
    } else if m2.0 == *key {
        match &m2.1 {
            JsonValue::Str(_) => None,
            JsonValue::Num(v) => Some(*v),
        }
    } else if m3.0 == *key {
        match &m3.1 {
            JsonValue::Str(_) => None,
            JsonValue::Num(v) => Some(*v),
        }
    } else {
        None
    }
}

/// Decodes a payload text against the create-user schema. `None` exactly
/// when the text does not satisfy it.
pub fn decode_create_user(s: &str) -> (r: Option<CreateUserPayload>)
    ensures
        match r {
            Some(p) => spec_decode_create_user(s@) == Some(p.model()),
            None => spec_decode_create_user(s@) is None,
        },
{
    match parse_object3(s) {
        Some((m1, m2, m3)) => {
            if !(m1.0 != m2.0 && m1.0 != m3.0 && m2.0 != m3.0) {
                return None;
            }
            let name_key = "name".to_owned();
            let email_key = "email".to_owned();
            let role_key = "role".to_owned();
            let name = pick_str(&m1, &m2, &m3, &name_key);
            let email = pick_str(&m1, &m2, &m3, &email_key);
            let role = pick_num(&m1, &m2, &m3, &role_key);
            match (name, email, role) {
                (Some(n), Some(e), Some(v)) => Some(
                    CreateUserPayload { name: n, email: e, role: v },
                ),
                _ => None,
            }
        },
        None => None,
    }
}

/// `s` with `"` and `\` escaped, as the encoder writes a string body.
pub open spec fn spec_escape(s: Seq<char>) -> Seq<char>
    decreases s.len(),
{
    if s.len() == 0 {
        Seq::<char>::empty()
    } else {
        let head = if s[0] == '"' || s[0] == '\\' {
            seq!['\\', s[0]]
        } else {
            seq![s[0]]
        };
        head + spec_escape(s.drop_first())
    }
}

pub open spec fn spec_digit_char(d: int) -> char {
    if d == 0 {
        '0'
    } else if d == 1 {
        '1'
    } else if d == 2 {
        '2'
    } else if d == 3 {
        '3'
    } else if d == 4 {
        '4'
    } else if d == 5 {
        '5'
    } else if d == 6 {
        '6'
    } else if d == 7 {
        '7'
    } else if d == 8 {
        '8'
    } else {
        '9'
    }
}

/// The canonical decimal digits of `n`: one to three digits, no leading
/// zero.
pub open spec fn spec_digits_u8(n: u8) -> Seq<char> {
    if n < 10 {
        seq![spec_digit_char(n as int)]
    } else if n < 100 {
        seq![spec_digit_char(n as int / 10), spec_digit_char(n as int % 10)]
    } else {
        seq![
            spec_digit_char(n as int / 100),
            spec_digit_char((n as int / 10) % 10),
            spec_digit_char(n as int % 10),
        ]
    }
}

/// The canonical encoding of a payload: the three members in the order
/// `name`, `email`, `role`, without whitespace.
pub open spec fn spec_encode_create_user(p: CreateUserPayloadModel) -> Seq<char> {
    "{\"name\":\""@ + spec_escape(p.name) + "\",\"email\":\""@ + spec_escape(p.email)
        + "\",\"role\":"@ + spec_digits_u8(p.role) + "}"@
}

fn escape(s: &str) -> (r: String)
    ensures
        r@ == spec_escape(s@),
    decreases s@.len(),
{
    let n = s.unicode_len();
    if n == 0 {
        return String::new();
    }
    let c = s.get_char(0);
    let tail = s.substring_char(1, n);
    proof {
        assert(tail@ =~= s@.drop_first());
    }
    let rest = escape(tail);
    let mut out: String;
    if c == '"' {
        out = String::from_str("\\\"");
        proof {
            reveal_strlit("\\\"");
        }
    } else if c == '\\' {
        out = String::from_str("\\\\");
        proof {
            reveal_strlit("\\\\");
        }
    } else {
        let piece = s.substring_char(0, 1);
        proof {
            assert(piece@ =~= seq![s@[0]]);
        }
        out = String::from_str(piece);
    }
    out.append(rest.as_str());
    proof {
        assert(out@ =~= spec_escape(s@));
    }
    out
}

fn digit_str(d: u8) -> (r: &'static str)
    requires
        d <= 9,
    ensures
        r@ =~= seq![spec_digit_char(d as int)],
{
    if d == 0 {
        let r = "0";
        proof {
            reveal_strlit("0");
        }
        r
    } else if d == 1 {
        let r = "1";
        proof {
            reveal_strlit("1");
        }
        r
    } else if d == 2 {
        let r = "2";
        proof {
            reveal_strlit("2");
        }
        r
    } else if d == 3 {
        let r = "3";
        proof {
            reveal_strlit("3");
        }
        r
    } else if d == 4 {
        let r = "4";
        proof {
            reveal_strlit("4");
        }
        r
    } else if d == 5 {
        let r = "5";
        proof {
            reveal_strlit("5");
        }
        r
    } else if d == 6 {
        let r = "6";
        proof {
            reveal_strlit("6");
        }
        r
    } else if d == 7 {
        let r = "7";
        proof {
            reveal_strlit("7");
        }
        r
    } else if d == 8 {
        let r = "8";
        proof {
            reveal_strlit("8");
        }
        r
    } else {
        let r = "9";
        proof {
            reveal_strlit("9");
        }
        r
    }
}

fn digits_u8(n: u8) -> (r: String)
    ensures
        r@ == spec_digits_u8(n),
{
    if n < 10 {
        let out = String::from_str(digit_str(n));
        proof {
            assert(out@ =~= spec_digits_u8(n));
        }
        out
    } else if n < 100 {
        let mut out = String::from_str(digit_str(n / 10));
        out.append(digit_str(n % 10));
        proof {
            assert(out@ =~= spec_digits_u8(n));
        }
        out
    } else {
        let mut out = String::from_str(digit_str(n / 100));
        out.append(digit_str((n / 10) % 10));
        out.append(digit_str(n % 10));
        proof {
            assert(out@ =~= spec_digits_u8(n));
        }
        out
    }
}

/// Text free of control characters: what a payload string field may hold
/// for its encoding to be decodable.
pub open spec fn valid_text(t: Seq<char>) -> bool {
    forall|i: int| 0 <= i < t.len() ==> (t[i] as u32) >= 32
}

/// A payload whose string fields hold no control characters.
pub open spec fn spec_valid_payload(p: CreateUserPayloadModel) -> bool {
    valid_text(p.name) && valid_text(p.email)
}

proof fn lemma_escape_plain(t: Seq<char>)
    requires
        forall|i: int| 0 <= i < t.len() ==> t[i] != '"' && t[i] != '\\',
    ensures
        spec_escape(t) == t,
    decreases t.len(),
{
    if t.len() == 0 {
        assert(spec_escape(t) =~= t);
    } else {
        assert forall|i: int| 0 <= i < t.drop_first().len() implies t.drop_first()[i] != '"'
            && t.drop_first()[i] != '\\' by {
            assert(t.drop_first()[i] == t[i + 1]);
        }
        lemma_escape_plain(t.drop_first());
        assert(seq![t[0]] + t.drop_first() =~= t);
    }
}

proof fn lemma_parse_escaped(s: Seq<char>, t: Seq<char>, i: int)
    requires
        valid_text(t),
        0 <= i,
        i + spec_escape(t).len() + 1 <= s.len(),
        s.subrange(i, i + spec_escape(t).len()) == spec_escape(t),
        s[i + spec_escape(t).len()] == '"',
    ensures
        spec_parse_string_body(s, i) == Some((t, i + spec_escape(t).len() + 1)),
    decreases t.len(),
{
    let e = spec_escape(t);
    if t.len() == 0 {
        assert(e.len() == 0);
        assert(s[i] == '"');
        assert(t =~= Seq::<char>::empty());
    } else {
        let c = t[0];
        let t2 = t.drop_first();
        let e2 = spec_escape(t2);
        assert forall|k: int| 0 <= k < t2.len() implies (t2[k] as u32) >= 32 by {
            assert(t2[k] == t[k + 1]);
        }
        assert(valid_text(t2));
        assert((c as u32) >= 32);
        if c == '"' || c == '\\' {
            assert(e == seq!['\\', c] + e2);
            assert(s[i] == '\\') by {
                assert(s.subrange(i, i + e.len())[0] == s[i]);
            }
            assert(s[i + 1] == c) by {
                assert(s.subrange(i, i + e.len())[1] == s[i + 1]);
            }
            assert forall|k: int|
                0 <= k < e2.len() implies s.subrange(i + 2, i + 2 + e2.len())[k] == e2[k] by {
                assert(s.subrange(i, i + e.len())[k + 2] == s[i + 2 + k]);
            }
            assert(s.subrange(i + 2, i + 2 + e2.len()) =~= e2);
            lemma_parse_escaped(s, t2, i + 2);
            assert(seq![c] + t2 =~= t);
        } else {
            assert(e == seq![c] + e2);
            assert(s[i] == c) by {
                assert(s.subrange(i, i + e.len())[0] == s[i]);
            }
            assert forall|k: int|
                0 <= k < e2.len() implies s.subrange(i + 1, i + 1 + e2.len())[k] == e2[k] by {
                assert(s.subrange(i, i + e.len())[k + 1] == s[i + 1 + k]);
            }
            assert(s.subrange(i + 1, i + 1 + e2.len()) =~= e2);
            lemma_parse_escaped(s, t2, i + 1);
            assert(seq![c] + t2 =~= t);
        }
    }
}

proof fn lemma_digit_char_facts()
    ensures
        forall|d: int|
            0 <= d <= 9 ==> spec_is_digit(#[trigger] spec_digit_char(d)) && spec_digit_val(
                spec_digit_char(d),
            ) == d,
        forall|d: int| 1 <= d <= 9 ==> #[trigger] spec_digit_char(d) != '0',
{
}

proof fn lemma_parse_digits(s: Seq<char>, n: u8, i: int)
    requires
        0 <= i,
        i + spec_digits_u8(n).len() < s.len(),
        s.subrange(i, i + spec_digits_u8(n).len()) == spec_digits_u8(n),
        !spec_is_digit(s[i + spec_digits_u8(n).len()]),
    ensures
        spec_parse_number(s, i) == Some((n, i + spec_digits_u8(n).len())),
{
    lemma_digit_char_facts();
    let d = spec_digits_u8(n);
    if n < 10 {
        assert(s[i] == d[0]) by {
            assert(s.subrange(i, i + d.len())[0] == s[i]);
        }
    } else if n < 100 {
        assert(s[i] == d[0] && s[i + 1] == d[1]) by {
            assert(s.subrange(i, i + d.len())[0] == s[i]);
            assert(s.subrange(i, i + d.len())[1] == s[i + 1]);
        }
        assert(1 <= n as int / 10 <= 9);
        assert(spec_digit_val(s[i]) * 10 + spec_digit_val(s[i + 1]) == n);
    } else {
        assert(s[i] == d[0] && s[i + 1] == d[1] && s[i + 2] == d[2]) by {
            assert(s.subrange(i, i + d.len())[0] == s[i]);
            assert(s.subrange(i, i + d.len())[1] == s[i + 1]);
            assert(s.subrange(i, i + d.len())[2] == s[i + 2]);
        }
        assert(1 <= n as int / 100 <= 9);
        assert(spec_digit_val(s[i]) * 100 + spec_digit_val(s[i + 1]) * 10 + spec_digit_val(
            s[i + 2],
        ) == n);
    }
}

/// The codec round trip: encoding a payload free of control characters
/// and decoding the text back yields the payload again.
#[verifier::rlimit(100)]
pub proof fn lemma_payload_round_trip(p: CreateUserPayloadModel)
    requires
        spec_valid_payload(p),
    ensures
        spec_decode_create_user(spec_encode_create_user(p)) == Some(p),
{
    reveal_strlit("{\"name\":\"");
    reveal_strlit("\",\"email\":\"");
    reveal_strlit("\",\"role\":");
    reveal_strlit("}");
    reveal_strlit("name");
    reveal_strlit("email");
    reveal_strlit("role");
    let l1 = "{\"name\":\""@;
    let l2 = "\",\"email\":\""@;
    let l3 = "\",\"role\":"@;
    let l4 = "}"@;
    let a = spec_escape(p.name);
    let b = spec_escape(p.email);
    let d = spec_digits_u8(p.role);
    let e = spec_encode_create_user(p);
    assert(e == l1 + a + l2 + b + l3 + d + l4);
    assert(l1.len() == 9 && l2.len() == 11 && l3.len() == 9 && l4.len() == 1);
    let n1 = 9 + a.len() as int;
    let n2 = n1 + 11 + b.len() as int;
    let n4 = n2 + 9 + d.len() as int;
    assert(e.len() == n4 + 1);
    lemma_digit_char_facts();
    assert(d.len() >= 1 && spec_is_digit(d[0]) && d[0] != '"' && !is_ws(d[0]));

    // The literal scaffolding, character by character.
    assert(e[0] == '{' && e[1] == '"' && e[6] == '"' && e[7] == ':' && e[8] == '"');
    assert(e[n1] == '"' && e[n1 + 1] == ',' && e[n1 + 2] == '"' && e[n1 + 8] == '"' && e[n1 + 9]
        == ':' && e[n1 + 10] == '"');
    assert(e[n2] == '"' && e[n2 + 1] == ',' && e[n2 + 2] == '"' && e[n2 + 7] == '"' && e[n2 + 8]
        == ':');
    assert(e[n2 + 9] == d[0]);
    assert(e[n4] == '}');

    // The first member: key `name`, then the escaped name text.
    lemma_escape_plain("name"@);
    assert(e.subrange(2, 6) =~= "name"@);
    lemma_parse_escaped(e, "name"@, 2);
    assert(spec_parse_string(e, 1) == Some(("name"@, 7int)));
    assert(e.subrange(9, n1) =~= a);
    lemma_parse_escaped(e, p.name, 9);
    assert(spec_parse_string(e, 8) == Some((p.name, n1 + 1)));
    assert(spec_skip_ws(e, 1) == 1 && spec_skip_ws(e, 7) == 7 && spec_skip_ws(e, 8) == 8);
    assert(spec_parse_member(e, 1) == Some(
        (("name"@, JsonValueModel::Str(p.name)), n1 + 1),
    ));

    // The second member: key `email`, then the escaped email text.
    lemma_escape_plain("email"@);
    assert(e.subrange(n1 + 3, n1 + 8) =~= "email"@);
    lemma_parse_escaped(e, "email"@, n1 + 3);
    assert(spec_parse_string(e, n1 + 2) == Some(("email"@, n1 + 9)));
    assert(e.subrange(n1 + 11, n2) =~= b);
    lemma_parse_escaped(e, p.email, n1 + 11);
    assert(spec_parse_string(e, n1 + 10) == Some((p.email, n2 + 1)));
    assert(spec_skip_ws(e, n1 + 2) == n1 + 2 && spec_skip_ws(e, n1 + 9) == n1 + 9 && spec_skip_ws(
        e,
        n1 + 10,
    ) == n1 + 10);
    assert(spec_parse_member(e, n1 + 2) == Some(
        (("email"@, JsonValueModel::Str(p.email)), n2 + 1),
    ));

    // The third member: key `role`, then the digits.
    lemma_escape_plain("role"@);
    assert(e.subrange(n2 + 3, n2 + 7) =~= "role"@);
    lemma_parse_escaped(e, "role"@, n2 + 3);
    assert(spec_parse_string(e, n2 + 2) == Some(("role"@, n2 + 8)));
    assert(e.subrange(n2 + 9, n4) =~= d);
    lemma_parse_digits(e, p.role, n2 + 9);
    assert(spec_parse_number(e, n2 + 9) == Some((p.role, n4)));
    assert(spec_skip_ws(e, n2 + 2) == n2 + 2 && spec_skip_ws(e, n2 + 8) == n2 + 8 && spec_skip_ws(
        e,
        n2 + 9,
    ) == n2 + 9);
    assert(spec_parse_member(e, n2 + 2) == Some(
        (("role"@, JsonValueModel::Num(p.role)), n4),
    ));

    // The object as a whole, and its assembly back into the payload.
    assert(spec_skip_ws(e, 0) == 0 && spec_skip_ws(e, n1 + 1) == n1 + 1 && spec_skip_ws(e, n2 + 1)
        == n2 + 1 && spec_skip_ws(e, n4) == n4 && spec_skip_ws(e, n4 + 1) == n4 + 1);
    assert(spec_parse_object3(e) == Some(
        (
            ("name"@, JsonValueModel::Str(p.name)),
            ("email"@, JsonValueModel::Str(p.email)),
            ("role"@, JsonValueModel::Num(p.role)),
        ),
    ));
    assert("name"@ != "email"@ && "name"@ != "role"@ && "email"@ != "role"@);
}

/// Encodes a payload as its canonical JSON text.
pub fn encode_create_user(p: &CreateUserPayload) -> (r: String)
    ensures
        r@ == spec_encode_create_user(p.model()),
{
    let mut out = String::from_str("{\"name\":\"");
    out.append(escape(p.name.as_str()).as_str());
    out.append("\",\"email\":\"");
    out.append(escape(p.email.as_str()).as_str());
    out.append("\",\"role\":");
    out.append(digits_u8(p.role).as_str());
    out.append("}");
    proof {
        assert(out@ =~= spec_encode_create_user(p.model()));
    }
    out
}

} // verus!
