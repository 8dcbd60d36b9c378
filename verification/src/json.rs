//! Verified decoder for the flat JSON object format that activity payloads
//! arrive in: one object whose members are strings, integers, booleans or
//! null.  Nested containers, floating-point numbers and `\u` escapes are
//! rejected as malformed.  The exec parser is proved to return exactly what
//! the spec-level parser (`sp_object`) describes.

use vstd::prelude::*;

verus! {

/// One scalar member value of the payload object.
pub enum JsonValue {
    Null,
    Bool(bool),
    Int(i64),
    Str(Vec<char>),
}

/// Mathematical model of a member value.
pub enum JsonValueModel {
    Null,
    Bool(bool),
    Int(int),
    Str(Seq<char>),
}

impl View for JsonValue {
    type V = JsonValueModel;

    open spec fn view(&self) -> JsonValueModel {
        match self {
            JsonValue::Null => JsonValueModel::Null,
            JsonValue::Bool(b) => JsonValueModel::Bool(*b),
            JsonValue::Int(n) => JsonValueModel::Int(*n as int),
            JsonValue::Str(v) => JsonValueModel::Str(v@),
        }
    }
}

/// One `key: value` member of the payload object.
pub struct JsonField {
    pub key: Vec<char>,
    pub value: JsonValue,
}

impl View for JsonField {
    type V = (Seq<char>, JsonValueModel);

    open spec fn view(&self) -> (Seq<char>, JsonValueModel) {
        (self.key@, self.value@)
    }
}

/// Model of a parsed member list.
pub open spec fn fields_model(fs: Seq<JsonField>) -> Seq<(Seq<char>, JsonValueModel)> {
    fs.map(|_i: int, f: JsonField| f@)
}

// ---------------------------------------------------------------------------
// Spec-level parser
// ---------------------------------------------------------------------------

pub open spec fn is_ws(c: char) -> bool {
    c == ' ' || c == '\t' || c == '\n' || c == '\r'
}

pub open spec fn is_digit(c: char) -> bool {
    c == '0' || c == '1' || c == '2' || c == '3' || c == '4' || c == '5' || c == '6' || c == '7'
        || c == '8' || c == '9'
}

/// Whether every character of `s` is a decimal digit.
pub open spec fn all_digits(s: Seq<char>) -> bool {
    forall|k: int| 0 <= k < s.len() ==> is_digit(s[k])
}

pub open spec fn digit_val(c: char) -> int {
    if c == '0' {
        0
    } else if c == '1' {
        1
    } else if c == '2' {
        2
    } else if c == '3' {
        3
    } else if c == '4' {
        4
    } else if c == '5' {
        5
    } else if c == '6' {
        6
    } else if c == '7' {
        7
    } else if c == '8' {
        8
    } else {
        9
    }
}

/// The index of the first non-whitespace character at or after `i`.
pub open spec fn sp_ws(s: Seq<char>, i: int) -> int
    decreases s.len() - i,
{
    if 0 <= i < s.len() && is_ws(s[i]) {
        sp_ws(s, i + 1)
    } else {
        i
    }
}

/// The escape codes accepted after a backslash.
pub open spec fn is_escape_code(c: char) -> bool {
    c == '"' || c == '\\' || c == '/' || c == 'b' || c == 'f' || c == 'n' || c == 'r' || c == 't'
}

/// The character an escape code stands for.
pub open spec fn unescape(c: char) -> char {
    if c == 'b' {
        '\u{0008}'
    } else if c == 'f' {
        '\u{000C}'
    } else if c == 'n' {
        '\n'
    } else if c == 'r' {
        '\r'
    } else if c == 't' {
        '\t'
    } else {
        c
    }
}

/// Parses the body of a string literal starting just after the opening
/// quote: the decoded content and the index just past the closing quote.
pub open spec fn sp_string_body(s: Seq<char>, i: int) -> Option<(Seq<char>, int)>
    decreases s.len() - i,
{
    if !(0 <= i < s.len()) {
        None
    } else if s[i] == '"' {
        Some((Seq::empty(), i + 1))
    } else if s[i] == '\\' {
        if i + 1 < s.len() && is_escape_code(s[i + 1]) {
            match sp_string_body(s, i + 2) {
                Some((rest, j)) => Some((seq![unescape(s[i + 1])] + rest, j)),
                None => None,
            }
        } else {
            None
        }
    } else {
        match sp_string_body(s, i + 1) {
            Some((rest, j)) => Some((seq![s[i]] + rest, j)),
            None => None,
        }
    }
}

/// Parses a quoted string starting at `i`.
pub open spec fn sp_string(s: Seq<char>, i: int) -> Option<(Seq<char>, int)> {
    if 0 <= i < s.len() && s[i] == '"' {
        sp_string_body(s, i + 1)
    } else {
        None
    }
}

/// The maximal run of digits starting at `i`, and the index after it.
pub open spec fn sp_digits(s: Seq<char>, i: int) -> (Seq<char>, int)
    decreases s.len() - i,
{
    if 0 <= i < s.len() && is_digit(s[i]) {
        let (d, j) = sp_digits(s, i + 1);
        (seq![s[i]] + d, j)
    } else {
        (Seq::empty(), i)
    }
}

/// The value of a digit string, most significant digit first.
pub open spec fn digits_val(ds: Seq<char>) -> int
    decreases ds.len(),
{
    if ds.len() == 0 {
        0
    } else {
        digits_val(ds.drop_last()) * 10 + digit_val(ds.last())
    }
}

pub open spec fn pow10(n: nat) -> int
    decreases n,
{
    if n == 0 {
        1
    } else {
        10 * pow10((n - 1) as nat)
    }
}

/// Parses a JSON integer at `i`: an optional minus sign and digits without
/// a redundant leading zero, whose value fits in an `i64`.
pub open spec fn sp_int(s: Seq<char>, i: int) -> Option<(int, int)> {
    let start = if 0 <= i < s.len() && s[i] == '-' {
        i + 1
    } else {
        i
    };
    let (ds, j) = sp_digits(s, start);
    if ds.len() == 0 || (ds.len() > 1 && ds[0] == '0') {
        None
    } else {
        let v = if start == i {
            digits_val(ds)
        } else {
            -digits_val(ds)
        };
        if i64::MIN <= v <= i64::MAX {
            Some((v, j))
        } else {
            None
        }
    }
}

/// Whether `lit` occurs in `s` at position `i`.
pub open spec fn is_lit(s: Seq<char>, i: int, lit: Seq<char>) -> bool {
    0 <= i && i + lit.len() <= s.len() && forall|k: int|
        0 <= k < lit.len() ==> s[i + k] == lit[k]
}

/// Parses one scalar value at `i`.
pub open spec fn sp_value(s: Seq<char>, i: int) -> Option<(JsonValueModel, int)> {
    if !(0 <= i < s.len()) {
        None
    } else if s[i] == '"' {
        match sp_string(s, i) {
            Some((c, j)) => Some((JsonValueModel::Str(c), j)),
            None => None,
        }
    } else if s[i] == '-' || is_digit(s[i]) {
        match sp_int(s, i) {
            Some((v, j)) => Some((JsonValueModel::Int(v), j)),
            None => None,
        }
    } else if is_lit(s, i, seq!['n', 'u', 'l', 'l']) {
        Some((JsonValueModel::Null, i + 4))
    } else if is_lit(s, i, seq!['t', 'r', 'u', 'e']) {
        Some((JsonValueModel::Bool(true), i + 4))
    } else if is_lit(s, i, seq!['f', 'a', 'l', 's', 'e']) {
        Some((JsonValueModel::Bool(false), i + 5))
    } else {
        None
    }
}

/// Parses one `"key" : value` member at `i`.
pub open spec fn sp_member(s: Seq<char>, i: int) -> Option<((Seq<char>, JsonValueModel), int)> {
    match sp_string(s, i) {
        Some((k, j)) => {
            let j2 = sp_ws(s, j);
            if 0 <= j2 < s.len() && s[j2] == ':' {
                let j3 = sp_ws(s, j2 + 1);
                match sp_value(s, j3) {
                    Some((v, j4)) => Some((((k, v)), j4)),
                    None => None,
                }
            } else {
                None
            }
        },
        None => None,
    }
}

/// Parses a comma-separated member list starting at `i`.
pub open spec fn sp_members(s: Seq<char>, i: int) -> Option<(
    Seq<(Seq<char>, JsonValueModel)>,
    int,
)>
    decreases s.len() - i,
{
    match sp_member(s, i) {
        Some((p, j)) => {
            let j2 = sp_ws(s, j);
            if 0 <= j2 < s.len() && s[j2] == ',' {
                let j3 = sp_ws(s, j2 + 1);
                if i < j3 <= s.len() {
                    match sp_members(s, j3) {
                        Some((ps, j4)) => Some((seq![p] + ps, j4)),
                        None => None,
                    }
                } else {
                    None
                }
            } else {
                Some((seq![p], j))
            }
        },
        None => None,
    }
}

/// Parses a whole payload: one object covering the entire text.
pub open spec fn sp_object(s: Seq<char>) -> Option<Seq<(Seq<char>, JsonValueModel)>> {
    let i = sp_ws(s, 0);
    if 0 <= i < s.len() && s[i] == '{' {
        let j = sp_ws(s, i + 1);
        if 0 <= j < s.len() && s[j] == '}' {
            if sp_ws(s, j + 1) == s.len() {
                Some(Seq::empty())
            } else {
                None
            }
        } else {
            match sp_members(s, j) {
                Some((ps, k)) => {
                    let k2 = sp_ws(s, k);
                    if 0 <= k2 < s.len() && s[k2] == '}' && sp_ws(s, k2 + 1) == s.len() {
                        Some(ps)
                    } else {
                        None
                    }
                },
                None => None,
            }
        }
    } else {
        None
    }
}

// ---------------------------------------------------------------------------
// Exec parser, proved equal to the spec parser
// ---------------------------------------------------------------------------

fn ws_char(c: char) -> (r: bool)
    ensures
        r == is_ws(c),
{
    c == ' ' || c == '\t' || c == '\n' || c == '\r'
}

pub fn is_digit_char(c: char) -> (r: bool)
    ensures
        r == is_digit(c),
{
    c == '0' || c == '1' || c == '2' || c == '3' || c == '4' || c == '5' || c == '6' || c == '7'
        || c == '8' || c == '9'
}

/// The numeric value of one digit character.
pub fn digit_value(c: char) -> (r: u64)
    requires
        is_digit(c),
    ensures
        r as int == digit_val(c),
{
    if c == '0' {
        0
    } else if c == '1' {
        1
    } else if c == '2' {
        2
    } else if c == '3' {
        3
    } else if c == '4' {
        4
    } else if c == '5' {
        5
    } else if c == '6' {
        6
    } else if c == '7' {
        7
    } else if c == '8' {
        8
    } else {
        9
    }
}

fn skip_ws(s: &Vec<char>, i: usize) -> (j: usize)
    requires
        i <= s.len(),
    ensures
        j as int == sp_ws(s@, i as int),
        i <= j <= s.len(),
{
    let mut j = i;
    while j < s.len() && ws_char(s[j])
        invariant
            i <= j <= s.len(),
            sp_ws(s@, i as int) == sp_ws(s@, j as int),
        decreases s.len() - j,
    {
        j = j + 1;
    }
    j
}

fn escape_code_char(c: char) -> (r: bool)
    ensures
        r == is_escape_code(c),
{
    c == '"' || c == '\\' || c == '/' || c == 'b' || c == 'f' || c == 'n' || c == 'r' || c == 't'
}

fn unescape_char(c: char) -> (r: char)
    ensures
        r == unescape(c),
{
    if c == 'b' {
        '\u{0008}'
    } else if c == 'f' {
        '\u{000C}'
    } else if c == 'n' {
        '\n'
    } else if c == 'r' {
        '\r'
    } else if c == 't' {
        '\t'
    } else {
        c
    }
}

fn parse_string_body(s: &Vec<char>, i: usize) -> (r: Option<(Vec<char>, usize)>)
    requires
        i <= s.len(),
    ensures
        match r {
            Some(p) => sp_string_body(s@, i as int) == Some((p.0@, p.1 as int)) && i < p.1
                <= s.len(),
            None => sp_string_body(s@, i as int) is None,
        },
    decreases s.len() - i,
{
    if i >= s.len() {
        return None;
    }
    let c = s[i];
    if c == '"' {
        let content: Vec<char> = Vec::new();
        assert(content@ =~= Seq::<char>::empty());
        Some((content, i + 1))
    } else if c == '\\' {
        if i + 1 >= s.len() {
            return None;
        }
        let e = s[i + 1];
        if !escape_code_char(e) {
            return None;
        }
        match parse_string_body(s, i + 2) {
            Some((mut rest, j)) => {
                let ghost old_rest = rest@;
                rest.insert(0, unescape_char(e));
                assert(rest@ =~= seq![unescape(e)] + old_rest);
                Some((rest, j))
            },
            None => None,
        }
    } else {
        match parse_string_body(s, i + 1) {
            Some((mut rest, j)) => {
                let ghost old_rest = rest@;
                rest.insert(0, c);
                assert(rest@ =~= seq![c] + old_rest);
                Some((rest, j))
            },
            None => None,
        }
    }
}

fn parse_string(s: &Vec<char>, i: usize) -> (r: Option<(Vec<char>, usize)>)
    requires
        i <= s.len(),
    ensures
        match r {
            Some(p) => sp_string(s@, i as int) == Some((p.0@, p.1 as int)) && i < p.1 <= s.len(),
            None => sp_string(s@, i as int) is None,
        },
{
    if i < s.len() && s[i] == '"' {
        parse_string_body(s, i + 1)
    } else {
        None
    }
}

fn parse_digits(s: &Vec<char>, i: usize) -> (r: (Vec<char>, usize))
    requires
        i <= s.len(),
    ensures
        sp_digits(s@, i as int) == (r.0@, r.1 as int),
        i <= r.1 <= s.len(),
    decreases s.len() - i,
{
    if i < s.len() && is_digit_char(s[i]) {
        let (mut d, j) = parse_digits(s, i + 1);
        let ghost old_d = d@;
        d.insert(0, s[i]);
        assert(d@ =~= seq![s@[i as int]] + old_d);
        (d, j)
    } else {
        let empty: Vec<char> = Vec::new();
        assert(empty@ =~= Seq::<char>::empty());
        (empty, i)
    }
}

/// All elements of `ds` are digits, and there are as many as the run is
/// long: what `sp_digits` guarantees of its result.
pub proof fn lemma_sp_digits_props(s: Seq<char>, i: int)
    requires
        0 <= i <= s.len(),
    ensures
        ({
            let (ds, j) = sp_digits(s, i);
            &&& i <= j <= s.len()
            &&& ds.len() == j - i
            &&& forall|k: int| 0 <= k < ds.len() ==> is_digit(ds[k])
        }),
    decreases s.len() - i,
{
    if 0 <= i < s.len() && is_digit(s[i]) {
        lemma_sp_digits_props(s, i + 1);
    }
}

/// A digit string's value is below `pow10` of its length.
pub proof fn lemma_digits_val_upper(ds: Seq<char>)
    requires
        forall|k: int| 0 <= k < ds.len() ==> is_digit(ds[k]),
    ensures
        0 <= digits_val(ds) < pow10(ds.len()),
    decreases ds.len(),
{
    if ds.len() > 0 {
        assert(forall|k: int| 0 <= k < ds.drop_last().len() ==> is_digit(#[trigger] ds.drop_last()[k]));
        lemma_digits_val_upper(ds.drop_last());
    }
}

/// A digit string that does not start with `'0'` has a value of at least
/// `pow10` of one less than its length.
pub proof fn lemma_digits_val_lower(ds: Seq<char>)
    requires
        ds.len() > 0,
        forall|k: int| 0 <= k < ds.len() ==> is_digit(ds[k]),
        ds[0] != '0',
    ensures
        digits_val(ds) >= pow10((ds.len() - 1) as nat),
    decreases ds.len(),
{
    if ds.len() == 1 {
        assert(is_digit(ds[0]));
        assert(ds.last() == ds[0]);
        assert(digit_val(ds[0]) >= 1);
        assert(ds.drop_last().len() == 0);
        reveal_with_fuel(digits_val, 2);
        assert(digits_val(ds) == digit_val(ds[0]));
        assert(pow10(0) == 1);
    } else {
        assert(forall|k: int| 0 <= k < ds.drop_last().len() ==> is_digit(#[trigger] ds.drop_last()[k]));
        assert(ds.drop_last()[0] == ds[0]);
        lemma_digits_val_lower(ds.drop_last());
        assert(is_digit(ds[ds.len() - 1]));
        assert(ds.last() == ds[ds.len() - 1]);
        assert(digit_val(ds.last()) >= 0);
        assert(pow10((ds.len() - 1) as nat) == 10 * pow10((ds.len() - 2) as nat));
    }
}

pub proof fn lemma_pow10_values()
    ensures
        pow10(18) == 1_000_000_000_000_000_000,
        pow10(19) == 10_000_000_000_000_000_000,
        pow10(20) == 100_000_000_000_000_000_000,
{
    reveal_with_fuel(pow10, 21);
}

pub proof fn lemma_pow10_pos(n: nat)
    ensures
        pow10(n) >= 1,
    decreases n,
{
    if n > 0 {
        lemma_pow10_pos((n - 1) as nat);
    }
}

pub proof fn lemma_pow10_mono(a: nat, b: nat)
    requires
        a <= b,
    ensures
        1 <= pow10(a) <= pow10(b),
    decreases b,
{
    lemma_pow10_pos(a);
    if a < b {
        lemma_pow10_mono(a, (b - 1) as nat);
    }
}

/// Computes the value of a digit string of at most 19 digits.
fn digits_to_u64(ds: &Vec<char>) -> (r: u64)
    requires
        ds.len() <= 19,
        forall|k: int| 0 <= k < ds@.len() ==> is_digit(ds@[k]),
    ensures
        r as int == digits_val(ds@),
{
    let mut val: u64 = 0;
    let mut k: usize = 0;
    proof {
        assert(ds@.take(0) =~= Seq::<char>::empty());
    }
    while k < ds.len()
        invariant
            k <= ds.len() <= 19,
            forall|t: int| 0 <= t < ds@.len() ==> is_digit(ds@[t]),
            val as int == digits_val(ds@.take(k as int)),
        decreases ds.len() - k,
    {
        let c = ds[k];
        proof {
            assert(forall|t: int|
                0 <= t < ds@.take(k as int).len() ==> is_digit(#[trigger] ds@.take(k as int)[t]));
            lemma_digits_val_upper(ds@.take(k as int));
            lemma_pow10_mono(k as nat, 18);
            lemma_pow10_values();
            assert(pow10(19) == 10 * pow10(18));
            assert(ds@.take(k as int + 1).drop_last() =~= ds@.take(k as int));
            assert(ds@.take(k as int + 1).last() == ds@[k as int]);
        }
        val = val * 10 + digit_value(c);
        k = k + 1;
    }
    proof {
        assert(ds@.take(ds@.len() as int) =~= ds@);
    }
    val
}

fn parse_int(s: &Vec<char>, i: usize) -> (r: Option<(i64, usize)>)
    requires
        i <= s.len(),
    ensures
        match r {
            Some(p) => sp_int(s@, i as int) == Some((p.0 as int, p.1 as int)) && i < p.1 <= s.len(),
            None => sp_int(s@, i as int) is None,
        },
{
    let neg = i < s.len() && s[i] == '-';
    let start = if neg {
        i + 1
    } else {
        i
    };
    let (ds, j) = parse_digits(s, start);
    proof {
        lemma_sp_digits_props(s@, start as int);
    }
    if ds.len() == 0 {
        return None;
    }
    if ds.len() > 1 && ds[0] == '0' {
        return None;
    }
    if ds.len() > 19 {
        proof {
            assert(ds@[0] != '0');
            lemma_digits_val_lower(ds@);
            lemma_pow10_mono(19, (ds@.len() - 1) as nat);
            lemma_pow10_values();
        }
        return None;
    }
    let val = digits_to_u64(&ds);
    if neg {
        if val <= 9_223_372_036_854_775_807u64 {
            Some((-(val as i64), j))
        } else if val == 9_223_372_036_854_775_808u64 {
            Some((i64::MIN, j))
        } else {
            None
        }
    } else {
        if val <= 9_223_372_036_854_775_807u64 {
            Some((val as i64, j))
        } else {
            None
        }
    }
}

fn lit4(s: &Vec<char>, i: usize, a: char, b: char, c: char, d: char) -> (r: bool)
    requires
        i <= s.len(),
    ensures
        r == is_lit(s@, i as int, seq![a, b, c, d]),
{
    proof {
        assert(seq![a, b, c, d].len() == 4);
        assert(seq![a, b, c, d][0] == a);
        assert(seq![a, b, c, d][1] == b);
        assert(seq![a, b, c, d][2] == c);
        assert(seq![a, b, c, d][3] == d);
    }
    if s.len() - i >= 4 {
        let r = s[i] == a && s[i + 1] == b && s[i + 2] == c && s[i + 3] == d;
        proof {
            if r {
                assert forall|k: int| 0 <= k < 4 implies s@[i + k] == seq![a, b, c, d][k] by {
                    if k == 0 {
                    } else if k == 1 {
                    } else if k == 2 {
                    } else {
                        assert(k == 3);
                    }
                }
            }
        }
        r
    } else {
        false
    }
}

fn lit5(s: &Vec<char>, i: usize, a: char, b: char, c: char, d: char, e: char) -> (r: bool)
    requires
        i <= s.len(),
    ensures
        r == is_lit(s@, i as int, seq![a, b, c, d, e]),
{
    proof {
        assert(seq![a, b, c, d, e].len() == 5);
        assert(seq![a, b, c, d, e][0] == a);
        assert(seq![a, b, c, d, e][1] == b);
        assert(seq![a, b, c, d, e][2] == c);
        assert(seq![a, b, c, d, e][3] == d);
        assert(seq![a, b, c, d, e][4] == e);
    }
    if s.len() - i >= 5 {
        let r = s[i] == a && s[i + 1] == b && s[i + 2] == c && s[i + 3] == d && s[i + 4] == e;
        proof {
            if r {
                assert forall|k: int| 0 <= k < 5 implies s@[i + k] == seq![a, b, c, d, e][k] by {
                    if k == 0 {
                    } else if k == 1 {
                    } else if k == 2 {
                    } else if k == 3 {
                    } else {
                        assert(k == 4);
                    }
                }
            }
        }
        r
    } else {
        false
    }
}

fn parse_value(s: &Vec<char>, i: usize) -> (r: Option<(JsonValue, usize)>)
    requires
        i <= s.len(),
    ensures
        match r {
            Some(p) => sp_value(s@, i as int) == Some((p.0@, p.1 as int)) && i < p.1 <= s.len(),
            None => sp_value(s@, i as int) is None,
        },
{
    if i >= s.len() {
        return None;
    }
    let c = s[i];
    if c == '"' {
        match parse_string(s, i) {
            Some((content, j)) => Some((JsonValue::Str(content), j)),
            None => None,
        }
    } else if c == '-' || is_digit_char(c) {
        match parse_int(s, i) {
            Some((v, j)) => Some((JsonValue::Int(v), j)),
            None => None,
        }
    } else if lit4(s, i, 'n', 'u', 'l', 'l') {
        Some((JsonValue::Null, i + 4))
    } else if lit4(s, i, 't', 'r', 'u', 'e') {
        Some((JsonValue::Bool(true), i + 4))
    } else if lit5(s, i, 'f', 'a', 'l', 's', 'e') {
        Some((JsonValue::Bool(false), i + 5))
    } else {
        None
    }
}

fn parse_member(s: &Vec<char>, i: usize) -> (r: Option<(JsonField, usize)>)
    requires
        i <= s.len(),
    ensures
        match r {
            Some(p) => sp_member(s@, i as int) == Some((p.0@, p.1 as int)) && i < p.1 <= s.len(),
            None => sp_member(s@, i as int) is None,
        },
{
    match parse_string(s, i) {
        Some((key, j)) => {
            let j2 = skip_ws(s, j);
            if j2 < s.len() && s[j2] == ':' {
                let j3 = skip_ws(s, j2 + 1);
                match parse_value(s, j3) {
                    Some((value, j4)) => Some((JsonField { key, value }, j4)),
                    None => None,
                }
            } else {
                None
            }
        },
        None => None,
    }
}

fn parse_members(s: &Vec<char>, i: usize) -> (r: Option<(Vec<JsonField>, usize)>)
    requires
        i <= s.len(),
    ensures
        match r {
            Some(p) => sp_members(s@, i as int) == Some((fields_model(p.0@), p.1 as int)) && i
                < p.1 <= s.len(),
            None => sp_members(s@, i as int) is None,
        },
    decreases s.len() - i,
{
    match parse_member(s, i) {
        Some((field, j)) => {
            let j2 = skip_ws(s, j);
            if j2 < s.len() && s[j2] == ',' {
                let j3 = skip_ws(s, j2 + 1);
                if i < j3 && j3 <= s.len() {
                    match parse_members(s, j3) {
                        Some((mut fields, j4)) => {
                            let ghost old_fields = fields@;
                            fields.insert(0, field);
                            proof {
                                assert(fields@ =~= seq![field] + old_fields);
                                assert(fields_model(fields@) =~= seq![field@] + fields_model(
                                    old_fields,
                                ));
                            }
                            Some((fields, j4))
                        },
                        None => None,
                    }
                } else {
                    None
                }
            } else {
                let mut fields: Vec<JsonField> = Vec::new();
                let ghost f = field@;
                fields.push(field);
                proof {
                    assert(fields_model(fields@) =~= seq![f]);
                }
                Some((fields, j))
            }
        },
        None => None,
    }
}

/// Parses a whole payload text into its member list, or nothing if the text
/// is not one flat object of scalar members.
pub fn parse_object(s: &Vec<char>) -> (r: Option<Vec<JsonField>>)
    ensures
        match r {
            Some(fields) => sp_object(s@) == Some(fields_model(fields@)),
            None => sp_object(s@) is None,
        },
{
    let i = skip_ws(s, 0);
    if i < s.len() && s[i] == '{' {
        let j = skip_ws(s, i + 1);
        if j < s.len() && s[j] == '}' {
            if skip_ws(s, j + 1) == s.len() {
                let fields: Vec<JsonField> = Vec::new();
                proof {
                    assert(fields_model(fields@) =~= Seq::<(Seq<char>, JsonValueModel)>::empty());
                }
                Some(fields)
            } else {
                None
            }
        } else {
            match parse_members(s, j) {
                Some((fields, k)) => {
                    let k2 = skip_ws(s, k);
                    if k2 < s.len() && s[k2] == '}' && skip_ws(s, k2 + 1) == s.len() {
                        Some(fields)
                    } else {
                        None
                    }
                },
                None => None,
            }
        }
    } else {
        None
    }
}

} // verus!
