//! Typed activity descriptors decoded from payload text.
//!
//! `parse_activity_json` turns payload text into the raw field record
//! `ActivityParams`; `create_activity` validates the record into the final
//! `ActivityDescriptor` with the numeric application id.  Both are total
//! functions whose results are pinned to spec-level models of the decode.

use vstd::prelude::*;

use crate::errors::DecodeError;
use crate::json::JsonField;
use crate::json::JsonValue;
use crate::json::JsonValueModel;
use crate::json::fields_model;
use crate::json::sp_object;
use crate::json::is_digit;
use crate::json::all_digits;
use crate::json::digit_val;
use crate::json::digits_val;
use crate::json::pow10;
use crate::json::lemma_digits_val_upper;
use crate::json::lemma_digits_val_lower;
use crate::json::lemma_pow10_values;
use crate::json::lemma_pow10_mono;
use crate::text::chars_vec;
use crate::text::chars_eq_str;
use crate::text::chars_to_string;

verus! {

/// The raw fields of an activity payload, exactly as decoded.
pub struct ActivityParams {
    pub app_id: String,
    pub details: Option<String>,
    pub state: Option<String>,
    pub large_image_key: Option<String>,
    pub large_image_text: Option<String>,
    pub timestamp: Option<i64>,
    pub activity_kind: Option<i32>,
}

/// Mathematical model of a raw field record.
pub struct ParamsModel {
    pub app_id: Seq<char>,
    pub details: Option<Seq<char>>,
    pub state: Option<Seq<char>>,
    pub large_image_key: Option<Seq<char>>,
    pub large_image_text: Option<Seq<char>>,
    pub timestamp: Option<int>,
    pub activity_kind: Option<int>,
}

pub open spec fn opt_string_view(o: Option<String>) -> Option<Seq<char>> {
    match o {
        Some(s) => Some(s@),
        None => None,
    }
}

pub open spec fn opt_i64_view(o: Option<i64>) -> Option<int> {
    match o {
        Some(v) => Some(v as int),
        None => None,
    }
}

pub open spec fn opt_i32_view(o: Option<i32>) -> Option<int> {
    match o {
        Some(v) => Some(v as int),
        None => None,
    }
}

impl View for ActivityParams {
    type V = ParamsModel;

    open spec fn view(&self) -> ParamsModel {
        ParamsModel {
            app_id: self.app_id@,
            details: opt_string_view(self.details),
            state: opt_string_view(self.state),
            large_image_key: opt_string_view(self.large_image_key),
            large_image_text: opt_string_view(self.large_image_text),
            timestamp: opt_i64_view(self.timestamp),
            activity_kind: opt_i32_view(self.activity_kind),
        }
    }
}

// ---------------------------------------------------------------------------
// Scanning the member list into the known fields
// ---------------------------------------------------------------------------

/// Intermediate state of the left-to-right scan over the payload members:
/// the first value seen for each known field, and whether any known field
/// occurred twice.
pub struct FieldScan {
    pub app_id: Option<JsonValueModel>,
    pub details: Option<JsonValueModel>,
    pub state: Option<JsonValueModel>,
    pub large_image_key: Option<JsonValueModel>,
    pub large_image_text: Option<JsonValueModel>,
    pub timestamp: Option<JsonValueModel>,
    pub activity_kind: Option<JsonValueModel>,
    pub dup: bool,
}

pub open spec fn scan_init() -> FieldScan {
    FieldScan {
        app_id: None,
        details: None,
        state: None,
        large_image_key: None,
        large_image_text: None,
        timestamp: None,
        activity_kind: None,
        dup: false,
    }
}

pub open spec fn scan_step(st: FieldScan, f: (Seq<char>, JsonValueModel)) -> FieldScan {
    if f.0 == "app_id"@ {
        if st.app_id is Some {
            FieldScan { dup: true, ..st }
        } else {
            FieldScan { app_id: Some(f.1), ..st }
        }
    } else if f.0 == "details"@ {
        if st.details is Some {
            FieldScan { dup: true, ..st }
        } else {
            FieldScan { details: Some(f.1), ..st }
        }
    } else if f.0 == "state"@ {
        if st.state is Some {
            FieldScan { dup: true, ..st }
        } else {
            FieldScan { state: Some(f.1), ..st }
        }
    } else if f.0 == "largeImageKey"@ {
        if st.large_image_key is Some {
            FieldScan { dup: true, ..st }
        } else {
            FieldScan { large_image_key: Some(f.1), ..st }
        }
    } else if f.0 == "largeImageText"@ {
        if st.large_image_text is Some {
            FieldScan { dup: true, ..st }
        } else {
            FieldScan { large_image_text: Some(f.1), ..st }
        }
    } else if f.0 == "timestamp"@ {
        if st.timestamp is Some {
            FieldScan { dup: true, ..st }
        } else {
            FieldScan { timestamp: Some(f.1), ..st }
        }
    } else if f.0 == "activity_kind"@ {
        if st.activity_kind is Some {
            FieldScan { dup: true, ..st }
        } else {
            FieldScan { activity_kind: Some(f.1), ..st }
        }
    } else {
        st
    }
}

pub open spec fn scan_fields(fs: Seq<(Seq<char>, JsonValueModel)>, n: int) -> FieldScan
    decreases n,
{
    if n <= 0 {
        scan_init()
    } else {
        scan_step(scan_fields(fs, n - 1), fs[n - 1])
    }
}

/// An optional text field accepts absence, `null`, or a string.
pub open spec fn str_field_ok(v: Option<JsonValueModel>) -> bool {
    match v {
        None => true,
        Some(JsonValueModel::Null) => true,
        Some(JsonValueModel::Str(_)) => true,
        _ => false,
    }
}

pub open spec fn str_field_val(v: Option<JsonValueModel>) -> Option<Seq<char>> {
    match v {
        Some(JsonValueModel::Str(s)) => Some(s),
        _ => None,
    }
}

pub open spec fn i64_field_ok(v: Option<JsonValueModel>) -> bool {
    match v {
        None => true,
        Some(JsonValueModel::Null) => true,
        Some(JsonValueModel::Int(n)) => i64::MIN <= n <= i64::MAX,
        _ => false,
    }
}

pub open spec fn i32_field_ok(v: Option<JsonValueModel>) -> bool {
    match v {
        None => true,
        Some(JsonValueModel::Null) => true,
        Some(JsonValueModel::Int(n)) => i32::MIN <= n <= i32::MAX,
        _ => false,
    }
}

pub open spec fn int_field_val(v: Option<JsonValueModel>) -> Option<int> {
    match v {
        Some(JsonValueModel::Int(n)) => Some(n),
        _ => None,
    }
}

/// What the raw field record of a parsed member list is, or which decode
/// error rejects it.
pub open spec fn build_model(fs: Seq<(Seq<char>, JsonValueModel)>) -> Result<
    ParamsModel,
    DecodeError,
> {
    let st = scan_fields(fs, fs.len() as int);
    if st.dup {
        Err(DecodeError::DuplicateField)
    } else if st.app_id is None {
        Err(DecodeError::MissingApplicationId)
    } else if !(st.app_id matches Some(JsonValueModel::Str(_))) {
        Err(DecodeError::WrongFieldType)
    } else if !str_field_ok(st.details) || !str_field_ok(st.state) || !str_field_ok(
        st.large_image_key,
    ) || !str_field_ok(st.large_image_text) {
        Err(DecodeError::WrongFieldType)
    } else if !i64_field_ok(st.timestamp) {
        Err(DecodeError::WrongFieldType)
    } else if !i32_field_ok(st.activity_kind) {
        Err(DecodeError::WrongFieldType)
    } else {
        Ok(
            ParamsModel {
                app_id: match st.app_id {
                    Some(JsonValueModel::Str(s)) => s,
                    _ => Seq::empty(),
                },
                details: str_field_val(st.details),
                state: str_field_val(st.state),
                large_image_key: str_field_val(st.large_image_key),
                large_image_text: str_field_val(st.large_image_text),
                timestamp: int_field_val(st.timestamp),
                activity_kind: int_field_val(st.activity_kind),
            },
        )
    }
}

/// What decoding a payload text yields: the raw field record, or the decode
/// error that rejects the text.
pub open spec fn decode_model(s: Seq<char>) -> Result<ParamsModel, DecodeError> {
    match sp_object(s) {
        None => Err(DecodeError::Malformed),
        Some(fs) => build_model(fs),
    }
}

pub open spec fn opt_jv_view(o: Option<JsonValue>) -> Option<JsonValueModel> {
    match o {
        Some(v) => Some(v@),
        None => None,
    }
}

fn build_params(fields: Vec<JsonField>) -> (r: Result<ActivityParams, DecodeError>)
    ensures
        match r {
            Ok(p) => build_model(fields_model(fields@)) == Ok::<ParamsModel, DecodeError>(p@),
            Err(e) => build_model(fields_model(fields@)) == Err::<ParamsModel, DecodeError>(e),
        },
{
    let ghost fs = fields_model(fields@);
    let ghost orig = fields@;
    let mut rest = fields;
    let total_exec = rest.len();
    let ghost total = total_exec as int;
    let mut k: usize = 0;
    let mut app_id_v: Option<JsonValue> = None;
    let mut details_v: Option<JsonValue> = None;
    let mut state_v: Option<JsonValue> = None;
    let mut lik_v: Option<JsonValue> = None;
    let mut lit_v: Option<JsonValue> = None;
    let mut ts_v: Option<JsonValue> = None;
    let mut kind_v: Option<JsonValue> = None;
    let mut dup: bool = false;
    proof {
        assert(rest@ =~= orig.skip(0));
    }
    while rest.len() > 0
        invariant
            k + rest@.len() == total == orig.len(),
            total <= usize::MAX,
            rest@ =~= orig.skip(k as int),
            fs == fields_model(orig),
            ({
                let st = scan_fields(fs, k as int);
                &&& opt_jv_view(app_id_v) == st.app_id
                &&& opt_jv_view(details_v) == st.details
                &&& opt_jv_view(state_v) == st.state
                &&& opt_jv_view(lik_v) == st.large_image_key
                &&& opt_jv_view(lit_v) == st.large_image_text
                &&& opt_jv_view(ts_v) == st.timestamp
                &&& opt_jv_view(kind_v) == st.activity_kind
                &&& dup == st.dup
            }),
        decreases rest@.len(),
    {
        let ghost st_before = scan_fields(fs, k as int);
        let f = rest.remove(0);
        proof {
            assert(f == orig[k as int]);
            assert(rest@ =~= orig.skip(k as int + 1));
            assert(fs[k as int] == orig[k as int]@);
            assert(scan_fields(fs, k as int + 1) == scan_step(st_before, fs[k as int]));
        }
        let JsonField { key, value } = f;
        if chars_eq_str(&key, "app_id") {
            if app_id_v.is_some() {
                dup = true;
            } else {
                app_id_v = Some(value);
            }
        } else if chars_eq_str(&key, "details") {
            if details_v.is_some() {
                dup = true;
            } else {
                details_v = Some(value);
            }
        } else if chars_eq_str(&key, "state") {
            if state_v.is_some() {
                dup = true;
            } else {
                state_v = Some(value);
            }
        } else if chars_eq_str(&key, "largeImageKey") {
            if lik_v.is_some() {
                dup = true;
            } else {
                lik_v = Some(value);
            }
        } else if chars_eq_str(&key, "largeImageText") {
            if lit_v.is_some() {
                dup = true;
            } else {
                lit_v = Some(value);
            }
        } else if chars_eq_str(&key, "timestamp") {
            if ts_v.is_some() {
                dup = true;
            } else {
                ts_v = Some(value);
            }
        } else if chars_eq_str(&key, "activity_kind") {
            if kind_v.is_some() {
                dup = true;
            } else {
                kind_v = Some(value);
            }
        }
        k = k + 1;
    }
    proof {
        assert(k as int == fs.len());
    }
    if dup {
        return Err(DecodeError::DuplicateField);
    }
    let app_id = match app_id_v {
        None => {
            return Err(DecodeError::MissingApplicationId);
        },
        Some(JsonValue::Str(v)) => chars_to_string(v),
        Some(_) => {
            return Err(DecodeError::WrongFieldType);
        },
    };
    let details = match details_v {
        None | Some(JsonValue::Null) => None,
        Some(JsonValue::Str(v)) => Some(chars_to_string(v)),
        Some(_) => {
            return Err(DecodeError::WrongFieldType);
        },
    };
    let state = match state_v {
        None | Some(JsonValue::Null) => None,
        Some(JsonValue::Str(v)) => Some(chars_to_string(v)),
        Some(_) => {
            return Err(DecodeError::WrongFieldType);
        },
    };
    let large_image_key = match lik_v {
        None | Some(JsonValue::Null) => None,
        Some(JsonValue::Str(v)) => Some(chars_to_string(v)),
        Some(_) => {
            return Err(DecodeError::WrongFieldType);
        },
    };
    let large_image_text = match lit_v {
        None | Some(JsonValue::Null) => None,
        Some(JsonValue::Str(v)) => Some(chars_to_string(v)),
        Some(_) => {
            return Err(DecodeError::WrongFieldType);
        },
    };
    let timestamp = match ts_v {
        None | Some(JsonValue::Null) => None,
        Some(JsonValue::Int(n)) => Some(n),
        Some(_) => {
            return Err(DecodeError::WrongFieldType);
        },
    };
    let activity_kind = match kind_v {
        None | Some(JsonValue::Null) => None,
        Some(JsonValue::Int(n)) => {
            if n < i32::MIN as i64 || n > i32::MAX as i64 {
                return Err(DecodeError::WrongFieldType);
            }
            Some(n as i32)
        },
        Some(_) => {
            return Err(DecodeError::WrongFieldType);
        },
    };
    Ok(
        ActivityParams {
            app_id,
            details,
            state,
            large_image_key,
            large_image_text,
            timestamp,
            activity_kind,
        },
    )
}

/// Decodes payload text into the raw field record, or rejects it with the
/// decode error that `decode_model` assigns to the text.
pub fn parse_activity_json(activity_json: &str) -> (r: Result<ActivityParams, DecodeError>)
    ensures
        match r {
            Ok(p) => decode_model(activity_json@) == Ok::<ParamsModel, DecodeError>(p@),
            Err(e) => decode_model(activity_json@) == Err::<ParamsModel, DecodeError>(e),
        },
{
    let chars = chars_vec(activity_json);
    match crate::json::parse_object(&chars) {
        None => Err(DecodeError::Malformed),
        Some(fields) => build_params(fields),
    }
}

// ---------------------------------------------------------------------------
// Application id parsing
// ---------------------------------------------------------------------------

/// The numeric value of an application id string: an optional leading `+`,
/// then decimal digits whose value fits in a `u64`; `None` otherwise.
pub open spec fn u64_str_val(s: Seq<char>) -> Option<int> {
    let body = if s.len() > 0 && s[0] == '+' {
        s.drop_first()
    } else {
        s
    };
    if body.len() == 0 {
        None
    } else if !all_digits(body) {
        None
    } else if digits_val(body) <= u64::MAX {
        Some(digits_val(body))
    } else {
        None
    }
}

proof fn lemma_u64_str_val_not_digit(s: Seq<char>, t: int)
    requires
        ({
            let body = if s.len() > 0 && s[0] == '+' {
                s.drop_first()
            } else {
                s
            };
            0 <= t < body.len() && !is_digit(body[t])
        }),
    ensures
        u64_str_val(s) is None,
{
    let body = if s.len() > 0 && s[0] == '+' {
        s.drop_first()
    } else {
        s
    };
    assert(!all_digits(body)) by {
        assert(0 <= t < body.len() && !is_digit(body[t]));
    }
}

proof fn lemma_digits_strip(s: Seq<char>, z: int)
    requires
        0 <= z <= s.len(),
        forall|t: int| 0 <= t < z ==> s[t] == '0',
    ensures
        digits_val(s.skip(z)) == digits_val(s),
    decreases s.len(),
{
    if z == 0 {
        assert(s.skip(0) =~= s);
    } else if s.len() > 0 {
        let head = s.drop_last();
        if z == s.len() {
            assert(s.last() == '0');
            assert(digit_val(s.last()) == 0);
            lemma_digits_strip(head, z - 1);
            assert(head.skip(z - 1) =~= Seq::<char>::empty());
            assert(s.skip(z) =~= Seq::<char>::empty());
        } else {
            lemma_digits_strip(head, z);
            assert(s.skip(z).drop_last() =~= head.skip(z));
            assert(s.skip(z).last() == s.last());
            assert(s.skip(z).len() > 0);
        }
    }
}

fn digits_range_to_u64(s: &Vec<char>, from: usize, to: usize) -> (r: u64)
    requires
        from <= to <= s.len(),
        to - from <= 19,
        forall|k: int| from <= k < to ==> is_digit(s@[k]),
    ensures
        r as int == digits_val(s@.subrange(from as int, to as int)),
{
    let mut val: u64 = 0;
    let mut k: usize = from;
    proof {
        assert(s@.subrange(from as int, from as int) =~= Seq::<char>::empty());
    }
    while k < to
        invariant
            from <= k <= to <= s.len(),
            to - from <= 19,
            forall|t: int| from <= t < to ==> is_digit(s@[t]),
            val as int == digits_val(s@.subrange(from as int, k as int)),
        decreases to - k,
    {
        let c = s[k];
        proof {
            let pre = s@.subrange(from as int, k as int);
            assert(forall|t: int| 0 <= t < pre.len() ==> is_digit(#[trigger] pre[t]));
            lemma_digits_val_upper(pre);
            lemma_pow10_mono(pre.len() as nat, 18);
            lemma_pow10_values();
            assert(s@.subrange(from as int, k as int + 1).drop_last() =~= pre);
            assert(s@.subrange(from as int, k as int + 1).last() == s@[k as int]);
        }
        val = val * 10 + crate::json::digit_value(c);
        k = k + 1;
    }
    val
}

/// Parses an application id string as an unsigned 64-bit decimal number:
/// an optional leading `+`, then digits, leading zeros allowed, value up to
/// `u64::MAX`.
pub fn to_app_id(app_id: &str) -> (r: Result<u64, DecodeError>)
    ensures
        match r {
            Ok(v) => u64_str_val(app_id@) == Some(v as int),
            Err(e) => u64_str_val(app_id@) is None && e == DecodeError::NonNumericApplicationId,
        },
{
    let chars = chars_vec(app_id);
    let n = chars.len();
    let start: usize = if n > 0 && chars[0] == '+' {
        1
    } else {
        0
    };
    let ghost body = if app_id@.len() > 0 && app_id@[0] == '+' {
        app_id@.drop_first()
    } else {
        app_id@
    };
    proof {
        assert(body =~= chars@.skip(start as int));
        assert(body == chars@.skip(start as int));
    }
    if n == start {
        return Err(DecodeError::NonNumericApplicationId);
    }
    let mut k: usize = start;
    while k < n
        invariant
            start <= k <= n,
            n == chars@.len(),
            chars@ == app_id@,
            body == chars@.skip(start as int),
            body == (if app_id@.len() > 0 && app_id@[0] == '+' {
                app_id@.drop_first()
            } else {
                app_id@
            }),
            forall|t: int| start <= t < k ==> is_digit(chars@[t]),
        decreases n - k,
    {
        if !crate::json::is_digit_char(chars[k]) {
            proof {
                assert(body.len() == n - start);
                assert(body[k - start] == chars@[k as int]);
                assert(!is_digit(body[k - start]));
                lemma_u64_str_val_not_digit(app_id@, k - start);
            }
            return Err(DecodeError::NonNumericApplicationId);
        }
        k = k + 1;
    }
    proof {
        assert(forall|t: int| 0 <= t < body.len() ==> is_digit(#[trigger] body[t]));
        assert(all_digits(body));
    }
    let mut z: usize = start;
    while z < n && chars[z] == '0'
        invariant
            start <= z <= n,
            n == chars@.len(),
            forall|t: int| start <= t < z ==> chars@[t] == '0',
        decreases n - z,
    {
        z = z + 1;
    }
    proof {
        lemma_digits_strip(body, z - start);
        assert(body.skip(z - start) =~= chars@.skip(z as int));
        assert(chars@.skip(z as int) =~= chars@.subrange(z as int, n as int));
    }
    if z == n {
        proof {
            assert(digits_val(body) == digits_val(Seq::<char>::empty()));
        }
        return Ok(0);
    }
    let len_s = n - z;
    let ghost stripped = chars@.subrange(z as int, n as int);
    proof {
        assert(forall|t: int| 0 <= t < stripped.len() ==> is_digit(#[trigger] stripped[t]));
        assert(stripped[0] == chars@[z as int]);
        assert(stripped[0] != '0');
    }
    if len_s > 20 {
        proof {
            lemma_digits_val_lower(stripped);
            lemma_pow10_mono(20, (stripped.len() - 1) as nat);
            lemma_pow10_values();
        }
        return Err(DecodeError::NonNumericApplicationId);
    }
    if len_s <= 19 {
        let val = digits_range_to_u64(&chars, z, n);
        return Ok(val);
    }
    // Exactly 20 digits: fold in the last digit with an explicit overflow
    // check against u64::MAX = 18446744073709551615.
    let v19 = digits_range_to_u64(&chars, z, n - 1);
    proof {
        assert(is_digit(stripped[stripped.len() - 1]));
        assert(stripped[stripped.len() - 1] == chars@[n as int - 1]);
    }
    let d = crate::json::digit_value(chars[n - 1]);
    proof {
        assert(stripped.drop_last() =~= chars@.subrange(z as int, n as int - 1));
        assert(stripped.last() == chars@[n as int - 1]);
        assert(digits_val(stripped) == v19 as int * 10 + d);
    }
    if v19 < 1_844_674_407_370_955_161u64 || (v19 == 1_844_674_407_370_955_161u64 && d <= 5) {
        Ok(v19 * 10 + d)
    } else {
        Err(DecodeError::NonNumericApplicationId)
    }
}

// ---------------------------------------------------------------------------
// The validated descriptor
// ---------------------------------------------------------------------------

/// The fixed enumeration of activity kinds.
#[derive(Clone, Copy, Debug, PartialEq, Eq, Structural)]
pub enum ActivityKind {
    Playing,
    Listening,
    Watching,
    Competing,
}

/// The kind a numeric code maps to.  Codes outside the enumeration
/// (including 1 and 4) fall back to `Playing`.
pub open spec fn kind_of_code(code: int) -> ActivityKind {
    if code == 0 {
        ActivityKind::Playing
    } else if code == 2 {
        ActivityKind::Listening
    } else if code == 3 {
        ActivityKind::Watching
    } else if code == 5 {
        ActivityKind::Competing
    } else {
        ActivityKind::Playing
    }
}

/// Maps a raw activity-kind code to its kind.
pub fn kind_from_code(code: i32) -> (r: ActivityKind)
    ensures
        r == kind_of_code(code as int),
{
    if code == 0 {
        ActivityKind::Playing
    } else if code == 2 {
        ActivityKind::Listening
    } else if code == 3 {
        ActivityKind::Watching
    } else if code == 5 {
        ActivityKind::Competing
    } else {
        ActivityKind::Playing
    }
}

/// Law: the kind mapping is exact on 0, 2, 3 and 5, and every other code
/// falls back to `Playing`.
pub proof fn lemma_kind_mapping(code: int)
    ensures
        code == 0 ==> kind_of_code(code) is Playing,
        code == 2 ==> kind_of_code(code) is Listening,
        code == 3 ==> kind_of_code(code) is Watching,
        code == 5 ==> kind_of_code(code) is Competing,
        code != 0 && code != 2 && code != 3 && code != 5 ==> kind_of_code(code) is Playing,
{
}

/// The large-image asset pair of a descriptor.
pub struct LargeImage {
    pub key: String,
    pub text: Option<String>,
}

/// A validated, immutable activity descriptor.
pub struct ActivityDescriptor {
    pub kind: ActivityKind,
    pub details: Option<String>,
    pub state: Option<String>,
    pub start_timestamp: Option<i64>,
    pub large_image: Option<LargeImage>,
}

pub struct LargeImageModel {
    pub key: Seq<char>,
    pub text: Option<Seq<char>>,
}

pub struct DescriptorModel {
    pub kind: ActivityKind,
    pub details: Option<Seq<char>>,
    pub state: Option<Seq<char>>,
    pub start_timestamp: Option<int>,
    pub large_image: Option<LargeImageModel>,
}

impl View for ActivityDescriptor {
    type V = DescriptorModel;

    open spec fn view(&self) -> DescriptorModel {
        DescriptorModel {
            kind: self.kind,
            details: opt_string_view(self.details),
            state: opt_string_view(self.state),
            start_timestamp: opt_i64_view(self.start_timestamp),
            large_image: match self.large_image {
                Some(LargeImage { key, text }) => Some(
                    LargeImageModel { key: key@, text: opt_string_view(text) },
                ),
                None => None,
            },
        }
    }
}

/// The descriptor a raw field record validates to: empty text fields are
/// dropped, the image text rides along only with a non-empty image key, and
/// an absent kind code defaults to 0.
pub open spec fn descriptor_model(p: ParamsModel) -> DescriptorModel {
    DescriptorModel {
        kind: kind_of_code(
            match p.activity_kind {
                Some(c) => c,
                None => 0,
            },
        ),
        details: match p.details {
            Some(d) => if d.len() > 0 {
                Some(d)
            } else {
                None
            },
            None => None,
        },
        state: match p.state {
            Some(st) => if st.len() > 0 {
                Some(st)
            } else {
                None
            },
            None => None,
        },
        start_timestamp: p.timestamp,
        large_image: match p.large_image_key {
            Some(key) => if key.len() > 0 {
                Some(LargeImageModel { key, text: p.large_image_text })
            } else {
                None
            },
            None => None,
        },
    }
}

/// What creating an activity from payload text yields: the validated
/// descriptor and numeric application id, or the decode error.
pub open spec fn create_model(s: Seq<char>) -> Result<(DescriptorModel, int), DecodeError> {
    match decode_model(s) {
        Err(e) => Err(e),
        Ok(p) => match u64_str_val(p.app_id) {
            None => Err(DecodeError::NonNumericApplicationId),
            Some(v) => Ok((descriptor_model(p), v)),
        },
    }
}

/// The result of validating a payload: the descriptor to publish and the
/// numeric application id to connect with.
pub struct CreateActivityResult {
    pub activity: ActivityDescriptor,
    pub app_id: u64,
}

/// Decodes and validates payload text into the descriptor and application
/// id, exactly as `create_model` describes.
pub fn create_activity(activity_json: String) -> (r: Result<CreateActivityResult, DecodeError>)
    ensures
        match r {
            Ok(res) => create_model(activity_json@) == Ok::<(DescriptorModel, int), DecodeError>(
                (res.activity@, res.app_id as int),
            ),
            Err(e) => create_model(activity_json@) == Err::<(DescriptorModel, int), DecodeError>(e),
        },
{
    let params = match parse_activity_json(activity_json.as_str()) {
        Err(e) => {
            return Err(e);
        },
        Ok(p) => p,
    };
    let app_id = match to_app_id(params.app_id.as_str()) {
        Err(e) => {
            return Err(e);
        },
        Ok(v) => v,
    };
    let kind_code: i32 = match params.activity_kind {
        Some(c) => c,
        None => 0,
    };
    let kind = kind_from_code(kind_code);
    let details = match params.details {
        Some(d) => if d.as_str().unicode_len() > 0 {
            Some(d)
        } else {
            None
        },
        None => None,
    };
    let state = match params.state {
        Some(st) => if st.as_str().unicode_len() > 0 {
            Some(st)
        } else {
            None
        },
        None => None,
    };
    let large_image = match params.large_image_key {
        Some(key) => if key.as_str().unicode_len() > 0 {
            Some(LargeImage { key, text: params.large_image_text })
        } else {
            None
        },
        None => None,
    };
    Ok(
        CreateActivityResult {
            activity: ActivityDescriptor {
                kind,
                details,
                state,
                start_timestamp: params.timestamp,
                large_image,
            },
            app_id,
        },
    )
}

// ---------------------------------------------------------------------------
// Decode laws
// ---------------------------------------------------------------------------

proof fn lemma_scan_no_app_id(fs: Seq<(Seq<char>, JsonValueModel)>, n: int)
    requires
        n <= fs.len(),
        forall|k: int| 0 <= k < fs.len() ==> (#[trigger] fs[k]).0 != "app_id"@,
    ensures
        scan_fields(fs, n).app_id is None,
    decreases n,
{
    if n > 0 {
        lemma_scan_no_app_id(fs, n - 1);
    }
}

/// Law: payload text that does not parse as a flat object, or that parses
/// without an `app_id` member, never decodes to a record.
pub proof fn lemma_missing_app_id_fails(s: Seq<char>)
    requires
        match sp_object(s) {
            Some(fs) => forall|k: int| 0 <= k < fs.len() ==> (#[trigger] fs[k]).0 != "app_id"@,
            None => true,
        },
    ensures
        decode_model(s) is Err,
{
    match sp_object(s) {
        Some(fs) => {
            lemma_scan_no_app_id(fs, fs.len() as int);
        },
        None => {},
    }
}

/// Law: text whose decoded record carries a non-numeric `app_id` never
/// validates to an activity.
pub proof fn lemma_non_numeric_app_id_fails(s: Seq<char>)
    requires
        decode_model(s) matches Ok(p) && u64_str_val(p.app_id) is None,
    ensures
        create_model(s) == Err::<(DescriptorModel, int), DecodeError>(
            DecodeError::NonNumericApplicationId,
        ),
{
}

} // verus!
