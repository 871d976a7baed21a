//! Flag evaluation for the debug UI.
//!
//! Works on a compiled artifact (the library's copy of the compiler's AST) and on
//! user and context JSON values. Everything the UI shows is computed here except
//! the numeric coercion of operands of comparison operators, which runs on `f64`
//! in the caller and reaches [`evaluate_binary_op`] as a [`NumericComparison`].

use vstd::prelude::*;
use crate::error::CliError;
use crate::json::{
    JsonNumber, JsonValue, JsonView, NumberView, value_get, copy_value, json_equal, values_equal,
    json_text, json_to_string, view_get, lemma_view_items, view_items,
};
use crate::text::{
    text_lt, text_eq, chars_of, chars_eq, chars_order, owned, push_text, push_char, eq_ignore_ascii_case,
    text_eq_ignore_ascii_case, is_prefix_of, is_suffix_of, contains_text, text_starts_with, text_ends_with,
    text_contains, unicode_uppercase, unicode_lowercase, to_uppercase, to_lowercase, split_on, split_chars, lemma_split_on_len,
};

verus! {

// ---------------------------------------------------------------------------
// The artifact
// ---------------------------------------------------------------------------

/// Operator codes of a compiled artifact.
pub const OP_EQ: u8 = 0;
pub const OP_NE: u8 = 1;
pub const OP_GT: u8 = 2;
pub const OP_GTE: u8 = 3;
pub const OP_LT: u8 = 4;
pub const OP_LTE: u8 = 5;

pub const LOGIC_AND: u8 = 0;
pub const LOGIC_OR: u8 = 1;
pub const LOGIC_NOT: u8 = 2;

pub const FUNC_STARTS_WITH: u8 = 0;
pub const FUNC_ENDS_WITH: u8 = 1;
pub const FUNC_CONTAINS: u8 = 2;
pub const FUNC_IN: u8 = 3;
pub const FUNC_MATCHES: u8 = 4;
pub const FUNC_UPPER: u8 = 5;
pub const FUNC_LOWER: u8 = 6;
pub const FUNC_LENGTH: u8 = 7;

#[derive(Debug)]
pub enum ServePayload {
    String(String),
    Number(u32),
}

#[derive(Debug, Clone, Copy)]
pub struct Variation {
    pub var_index: u32,
    pub percentage: u8,
}

#[derive(Debug)]
pub enum RolloutValue {
    String(String),
    Number(u32),
}

#[derive(Debug)]
pub struct RolloutPayload {
    pub value_index: RolloutValue,
    pub percentage: u8,
}

#[derive(Debug)]
pub enum Expression {
    BinaryOp { op_code: u8, left: Box<Expression>, right: Box<Expression> },
    LogicalOp { op_code: u8, left: Box<Expression>, right: Option<Box<Expression>> },
    Property { prop_index: u32 },
    Literal { value: JsonValue },
    Func { func_code: u8, args: Vec<Expression> },
}

#[derive(Debug)]
pub enum Rule {
    ServeWithoutWhen(ServePayload),
    ServeWithWhen(Expression, ServePayload),
    VariationsWithoutWhen(Vec<Variation>),
    VariationsWithWhen(Expression, Vec<Variation>),
    RolloutWithoutWhen(RolloutPayload),
    RolloutWithWhen(Expression, RolloutPayload),
}

/// A compiled flag artifact for one environment.
#[derive(Debug)]
pub struct Artifact {
    pub version: String,
    pub environment: String,
    pub string_table: Vec<String>,
    pub flags: Vec<Vec<Rule>>,
    pub flag_names: Vec<u32>,
    pub signature: Option<Vec<u8>>,
}

/// `string_table.get(i)`.
pub open spec fn table_get(a: &Artifact, i: int) -> Option<Seq<char>> {
    if 0 <= i < a.string_table@.len() {
        Some(a.string_table@[i]@)
    } else {
        None
    }
}

/// The name of the flag at position `i`, when its index is in the string table.
pub open spec fn flag_name_at(a: &Artifact, i: int) -> Option<Seq<char>> {
    if 0 <= i < a.flag_names@.len() {
        table_get(a, a.flag_names@[i] as int)
    } else {
        None
    }
}

/// Position of a flag by name: the first position whose name matches.
pub fn find_flag_index(artifact: &Artifact, flag_name: &str) -> (r: Option<usize>)
    ensures
        r matches Some(i) ==> i < artifact.flag_names@.len() && flag_name_at(artifact, i as int) == Some(flag_name@)
            && forall|j: int| 0 <= j < i ==> flag_name_at(artifact, j) != Some(flag_name@),
        r is None ==> forall|j: int| 0 <= j < artifact.flag_names@.len() ==> flag_name_at(artifact, j) != Some(flag_name@),
{
    let mut i: usize = 0;
    while i < artifact.flag_names.len()
        invariant
            i <= artifact.flag_names@.len(),
            forall|j: int| 0 <= j < i ==> flag_name_at(artifact, j) != Some(flag_name@),
        decreases artifact.flag_names@.len() - i,
    {
        let name_index = artifact.flag_names[i];
        if (name_index as usize) < artifact.string_table.len() {
            if text_eq(artifact.string_table[name_index as usize].as_str(), flag_name) {
                return Some(i);
            }
        }
        i = i + 1;
    }
    None
}

/// The string table entry at `index`, copied.
pub fn table_string(artifact: &Artifact, index: u64) -> (r: Option<String>)
    ensures
        r matches Some(s) ==> table_get(artifact, index as int) == Some(s@),
        r is None ==> table_get(artifact, index as int) is None,
{
    if index < artifact.string_table.len() as u64 {
        Some(artifact.string_table[index as usize].clone())
    } else {
        None
    }
}

// ---------------------------------------------------------------------------
// Property access
// ---------------------------------------------------------------------------

pub open spec fn is_polluting(part: Seq<char>) -> bool {
    part == "__proto__"@ || part == "constructor"@ || part == "prototype"@
}

/// Follows a path of keys into nested objects.
pub open spec fn navigate(v: JsonView, parts: Seq<Seq<char>>) -> Option<JsonView>
    decreases parts.len(),
{
    if parts.len() == 0 {
        Some(v)
    } else {
        match view_get(v, parts[0]) {
            Some(x) => navigate(x, parts.drop_first()),
            None => None,
        }
    }
}

/// The object a property path starts from.
pub open spec fn property_root(root: Seq<char>, user: JsonView, context: Option<JsonView>) -> Option<JsonView> {
    if root == "user"@ {
        Some(user)
    } else if root == "context"@ {
        context
    } else {
        match view_get(user, root) {
            Some(x) => Some(x),
            None => match context {
                Some(c) => view_get(c, root),
                None => None,
            },
        }
    }
}

/// The value at a dot-separated property path.
pub open spec fn spec_get_property(path: Seq<char>, user: JsonView, context: Option<JsonView>) -> Option<JsonView> {
    let parts = split_on(path, '.');
    if exists|i: int| 0 <= i < parts.len() && is_polluting(#[trigger] parts[i]) {
        None
    } else {
        match property_root(parts[0], user, context) {
            Some(o) => navigate(o, parts.drop_first()),
            None => None,
        }
    }
}

pub open spec fn opt_view(v: Option<JsonValue>) -> Option<JsonView> {
    match v {
        Some(x) => Some(x@),
        None => None,
    }
}

pub open spec fn opt_ref_view(v: &Option<JsonValue>) -> Option<JsonView> {
    match v {
        Some(x) => Some(x@),
        None => None,
    }
}

fn part_is_polluting(part: &Vec<char>) -> (r: bool)
    ensures
        r == is_polluting(part@),
{
    let a = chars_of("__proto__");
    let b = chars_of("constructor");
    let c = chars_of("prototype");
    chars_eq(part, &a) || chars_eq(part, &b) || chars_eq(part, &c)
}

/// Reads a property of the user or context by a dot-separated path; paths through
/// `__proto__`, `constructor` or `prototype` read nothing.
pub fn get_property(prop_path: &str, user: &JsonValue, context: &Option<JsonValue>) -> (r: Option<JsonValue>)
    ensures
        opt_view(r) == spec_get_property(prop_path@, user@, opt_ref_view(context)),
{
    let parts = split_chars(prop_path, '.');
    let ghost sp = split_on(prop_path@, '.');
    proof {
        lemma_split_on_len(prop_path@, '.');
    }
    let mut i: usize = 0;
    while i < parts.len()
        invariant
            parts@.len() == sp.len(),
            sp == split_on(prop_path@, '.'),
            forall|j: int| 0 <= j < parts@.len() ==> #[trigger] parts@[j]@ == sp[j],
            i <= parts@.len(),
            forall|j: int| 0 <= j < i ==> !is_polluting(#[trigger] sp[j]),
        decreases parts@.len() - i,
    {
        if part_is_polluting(&parts[i]) {
            assert(is_polluting(sp[i as int]));
            return None;
        }
        i = i + 1;
    }
    let root = crate::text::string_from_chars(parts[0].as_slice());
    let obj: Option<&JsonValue> = if text_eq(root.as_str(), "user") {
        Some(user)
    } else if text_eq(root.as_str(), "context") {
        match context {
            Some(c) => Some(c),
            None => None,
        }
    } else {
        match value_get(user, root.as_str()) {
            Some(x) => Some(x),
            None => match context {
                Some(c) => value_get(c, root.as_str()),
                None => None,
            },
        }
    };
    let mut current: &JsonValue = match obj {
        Some(o) => o,
        None => return None,
    };
    let mut k: usize = 1;
    proof {
        assert(sp.drop_first().skip(0) =~= sp.drop_first());
    }
    while k < parts.len()
        invariant
            parts@.len() == sp.len(),
            forall|j: int| 0 <= j < parts@.len() ==> #[trigger] parts@[j]@ == sp[j],
            1 <= k <= parts@.len(),
            navigate(property_root(sp[0], user@, opt_ref_view(context))->Some_0, sp.drop_first())
                == navigate(current@, sp.skip(k as int)),
            property_root(sp[0], user@, opt_ref_view(context)) is Some,
            sp == split_on(prop_path@, '.'),
            forall|j: int| 0 <= j < sp.len() ==> !is_polluting(#[trigger] sp[j]),
        decreases parts@.len() - k,
    {
        let key = crate::text::string_from_chars(parts[k].as_slice());
        proof {
            assert(sp.skip(k as int)[0] == sp[k as int]);
            assert(sp.skip(k as int).drop_first() =~= sp.skip(k + 1));
        }
        match value_get(current, key.as_str()) {
            Some(x) => {
                current = x;
            },
            None => {
                assert(key@ == sp[k as int]);
                assert(navigate(current@, sp.skip(k as int)) is None);
                return None;
            },
        }
        k = k + 1;
    }
    proof {
        assert(sp.skip(k as int).len() == 0);
    }
    Some(copy_value(current))
}

// ---------------------------------------------------------------------------
// Coercions and operators
// ---------------------------------------------------------------------------

/// `coerce_to_boolean`: booleans; the strings true/1/false/0 (letters in any case);
/// numbers by being non-zero.
pub open spec fn spec_coerce_to_boolean(v: JsonView) -> Option<bool> {
    match v {
        JsonView::Bool(b) => Some(b),
        JsonView::Str(s) => if eq_ignore_ascii_case(s, "true"@) || s == "1"@ {
            Some(true)
        } else if eq_ignore_ascii_case(s, "false"@) || s == "0"@ {
            Some(false)
        } else {
            None
        },
        JsonView::Number(n) => Some(match n {
            NumberView::PosInt(x) => x != 0,
            NumberView::NegInt(x) => x != 0,
            NumberView::Float(bits, _) => bits % 0x8000_0000_0000_0000 != 0,
        }),
        _ => None,
    }
}

/// Coerces a value to a boolean. Strings are compared after lower-casing; of the
/// characters whose lower case is ASCII only the Kelvin sign is not itself ASCII,
/// and none of `true`, `false`, `1`, `0` holds a `k`, so comparing ASCII letters
/// without regard to case decides the same.
pub fn coerce_to_boolean(value: &JsonValue) -> (r: Option<bool>)
    ensures
        r == spec_coerce_to_boolean(value@),
{
    match value {
        JsonValue::Bool(b) => Some(*b),
        JsonValue::String(s) => {
            if text_eq_ignore_ascii_case(s.as_str(), "true") || text_eq(s.as_str(), "1") {
                Some(true)
            } else if text_eq_ignore_ascii_case(s.as_str(), "false") || text_eq(s.as_str(), "0") {
                Some(false)
            } else {
                None
            }
        },
        JsonValue::Number(n) => Some(match n {
            JsonNumber::PosInt(x) => *x != 0,
            JsonNumber::NegInt(x) => *x != 0,
            JsonNumber::Float { bits, .. } => *bits % 0x8000_0000_0000_0000 != 0,
        }),
        _ => None,
    }
}

pub open spec fn spec_logical_op(op_code: u8, left: JsonView, right: JsonView) -> Option<JsonView> {
    let l = match spec_coerce_to_boolean(left) { Some(b) => b, None => false };
    let r = match spec_coerce_to_boolean(right) { Some(b) => b, None => false };
    if op_code == LOGIC_AND {
        Some(JsonView::Bool(l && r))
    } else if op_code == LOGIC_OR {
        Some(JsonView::Bool(l || r))
    } else {
        None
    }
}

/// `&&` / `||` on two evaluated operands (both sides are always evaluated).
pub fn evaluate_logical_op(op_code: u8, left: &JsonValue, right: &JsonValue) -> (r: Option<JsonValue>)
    ensures
        opt_view(r) == spec_logical_op(op_code, left@, right@),
{
    let l = match coerce_to_boolean(left) { Some(b) => b, None => false };
    let rt = match coerce_to_boolean(right) { Some(b) => b, None => false };
    if op_code == LOGIC_AND {
        Some(JsonValue::Bool(l && rt))
    } else if op_code == LOGIC_OR {
        Some(JsonValue::Bool(l || rt))
    } else {
        None
    }
}

/// A logical node given the values of its operands (`None` where an operand has none).
pub open spec fn spec_logical_node(op_code: u8, left: Option<JsonView>, right: Option<JsonView>) -> Option<JsonView> {
    if op_code == LOGIC_NOT {
        match left {
            Some(l) => Some(JsonView::Bool(!(match spec_coerce_to_boolean(l) { Some(b) => b, None => false }))),
            None => None,
        }
    } else {
        match (left, right) {
            (Some(l), Some(r)) => spec_logical_op(op_code, l, r),
            _ => None,
        }
    }
}

pub fn evaluate_logical_node(op_code: u8, left: Option<&JsonValue>, right: Option<&JsonValue>) -> (r: Option<JsonValue>)
    ensures
        opt_view(r) == spec_logical_node(op_code,
            match left { Some(x) => Some(x@), None => None },
            match right { Some(x) => Some(x@), None => None }),
{
    if op_code == LOGIC_NOT {
        match left {
            Some(l) => {
                let b = match coerce_to_boolean(l) { Some(b) => b, None => false };
                Some(JsonValue::Bool(!b))
            },
            None => None,
        }
    } else {
        match (left, right) {
            (Some(l), Some(r)) => evaluate_logical_op(op_code, l, r),
            _ => None,
        }
    }
}

/// What the floating-point coercion of two operands decided: whether the numbers
/// are equal, and the sign of their difference (-1, 1, or 0 when it is not a number).
#[derive(Debug, Clone, Copy)]
pub struct NumericComparison {
    pub equal: bool,
    pub sign: i8,
}

pub open spec fn text_order_spec(a: Seq<char>, b: Seq<char>) -> int {
    if text_lt(a, b) { -1 } else if text_lt(b, a) { 1 } else { 0 }
}

/// Order of the JSON texts of two values.
pub open spec fn string_order(l: JsonView, r: JsonView) -> int {
    text_order_spec(json_text(l), json_text(r))
}

/// `coerce_and_compare`: 0 when the operands count as equal.
pub open spec fn spec_coerce_and_compare(l: JsonView, r: JsonView, numeric: Option<NumericComparison>) -> int {
    if json_equal(l, r) {
        0
    } else if numeric is Some {
        if numeric->Some_0.equal { 0 } else { 1 }
    } else if spec_coerce_to_boolean(l) is Some && spec_coerce_to_boolean(r) is Some {
        if spec_coerce_to_boolean(l) == spec_coerce_to_boolean(r) { 0 } else { 1 }
    } else {
        string_order(l, r)
    }
}

/// `compare_values`: the sign used by the ordering operators.
pub open spec fn spec_compare_values(l: JsonView, r: JsonView, numeric: Option<NumericComparison>) -> int {
    match numeric {
        Some(n) => n.sign as int,
        None => string_order(l, r),
    }
}

pub open spec fn spec_binary_op(op_code: u8, l: JsonView, r: JsonView, numeric: Option<NumericComparison>) -> Option<JsonView> {
    if op_code == OP_EQ {
        Some(JsonView::Bool(if l is Null || r is Null { (l is Null) == (r is Null) } else { spec_coerce_and_compare(l, r, numeric) == 0 }))
    } else if op_code == OP_NE {
        Some(JsonView::Bool(if l is Null || r is Null { (l is Null) != (r is Null) } else { spec_coerce_and_compare(l, r, numeric) != 0 }))
    } else if op_code == OP_GT {
        Some(JsonView::Bool(spec_compare_values(l, r, numeric) > 0))
    } else if op_code == OP_GTE {
        Some(JsonView::Bool(spec_compare_values(l, r, numeric) >= 0))
    } else if op_code == OP_LT {
        Some(JsonView::Bool(spec_compare_values(l, r, numeric) < 0))
    } else if op_code == OP_LTE {
        Some(JsonView::Bool(spec_compare_values(l, r, numeric) <= 0))
    } else {
        None
    }
}

/// Order of the JSON texts of two values: -1, 0 or 1.
pub fn json_text_order(l: &JsonValue, r: &JsonValue) -> (res: i8)
    ensures
        res as int == string_order(l@, r@),
{
    let a = json_to_string(l);
    let b = json_to_string(r);
    let x = chars_of(a.as_str());
    let y = chars_of(b.as_str());
    let o = chars_order(&x, &y);
    proof {
        crate::text::lemma_text_lt_total(json_text(l@), json_text(r@));
        if text_lt(json_text(l@), json_text(r@)) {
            crate::text::lemma_text_lt_asymmetric(json_text(l@), json_text(r@));
        }
    }
    o
}

pub fn coerce_and_compare(l: &JsonValue, r: &JsonValue, numeric: Option<NumericComparison>) -> (res: i8)
    ensures
        res as int == spec_coerce_and_compare(l@, r@, numeric),
{
    if values_equal(l, r) {
        return 0;
    }
    match numeric {
        Some(n) => return if n.equal { 0 } else { 1 },
        None => {},
    }
    match (coerce_to_boolean(l), coerce_to_boolean(r)) {
        (Some(a), Some(b)) => if a == b { 0 } else { 1 },
        _ => json_text_order(l, r),
    }
}

pub fn compare_values(l: &JsonValue, r: &JsonValue, numeric: Option<NumericComparison>) -> (res: i8)
    ensures
        res as int == spec_compare_values(l@, r@, numeric),
{
    match numeric {
        Some(n) => n.sign,
        None => json_text_order(l, r),
    }
}

/// A comparison operator applied to two evaluated operands.
pub fn evaluate_binary_op(op_code: u8, left: &JsonValue, right: &JsonValue, numeric: Option<NumericComparison>) -> (r: Option<JsonValue>)
    ensures
        opt_view(r) == spec_binary_op(op_code, left@, right@, numeric),
{
    let l_null = matches!(left, JsonValue::Null);
    let r_null = matches!(right, JsonValue::Null);
    if op_code == OP_EQ {
        Some(JsonValue::Bool(if l_null || r_null { l_null == r_null } else { coerce_and_compare(left, right, numeric) == 0 }))
    } else if op_code == OP_NE {
        Some(JsonValue::Bool(if l_null || r_null { l_null != r_null } else { coerce_and_compare(left, right, numeric) != 0 }))
    } else if op_code == OP_GT {
        Some(JsonValue::Bool(compare_values(left, right, numeric) > 0))
    } else if op_code == OP_GTE {
        Some(JsonValue::Bool(compare_values(left, right, numeric) >= 0))
    } else if op_code == OP_LT {
        Some(JsonValue::Bool(compare_values(left, right, numeric) < 0))
    } else if op_code == OP_LTE {
        Some(JsonValue::Bool(compare_values(left, right, numeric) <= 0))
    } else {
        None
    }
}

// ---------------------------------------------------------------------------
// Hashing and bucketing
// ---------------------------------------------------------------------------

/// djb2 over bytes, in 32-bit wrapping arithmetic.
pub open spec fn djb2(bytes: Seq<u8>) -> int
    decreases bytes.len(),
{
    if bytes.len() == 0 {
        5381
    } else {
        (djb2(bytes.drop_last()) * 33 + bytes.last()) % 0x1_0000_0000
    }
}

/// The hash of a user id: djb2 over its UTF-8 bytes in `i32`, then the absolute value.
pub open spec fn spec_hash_string(s: Seq<char>) -> u32 {
    let h = djb2(vstd::utf8::encode_utf8(s));
    (if h < 0x8000_0000 { h } else { 0x1_0000_0000 - h }) as u32
}

pub proof fn lemma_djb2_range(bytes: Seq<u8>)
    ensures
        0 <= djb2(bytes) < 0x1_0000_0000,
    decreases bytes.len(),
{
    if bytes.len() > 0 {
        lemma_djb2_range(bytes.drop_last());
    }
}

/// String hash used for rollout buckets (djb2 over the UTF-8 bytes, absolute value of the `i32`).
pub fn hash_string(s: &str) -> (r: u32)
    ensures
        r == spec_hash_string(s@),
{
    let bytes = s.as_bytes();
    let mut h: u32 = 5381;
    let mut i: usize = 0;
    while i < bytes.len()
        invariant
            bytes@ == vstd::utf8::encode_utf8(s@),
            i <= bytes@.len(),
            h as int == djb2(bytes@.take(i as int)),
        decreases bytes@.len() - i,
    {
        proof {
            assert(bytes@.take(i + 1).drop_last() =~= bytes@.take(i as int));
            assert(bytes@.take(i + 1).last() == bytes@[i as int]);
        }
        let b = bytes[i];
        h = h.wrapping_mul(33).wrapping_add(b as u32);
        proof {
            lemma_djb2_range(bytes@.take(i as int));
            let t = (djb2(bytes@.take(i as int)) * 33 + b) % 0x1_0000_0000;
            assert(h as int == t) by (nonlinear_arith)
                requires
                    h as int == ((((djb2(bytes@.take(i as int)) * 33) % 0x1_0000_0000) + b) % 0x1_0000_0000),
                    t == (djb2(bytes@.take(i as int)) * 33 + b) % 0x1_0000_0000,
                    0 <= djb2(bytes@.take(i as int)),
            ;
        }
        i = i + 1;
    }
    proof {
        assert(bytes@.take(bytes@.len() as int) =~= bytes@);
    }
    if h < 0x8000_0000 {
        h
    } else {
        0u32.wrapping_sub(h)
    }
}

/// The user's `id` string, or the empty string.
pub open spec fn user_id_of(user: JsonView) -> Seq<char> {
    match view_get(user, "id"@) {
        Some(JsonView::Str(s)) => s,
        _ => seq![],
    }
}

pub fn user_id(user: &JsonValue) -> (r: String)
    ensures
        r@ == user_id_of(user@),
{
    match value_get(user, "id") {
        Some(JsonValue::String(s)) => s.clone(),
        _ => String::new(),
    }
}

pub open spec fn spec_select_rollout(user: JsonView, pct: u8) -> bool {
    if pct == 0 {
        false
    } else if pct >= 100 {
        true
    } else {
        spec_hash_string(user_id_of(user)) % 100 < pct
    }
}

/// Whether a user falls inside a percentage rollout (by the hash of the user id).
pub fn select_rollout(user: &JsonValue, pct: u8) -> (r: bool)
    ensures
        r == spec_select_rollout(user@, pct),
{
    if pct == 0 {
        return false;
    }
    if pct >= 100 {
        return true;
    }
    let id = user_id(user);
    let hash = hash_string(id.as_str());
    let bucket = (hash % 100) as u8;
    bucket < pct
}

/// Rollouts nest: a user inside a rollout at one percentage is inside at every
/// larger one; nobody is inside at 0% and everybody is at 100%.
pub proof fn law_rollout_monotone(user: JsonView, p: u8, q: u8)
    requires
        p <= q,
    ensures
        spec_select_rollout(user, p) ==> spec_select_rollout(user, q),
        !spec_select_rollout(user, 0),
        spec_select_rollout(user, 100),
{
}

/// Sum of variation percentages.
pub open spec fn pct_sum(vs: Seq<Variation>) -> int
    decreases vs.len(),
{
    if vs.len() == 0 {
        0
    } else {
        pct_sum(vs.drop_last()) + vs.last().percentage
    }
}

/// The first variation whose cumulative percentage passes `bucket`, counting from
/// `acc`; -1 when there is none.
pub open spec fn pick_variation(vs: Seq<Variation>, bucket: int, acc: int) -> int
    decreases vs.len(),
{
    if vs.len() == 0 {
        -1
    } else if bucket < acc + vs[0].percentage {
        0
    } else {
        let r = pick_variation(vs.drop_first(), bucket, acc + vs[0].percentage);
        if r == -1 { -1 } else { 1 + r }
    }
}

/// The variation served to a user: by the user id's hash bucket out of 100, the
/// first one whose cumulative percentage passes it, else the last one; the first
/// one when all percentages are zero. Its value is a string-table entry.
pub open spec fn spec_select_variation(vs: Seq<Variation>, a: &Artifact, user: JsonView) -> Option<Seq<char>> {
    if vs.len() == 0 {
        None
    } else if pct_sum(vs) == 0 {
        table_get(a, vs[0].var_index as int)
    } else {
        let bucket = (spec_hash_string(user_id_of(user)) % 100) as int;
        let i = pick_variation(vs, bucket, 0);
        let chosen = if i == -1 { vs.len() - 1 } else { i };
        table_get(a, vs[chosen].var_index as int)
    }
}

pub proof fn lemma_pick_range(vs: Seq<Variation>, bucket: int, acc: int)
    ensures
        -1 <= pick_variation(vs, bucket, acc) < vs.len(),
    decreases vs.len(),
{
    if vs.len() > 0 {
        lemma_pick_range(vs.drop_first(), bucket, acc + vs[0].percentage);
    }
}

pub open spec fn str_view_opt(s: Option<Seq<char>>) -> Option<JsonView> {
    match s {
        Some(x) => Some(JsonView::Str(x)),
        None => None,
    }
}

fn table_value(artifact: &Artifact, index: u64) -> (r: Option<JsonValue>)
    ensures
        opt_view(r) == str_view_opt(table_get(artifact, index as int)),
{
    match table_string(artifact, index) {
        Some(s) => Some(JsonValue::String(s)),
        None => None,
    }
}

/// Picks the variation for a user (see [`spec_select_variation`]).
pub fn select_variation(variations: &[Variation], artifact: &Artifact, user: &JsonValue) -> (r: Option<JsonValue>)
    requires
        pct_sum(variations@) <= 255,
    ensures
        opt_view(r) == str_view_opt(spec_select_variation(variations@, artifact, user@)),
{
    if variations.len() == 0 {
        return None;
    }
    let id = user_id(user);
    let hash = hash_string(id.as_str());
    let mut total: u8 = 0;
    let mut i: usize = 0;
    while i < variations.len()
        invariant
            i <= variations@.len(),
            total as int == pct_sum(variations@.take(i as int)),
            pct_sum(variations@) <= 255,
        decreases variations@.len() - i,
    {
        proof {
            assert(variations@.take(i + 1).drop_last() =~= variations@.take(i as int));
            lemma_pct_sum_prefix(variations@, i as int + 1);
        }
        total = total + variations[i].percentage;
        i = i + 1;
    }
    proof {
        assert(variations@.take(variations@.len() as int) =~= variations@);
    }
    if total == 0 {
        return table_value(artifact, variations[0].var_index as u64);
    }
    let bucket = (hash % 100) as u8;
    let mut cumulative: u8 = 0;
    let mut k: usize = 0;
    proof {
        assert(variations@.skip(0) =~= variations@);
    }
    while k < variations.len()
        invariant
            k <= variations@.len(),
            cumulative as int == pct_sum(variations@.take(k as int)),
            pct_sum(variations@) <= 255,
            bucket as int == (spec_hash_string(user_id_of(user@)) % 100) as int,
            pick_variation(variations@, bucket as int, 0) == (if pick_variation(variations@.skip(k as int), bucket as int, cumulative as int) == -1 {
                -1
            } else {
                k + pick_variation(variations@.skip(k as int), bucket as int, cumulative as int)
            }),
        decreases variations@.len() - k,
    {
        proof {
            assert(variations@.take(k + 1).drop_last() =~= variations@.take(k as int));
            lemma_pct_sum_prefix(variations@, k as int + 1);
            assert(variations@.skip(k as int)[0] == variations@[k as int]);
            assert(variations@.skip(k as int).drop_first() =~= variations@.skip(k + 1));
        }
        let ghost cum_old = cumulative as int;
        let ghost pk = variations@[k as int].percentage as int;
        proof {
            assert(pct_sum(variations@.take(k + 1)) == cum_old + pk);
            assert(variations@.skip(k as int).len() > 0);
            lemma_pick_range(variations@.skip(k + 1), bucket as int, cum_old + pk);
            assert(pick_variation(variations@.skip(k as int), bucket as int, cum_old) == (if (bucket as int) < cum_old + pk {
                0
            } else {
                let r = pick_variation(variations@.skip(k + 1), bucket as int, cum_old + pk);
                if r == -1 { -1 } else { 1 + r }
            }));
        }
        cumulative = cumulative.saturating_add(variations[k].percentage);
        assert(cumulative as int == cum_old + pk);
        if bucket < cumulative {
            return table_value(artifact, variations[k].var_index as u64);
        }
        k = k + 1;
    }
    proof {
        assert(variations@.skip(k as int).len() == 0);
    }
    table_value(artifact, variations[variations.len() - 1].var_index as u64)
}

/// Sums of prefixes never exceed the whole sum.
pub proof fn lemma_pct_sum_prefix(vs: Seq<Variation>, n: int)
    requires
        0 <= n <= vs.len(),
    ensures
        0 <= pct_sum(vs.take(n)) <= pct_sum(vs),
    decreases vs.len(),
{
    if n < vs.len() {
        assert(vs.drop_last().take(n) =~= vs.take(n));
        lemma_pct_sum_prefix(vs.drop_last(), n);
    } else {
        assert(vs.take(n) =~= vs);
    }
    lemma_pct_sum_nonneg(vs.take(n));
}

pub proof fn lemma_pct_sum_nonneg(vs: Seq<Variation>)
    ensures
        pct_sum(vs) >= 0,
    decreases vs.len(),
{
    if vs.len() > 0 {
        lemma_pct_sum_nonneg(vs.drop_last());
    }
}

// ---------------------------------------------------------------------------
// Expression nodes
// ---------------------------------------------------------------------------

/// A literal's value: a non-negative integer that indexes the string table stands for that string.
pub open spec fn spec_literal_value(value: JsonView, a: &Artifact) -> JsonView {
    match value {
        JsonView::Number(NumberView::PosInt(n)) => match table_get(a, n as int) {
            Some(s) => JsonView::Str(s),
            None => value,
        },
        _ => value,
    }
}

pub fn literal_value(value: &JsonValue, artifact: &Artifact) -> (r: JsonValue)
    ensures
        r@ == spec_literal_value(value@, artifact),
{
    match value {
        JsonValue::Number(JsonNumber::PosInt(n)) => match table_string(artifact, *n) {
            Some(s) => JsonValue::String(s),
            None => copy_value(value),
        },
        _ => copy_value(value),
    }
}

pub open spec fn spec_property_value(prop_index: u32, a: &Artifact, user: JsonView, context: Option<JsonView>) -> Option<JsonView> {
    match table_get(a, prop_index as int) {
        Some(path) => spec_get_property(path, user, context),
        None => None,
    }
}

/// The value of a property node: its path comes from the string table.
pub fn property_value(prop_index: u32, artifact: &Artifact, user: &JsonValue, context: &Option<JsonValue>) -> (r: Option<JsonValue>)
    ensures
        opt_view(r) == spec_property_value(prop_index, artifact, user@, opt_ref_view(context)),
{
    match table_string(artifact, prop_index as u64) {
        Some(path) => get_property(path.as_str(), user, context),
        None => None,
    }
}



/// What `regex::Regex::new(pattern)` followed by `is_match(text)` answers:
/// `None` when the pattern does not compile.
pub uninterp spec fn regex_match(pattern: Seq<char>, text: Seq<char>) -> Option<bool>;

/// Calls `regex::Regex::new(pattern)` and, when it compiles, `Regex::is_match(text)`.
/// The contract names the outcome as a function of the two strings; the regex
/// semantics are not stated.
#[verifier::external_body]
fn regex_is_match(pattern: &str, text: &str) -> (r: Option<bool>)
    ensures
        r == regex_match(pattern@, text@),
{
    regex::Regex::new(pattern).ok().map(|re| re.is_match(text))
}

pub open spec fn items_contain(xs: Seq<JsonView>, v: JsonView) -> bool {
    exists|i: int| 0 <= i < xs.len() && json_equal(#[trigger] xs[i], v)
}

/// Whether an array value holds an element equal to `v`.
pub fn array_contains(items: &Vec<JsonValue>, v: &JsonValue) -> (r: bool)
    ensures
        r == items_contain(view_items(items@), v@),
{
    proof {
        lemma_view_items(items@);
    }
    let mut i: usize = 0;
    while i < items.len()
        invariant
            i <= items@.len(),
            view_items(items@).len() == items@.len(),
            forall|j: int| 0 <= j < items@.len() ==> #[trigger] view_items(items@)[j] == crate::json::json_view(items@[j]),
            forall|j: int| 0 <= j < i ==> !json_equal(#[trigger] view_items(items@)[j], v@),
        decreases items@.len() - i,
    {
        if values_equal(&items[i], v) {
            assert(json_equal(view_items(items@)[i as int], v@));
            return true;
        }
        i = i + 1;
    }
    false
}

/// The text a non-string value is turned into (`Value::to_string`).
pub open spec fn as_text(v: JsonView) -> Seq<char> {
    match v {
        JsonView::Str(s) => s,
        _ => json_text(v),
    }
}

/// How many arguments a function reads before deciding.
pub open spec fn spec_arity(func_code: u8) -> nat {
    if func_code == FUNC_UPPER || func_code == FUNC_LOWER || func_code == FUNC_LENGTH {
        1
    } else if func_code == FUNC_STARTS_WITH || func_code == FUNC_ENDS_WITH || func_code == FUNC_CONTAINS
        || func_code == FUNC_MATCHES || func_code == FUNC_IN {
        2
    } else {
        0
    }
}

/// Number of leading arguments a function call evaluates.
pub fn function_arity(func_code: u8) -> (r: usize)
    ensures
        r == spec_arity(func_code),
{
    if func_code == FUNC_UPPER || func_code == FUNC_LOWER || func_code == FUNC_LENGTH {
        1
    } else if func_code == FUNC_STARTS_WITH || func_code == FUNC_ENDS_WITH || func_code == FUNC_CONTAINS
        || func_code == FUNC_MATCHES || func_code == FUNC_IN {
        2
    } else {
        0
    }
}

pub open spec fn two_strings(a: JsonView, b: JsonView) -> bool {
    a is Str && b is Str
}

/// A function call given the values of its first arguments (`None` where an argument has none).
pub open spec fn spec_function(func_code: u8, args: Seq<Option<JsonView>>) -> Option<JsonView> {
    if func_code == FUNC_STARTS_WITH || func_code == FUNC_ENDS_WITH || func_code == FUNC_CONTAINS
        || func_code == FUNC_MATCHES || func_code == FUNC_IN {
        if args.len() < 2 {
            Some(JsonView::Bool(false))
        } else if args[0] is None || args[1] is None {
            None
        } else {
            let a = args[0]->Some_0;
            let b = args[1]->Some_0;
            Some(JsonView::Bool(
                if func_code == FUNC_STARTS_WITH {
                    two_strings(a, b) && is_prefix_of(b->Str_0, a->Str_0)
                } else if func_code == FUNC_ENDS_WITH {
                    two_strings(a, b) && is_suffix_of(b->Str_0, a->Str_0)
                } else if func_code == FUNC_CONTAINS {
                    if two_strings(a, b) {
                        contains_text(a->Str_0, b->Str_0)
                    } else {
                        a is Array && items_contain(a->Array_0, b)
                    }
                } else if func_code == FUNC_MATCHES {
                    two_strings(a, b) && regex_match(b->Str_0, a->Str_0) == Some(true)
                } else {
                    b is Array && items_contain(b->Array_0, a)
                },
            ))
        }
    } else if func_code == FUNC_UPPER || func_code == FUNC_LOWER {
        if args.len() == 0 {
            Some(JsonView::Str(seq![]))
        } else {
            match args[0] {
                Some(a) => Some(JsonView::Str(
                    if func_code == FUNC_UPPER { unicode_uppercase(as_text(a)) } else { unicode_lowercase(as_text(a)) },
                )),
                None => None,
            }
        }
    } else if func_code == FUNC_LENGTH {
        if args.len() == 0 {
            Some(JsonView::Number(NumberView::PosInt(0)))
        } else {
            match args[0] {
                Some(a) => Some(JsonView::Number(NumberView::PosInt(
                    match a {
                        JsonView::Str(s) => (vstd::utf8::encode_utf8(s).len() as usize) as u64,
                        JsonView::Array(xs) => xs.len() as u64,
                        _ => 0,
                    },
                ))),
                None => None,
            }
        }
    } else {
        Some(JsonView::Bool(false))
    }
}

pub open spec fn args_view(args: Seq<Option<JsonValue>>) -> Seq<Option<JsonView>> {
    args.map_values(|a: Option<JsonValue>| opt_view(a))
}

fn string_value_text(v: &JsonValue) -> (r: String)
    ensures
        r@ == as_text(v@),
{
    match v {
        JsonValue::String(s) => s.clone(),
        _ => json_to_string(v),
    }
}

/// Applies a function to the values of its arguments (the caller evaluates the
/// first [`function_arity`] arguments in order, stopping after one without a value).
pub fn evaluate_function(func_code: u8, args: &Vec<Option<JsonValue>>) -> (r: Option<JsonValue>)
    ensures
        opt_view(r) == spec_function(func_code, args_view(args@)),
{
    let ghost av = args_view(args@);
    if func_code == FUNC_STARTS_WITH || func_code == FUNC_ENDS_WITH || func_code == FUNC_CONTAINS
        || func_code == FUNC_MATCHES || func_code == FUNC_IN {
        if args.len() < 2 {
            return Some(JsonValue::Bool(false));
        }
        let a = match &args[0] {
            Some(a) => a,
            None => return None,
        };
        let b = match &args[1] {
            Some(b) => b,
            None => return None,
        };
        assert(av[0] == Some(a@));
        assert(av[1] == Some(b@));
        let result = if func_code == FUNC_STARTS_WITH {
            match (a, b) {
                (JsonValue::String(s), JsonValue::String(p)) => text_starts_with(s.as_str(), p.as_str()),
                _ => false,
            }
        } else if func_code == FUNC_ENDS_WITH {
            match (a, b) {
                (JsonValue::String(s), JsonValue::String(p)) => text_ends_with(s.as_str(), p.as_str()),
                _ => false,
            }
        } else if func_code == FUNC_CONTAINS {
            match (a, b) {
                (JsonValue::String(s), JsonValue::String(p)) => text_contains(s.as_str(), p.as_str()),
                (JsonValue::Array(items), _) => array_contains(items, b),
                _ => false,
            }
        } else if func_code == FUNC_MATCHES {
            match (a, b) {
                (JsonValue::String(s), JsonValue::String(p)) => match regex_is_match(p.as_str(), s.as_str()) {
                    Some(m) => m,
                    None => false,
                },
                _ => false,
            }
        } else {
            match b {
                JsonValue::Array(items) => array_contains(items, a),
                _ => false,
            }
        };
        assert(opt_view(Some(JsonValue::Bool(result))) == spec_function(func_code, av));
        Some(JsonValue::Bool(result))
    } else if func_code == FUNC_UPPER || func_code == FUNC_LOWER {
        if args.len() == 0 {
            return Some(JsonValue::String(String::new()));
        }
        let a = match &args[0] {
            Some(a) => a,
            None => return None,
        };
        assert(av[0] == Some(a@));
        let t = string_value_text(a);
        if func_code == FUNC_UPPER {
            let u = to_uppercase(t.as_str());
            assert(opt_view(Some(JsonValue::String(u))) == spec_function(func_code, av));
            Some(JsonValue::String(u))
        } else {
            let u = to_lowercase(t.as_str());
            assert(opt_view(Some(JsonValue::String(u))) == spec_function(func_code, av));
            Some(JsonValue::String(u))
        }
    } else if func_code == FUNC_LENGTH {
        if args.len() == 0 {
            return Some(JsonValue::Number(JsonNumber::PosInt(0)));
        }
        let a = match &args[0] {
            Some(a) => a,
            None => return None,
        };
        assert(av[0] == Some(a@));
        let n: usize = match a {
            JsonValue::String(s) => s.as_str().len(),
            JsonValue::Array(items) => {
                proof {
                    lemma_view_items(items@);
                }
                items.len()
            },
            _ => 0,
        };
        assert(opt_view(Some(JsonValue::Number(JsonNumber::PosInt(n as u64)))) == spec_function(func_code, av));
        Some(JsonValue::Number(JsonNumber::PosInt(n as u64)))
    } else {
        Some(JsonValue::Bool(false))
    }
}

// ---------------------------------------------------------------------------
// Display of expressions
// ---------------------------------------------------------------------------

pub open spec fn binary_op_text(op_code: u8) -> Seq<char> {
    if op_code == OP_EQ { "=="@ } else if op_code == OP_NE { "!="@ } else if op_code == OP_GT { ">"@ }
    else if op_code == OP_GTE { ">="@ } else if op_code == OP_LT { "<"@ } else if op_code == OP_LTE { "<="@ }
    else { "?"@ }
}

pub open spec fn logical_op_text(op_code: u8) -> Seq<char> {
    if op_code == LOGIC_AND { "&&"@ } else if op_code == LOGIC_OR { "||"@ } else { "?"@ }
}

pub open spec fn func_name_text(func_code: u8) -> Seq<char> {
    if func_code == FUNC_STARTS_WITH { "startsWith"@ } else if func_code == FUNC_ENDS_WITH { "endsWith"@ }
    else if func_code == FUNC_CONTAINS { "contains"@ } else if func_code == FUNC_MATCHES { "matches"@ }
    else if func_code == FUNC_UPPER { "upper"@ } else if func_code == FUNC_LOWER { "lower"@ }
    else if func_code == FUNC_LENGTH { "length"@ } else if func_code == FUNC_IN { "in"@ }
    else { "unknown"@ }
}

/// The text shown for an expression; below ten levels of nesting it is cut to `...`.
pub open spec fn spec_format_expression(e: Expression, a: &Artifact, depth: int) -> Seq<char>
    decreases e,
{
    if depth > 10 {
        "..."@
    } else {
        match e {
            Expression::Property { prop_index } => match table_get(a, prop_index as int) {
                Some(s) => s,
                None => "<prop:"@ + crate::json::decimal(prop_index as nat) + ">"@,
            },
            Expression::Literal { value } => match value@ {
                JsonView::Number(NumberView::PosInt(n)) => match table_get(a, n as int) {
                    Some(s) => "\""@ + s + "\""@,
                    None => json_text(value@),
                },
                _ => json_text(value@),
            },
            Expression::BinaryOp { op_code, left, right } =>
                "("@ + spec_format_expression(*left, a, depth + 1) + " "@ + binary_op_text(op_code) + " "@
                    + spec_format_expression(*right, a, depth + 1) + ")"@,
            Expression::LogicalOp { op_code, left, right } => if op_code == LOGIC_NOT {
                "!("@ + spec_format_expression(*left, a, depth + 1) + ")"@
            } else {
                match right {
                    Some(r) => "("@ + spec_format_expression(*left, a, depth + 1) + " "@ + logical_op_text(op_code) + " "@
                        + spec_format_expression(*r, a, depth + 1) + ")"@,
                    None => "("@ + logical_op_text(op_code) + " "@ + spec_format_expression(*left, a, depth + 1) + ")"@,
                }
            },
            Expression::Func { func_code, args } => func_name_text(func_code) + "("@ + format_args(args@, a, depth + 1) + ")"@,
        }
    }
}

/// Arguments shown one after another, separated by `, `.
pub open spec fn format_args(args: Seq<Expression>, a: &Artifact, depth: int) -> Seq<char>
    decreases args,
{
    if args.len() == 0 {
        seq![]
    } else if args.len() == 1 {
        spec_format_expression(args[0], a, depth)
    } else {
        format_args(args.drop_last(), a, depth) + ", "@ + spec_format_expression(args.last(), a, depth)
    }
}

fn binary_op_str(op_code: u8) -> (r: &'static str)
    ensures
        r@ == binary_op_text(op_code),
{
    if op_code == OP_EQ { "==" } else if op_code == OP_NE { "!=" } else if op_code == OP_GT { ">" }
    else if op_code == OP_GTE { ">=" } else if op_code == OP_LT { "<" } else if op_code == OP_LTE { "<=" }
    else { "?" }
}

fn logical_op_str(op_code: u8) -> (r: &'static str)
    ensures
        r@ == logical_op_text(op_code),
{
    if op_code == LOGIC_AND { "&&" } else if op_code == LOGIC_OR { "||" } else { "?" }
}

fn func_name_str(func_code: u8) -> (r: &'static str)
    ensures
        r@ == func_name_text(func_code),
{
    if func_code == FUNC_STARTS_WITH { "startsWith" } else if func_code == FUNC_ENDS_WITH { "endsWith" }
    else if func_code == FUNC_CONTAINS { "contains" } else if func_code == FUNC_MATCHES { "matches" }
    else if func_code == FUNC_UPPER { "upper" } else if func_code == FUNC_LOWER { "lower" }
    else if func_code == FUNC_LENGTH { "length" } else if func_code == FUNC_IN { "in" }
    else { "unknown" }
}

pub proof fn lemma_args_decreases(e: Expression, i: int)
    requires
        e is Func,
        0 <= i < e->Func_args@.len(),
    ensures
        decreases_to!(e => e->Func_args@[i]),
{
    assert(decreases_to!(e => e->Func_args));
    assert(decreases_to!(e->Func_args => e->Func_args@));
    assert(decreases_to!(e->Func_args@ => e->Func_args@[i]));
}

/// The text shown for an expression in the debug UI.
#[verifier::loop_isolation(false)]
pub fn format_expression(expr: &Expression, artifact: &Artifact, depth: usize) -> (r: String)
    ensures
        r@ == spec_format_expression(*expr, artifact, depth as int),
    decreases expr,
{
    if depth > 10 {
        return owned("...");
    }
    let d = depth + 1;
    let mut out = String::new();
    match expr {
        Expression::Property { prop_index } => {
            match table_string(artifact, *prop_index as u64) {
                Some(s) => return s,
                None => {
                    push_text(&mut out, "<prop:");
                    crate::json::write_decimal(&mut out, *prop_index as u64);
                    push_text(&mut out, ">");
                },
            }
        },
        Expression::Literal { value } => {
            match value {
                JsonValue::Number(JsonNumber::PosInt(n)) => match table_string(artifact, *n) {
                    Some(s) => {
                        push_text(&mut out, "\"");
                        push_text(&mut out, s.as_str());
                        push_text(&mut out, "\"");
                    },
                    None => {
                        crate::json::write_json(&mut out, value);
                    },
                },
                _ => {
                    crate::json::write_json(&mut out, value);
                },
            }
        },
        Expression::BinaryOp { op_code, left, right } => {
            let l = format_expression(left, artifact, d);
            let r = format_expression(right, artifact, d);
            push_text(&mut out, "(");
            push_text(&mut out, l.as_str());
            push_text(&mut out, " ");
            push_text(&mut out, binary_op_str(*op_code));
            push_text(&mut out, " ");
            push_text(&mut out, r.as_str());
            push_text(&mut out, ")");
        },
        Expression::LogicalOp { op_code, left, right } => {
            let l = format_expression(left, artifact, d);
            if *op_code == LOGIC_NOT {
                push_text(&mut out, "!(");
                push_text(&mut out, l.as_str());
                push_text(&mut out, ")");
            } else {
                match right {
                    Some(rexp) => {
                        let r = format_expression(rexp, artifact, d);
                        push_text(&mut out, "(");
                        push_text(&mut out, l.as_str());
                        push_text(&mut out, " ");
                        push_text(&mut out, logical_op_str(*op_code));
                        push_text(&mut out, " ");
                        push_text(&mut out, r.as_str());
                        push_text(&mut out, ")");
                    },
                    None => {
                        push_text(&mut out, "(");
                        push_text(&mut out, logical_op_str(*op_code));
                        push_text(&mut out, " ");
                        push_text(&mut out, l.as_str());
                        push_text(&mut out, ")");
                    },
                }
            }
        },
        Expression::Func { func_code, args } => {
            push_text(&mut out, func_name_str(*func_code));
            push_text(&mut out, "(");
            let ghost start = out@;
            let mut i: usize = 0;
            while i < args.len()
                invariant
                    i <= args@.len(),
                    out@ == start + format_args(args@.take(i as int), artifact, d as int),
                decreases args@.len() - i,
            {
                proof {
                    lemma_args_decreases(*expr, i as int);
                }
                let piece = format_expression(&args[i], artifact, d);
                if i > 0 {
                    push_text(&mut out, ", ");
                }
                push_text(&mut out, piece.as_str());
                proof {
                    let t = args@.take(i + 1);
                    assert(t.drop_last() =~= args@.take(i as int));
                    assert(t.last() == args@[i as int]);
                    if i == 0 {
                        assert(t.len() == 1);
                        assert(out@ =~= start + format_args(t, artifact, d as int));
                    } else {
                        assert(out@ =~= start + format_args(t, artifact, d as int));
                    }
                }
                i = i + 1;
            }
            proof {
                assert(args@.take(args@.len() as int) =~= args@);
            }
            push_text(&mut out, ")");
        },
    }
    proof {
        assert(out@ =~= spec_format_expression(*expr, artifact, depth as int));
    }
    out
}

// ---------------------------------------------------------------------------
// The command
// ---------------------------------------------------------------------------

/// Options of the debug UI.
pub struct Options {
    /// Port of the web server (8080 when `None`).
    pub port: Option<u16>,
    /// Environment, whose `.controlpath/<env>.ast` is served.
    pub env: Option<String>,
    /// Path of the AST file (instead of `--env`).
    pub ast: Option<String>,
    /// Open the browser.
    pub open: bool,
}

/// The artifact the UI serves: `--ast`; else the environment's artifact; else
/// `.controlpath/production.ast` when it exists; else the first `.ast` file found
/// in `.controlpath` (`found`), which must exist.
pub fn determine_ast_path(options: &Options, production_exists: bool, found: Option<String>) -> (r: Result<String, CliError>)
    ensures
        match options.ast {
            Some(a) => (r matches Ok(p) && p@ == a@),
            None => match options.env {
                Some(e) => (r matches Ok(p) && p@ == ".controlpath/"@ + e@ + ".ast"@),
                None => if production_exists {
                    r matches Ok(p) && p@ == ".controlpath/production.ast"@
                } else {
                    match found {
                        Some(f) => (r matches Ok(p) && p@ == f@),
                        None => (r matches Err(e) && e.text() ==
                            "Either --ast <file> or --env <env> must be provided, or a .ast file must exist in .controlpath/"@),
                    }
                },
            },
        },
{
    if let Some(a) = &options.ast {
        return Ok(a.clone());
    }
    if let Some(e) = &options.env {
        let mut p = owned(".controlpath/");
        push_text(&mut p, e.as_str());
        push_text(&mut p, ".ast");
        return Ok(p);
    }
    if production_exists {
        return Ok(owned(".controlpath/production.ast"));
    }
    match found {
        Some(f) => Ok(f),
        None => Err(CliError::Message(owned(
            "Either --ast <file> or --env <env> must be provided, or a .ast file must exist in .controlpath/",
        ))),
    }
}

/// A flag listed by the UI: its name and position.
#[derive(Debug)]
pub struct FlagInfo {
    pub name: String,
    pub index: usize,
}

/// The flags the UI lists: each position whose name index is in the string table.
pub open spec fn spec_flag_infos(a: &Artifact, n: int) -> Seq<(Seq<char>, int)>
    decreases n,
{
    if n <= 0 {
        seq![]
    } else {
        let prev = spec_flag_infos(a, n - 1);
        match flag_name_at(a, n - 1) {
            Some(name) => prev.push((name, n - 1)),
            None => prev,
        }
    }
}

pub open spec fn infos_view(v: Seq<FlagInfo>) -> Seq<(Seq<char>, int)> {
    v.map_values(|f: FlagInfo| (f.name@, f.index as int))
}

pub fn list_flags(artifact: &Artifact) -> (r: Vec<FlagInfo>)
    ensures
        infos_view(r@) == spec_flag_infos(artifact, artifact.flag_names@.len() as int),
{
    let mut out: Vec<FlagInfo> = Vec::new();
    let mut i: usize = 0;
    proof {
        assert(infos_view(out@) =~= seq![]);
    }
    while i < artifact.flag_names.len()
        invariant
            i <= artifact.flag_names@.len(),
            infos_view(out@) == spec_flag_infos(artifact, i as int),
        decreases artifact.flag_names@.len() - i,
    {
        let ghost before = out@;
        match table_string(artifact, artifact.flag_names[i] as u64) {
            Some(name) => {
                out.push(FlagInfo { name, index: i });
                proof {
                    assert(infos_view(out@) =~= infos_view(before).push((out@.last().name@, i as int)));
                }
            },
            None => {},
        }
        i = i + 1;
    }
    out
}


/// The ordering operators follow the comparison outcome: with a numeric
/// outcome of sign `s`, `<` holds exactly when `s < 0`, `<=` when `s <= 0`,
/// `>` when `s > 0` and `>=` when `s >= 0`. Whatever the operands, `<=` is the
/// negation of `>` and `>=` the negation of `<`, and `<=` holds exactly when
/// `<` holds or `>=` holds too.
pub proof fn law_ordering_follows_comparison(l: JsonView, r: JsonView, numeric: Option<NumericComparison>)
    ensures
        numeric matches Some(c) ==> {
            &&& spec_binary_op(OP_LT, l, r, numeric) == Some(JsonView::Bool(c.sign < 0))
            &&& spec_binary_op(OP_LTE, l, r, numeric) == Some(JsonView::Bool(c.sign <= 0))
            &&& spec_binary_op(OP_GT, l, r, numeric) == Some(JsonView::Bool(c.sign > 0))
            &&& spec_binary_op(OP_GTE, l, r, numeric) == Some(JsonView::Bool(c.sign >= 0))
        },
        spec_binary_op(OP_LTE, l, r, numeric) matches Some(JsonView::Bool(le))
            && spec_binary_op(OP_GT, l, r, numeric) matches Some(JsonView::Bool(gt))
            && spec_binary_op(OP_LT, l, r, numeric) matches Some(JsonView::Bool(lt))
            && spec_binary_op(OP_GTE, l, r, numeric) matches Some(JsonView::Bool(ge))
            && le == !gt && ge == !lt && le == (lt || (le && ge)),
{
}
} // verus!
