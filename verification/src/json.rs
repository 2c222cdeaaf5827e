//! A small JSON model: values, a canonical text, a verified writer and a
//! verified parser.
//!
//! The grammar covers what the control service speaks: objects, arrays,
//! strings with the simple escapes, integers, booleans and null. The
//! writer emits a canonical text (no spaces, fields in the order given,
//! only the escapes `\"`, `\\`, `\n`, `\r`, `\t`). The parser accepts
//! the documented wire shapes with any spacing and field order.

use vstd::prelude::*;

verus! {

/// A parsed JSON value. Numbers are integers: the wire shapes carry
/// only intensities, durations and radio identifiers.
pub enum JsonValue {
    Null,
    Bool(bool),
    Int(i64),
    Str(String),
    Arr(Vec<JsonValue>),
    Obj(Vec<(String, JsonValue)>),
}

/// Mathematical view of a `JsonValue`.
pub ghost enum JVal {
    Null,
    Bool(bool),
    Int(int),
    Str(Seq<char>),
    Arr(Seq<JVal>),
    Obj(Seq<(Seq<char>, JVal)>),
}

/// View of a `JsonValue`, recursively.
pub open spec fn jval_of(v: JsonValue) -> JVal
    decreases v,
{
    match v {
        JsonValue::Null => JVal::Null,
        JsonValue::Bool(b) => JVal::Bool(b),
        JsonValue::Int(i) => JVal::Int(i as int),
        JsonValue::Str(s) => JVal::Str(s@),
        JsonValue::Arr(a) => JVal::Arr(jvals_of(a@)),
        JsonValue::Obj(o) => JVal::Obj(jmembers_of(o@)),
    }
}

/// Views of a sequence of values, elementwise.
pub open spec fn jvals_of(a: Seq<JsonValue>) -> Seq<JVal>
    decreases a,
{
    Seq::new(a.len(), |i: int| if 0 <= i < a.len() { jval_of(a[i]) } else { JVal::Null })
}

/// Views of a sequence of members, elementwise.
pub open spec fn jmembers_of(o: Seq<(String, JsonValue)>) -> Seq<(Seq<char>, JVal)>
    decreases o,
{
    Seq::new(
        o.len(),
        |i: int| if 0 <= i < o.len() {
            (o[i].0@, jval_of(o[i].1))
        } else {
            (Seq::<char>::empty(), JVal::Null)
        },
    )
}

/// The character of a decimal digit.
pub open spec fn digit_char(d: int) -> char {
    if d == 0 { '0' }
    else if d == 1 { '1' }
    else if d == 2 { '2' }
    else if d == 3 { '3' }
    else if d == 4 { '4' }
    else if d == 5 { '5' }
    else if d == 6 { '6' }
    else if d == 7 { '7' }
    else if d == 8 { '8' }
    else { '9' }
}

/// Decimal text of a natural number, most significant digit first.
pub open spec fn dec_text(n: nat) -> Seq<char>
    decreases n,
{
    if n < 10 {
        seq![digit_char(n as int)]
    } else {
        dec_text(n / 10) + seq![digit_char((n % 10) as int)]
    }
}

/// Decimal text of an integer, with a leading minus when negative.
pub open spec fn int_text(i: int) -> Seq<char> {
    if i < 0 {
        seq!['-'] + dec_text((-i) as nat)
    } else {
        dec_text(i as nat)
    }
}

/// Canonical escape of one character inside a JSON string.
pub open spec fn esc_char(c: char) -> Seq<char> {
    if c == '"' { seq!['\\', '"'] }
    else if c == '\\' { seq!['\\', '\\'] }
    else if c == '\n' { seq!['\\', 'n'] }
    else if c == '\r' { seq!['\\', 'r'] }
    else if c == '\t' { seq!['\\', 't'] }
    else { seq![c] }
}

/// Canonical escape of a whole string body.
pub open spec fn esc_text(s: Seq<char>) -> Seq<char>
    decreases s.len(),
{
    if s.len() == 0 {
        Seq::empty()
    } else {
        esc_text(s.drop_last()) + esc_char(s.last())
    }
}

/// A quoted, escaped JSON string.
pub open spec fn str_text(s: Seq<char>) -> Seq<char> {
    seq!['"'] + esc_text(s) + seq!['"']
}

/// Comma-joined concatenation of already-rendered parts.
pub open spec fn join_comma(parts: Seq<Seq<char>>) -> Seq<char>
    decreases parts.len(),
{
    if parts.len() == 0 {
        Seq::empty()
    } else if parts.len() == 1 {
        parts[0]
    } else {
        join_comma(parts.drop_last()) + seq![','] + parts.last()
    }
}

/// Canonical text of a JSON value: no spaces, fields in order, the
/// writer's escapes only.
pub open spec fn json_text(v: JVal) -> Seq<char>
    decreases v,
{
    match v {
        JVal::Null => seq!['n', 'u', 'l', 'l'],
        JVal::Bool(b) => if b {
            seq!['t', 'r', 'u', 'e']
        } else {
            seq!['f', 'a', 'l', 's', 'e']
        },
        JVal::Int(i) => int_text(i),
        JVal::Str(s) => str_text(s),
        JVal::Arr(a) => seq!['['] + join_comma(arr_texts(a)) + seq![']'],
        JVal::Obj(o) => seq!['{'] + join_comma(obj_texts(o)) + seq!['}'],
    }
}

/// The rendered elements of an array, in order.
pub open spec fn arr_texts(a: Seq<JVal>) -> Seq<Seq<char>>
    decreases a,
{
    Seq::new(a.len(), |i: int| if 0 <= i < a.len() { json_text(a[i]) } else { Seq::empty() })
}

/// The rendered `"key":value` members of an object, in order.
pub open spec fn obj_texts(o: Seq<(Seq<char>, JVal)>) -> Seq<Seq<char>>
    decreases o,
{
    Seq::new(
        o.len(),
        |i: int| if 0 <= i < o.len() {
            str_text(o[i].0) + seq![':'] + json_text(o[i].1)
        } else {
            Seq::empty()
        },
    )
}

/// Every integer in the value is above `i64::MIN`, so the writer can
/// negate it.
pub open spec fn jval_ints_wf(v: JVal) -> bool
    decreases v,
{
    match v {
        JVal::Null => true,
        JVal::Bool(_) => true,
        JVal::Int(i) => i > i64::MIN,
        JVal::Str(_) => true,
        JVal::Arr(a) => forall|i: int| 0 <= i < a.len() ==> jval_ints_wf(#[trigger] a[i]),
        JVal::Obj(o) => forall|i: int| 0 <= i < o.len() ==> jval_ints_wf(#[trigger] o[i].1),
    }
}

/// Exec counterpart of `digit_char`.
fn digit_char_exec(d: u64) -> (c: char)
    requires
        d < 10,
    ensures
        c == digit_char(d as int),
{
    if d == 0 { '0' }
    else if d == 1 { '1' }
    else if d == 2 { '2' }
    else if d == 3 { '3' }
    else if d == 4 { '4' }
    else if d == 5 { '5' }
    else if d == 6 { '6' }
    else if d == 7 { '7' }
    else if d == 8 { '8' }
    else { '9' }
}

/// Append the decimal text of `n`.
fn write_u64(out: &mut Vec<char>, n: u64)
    ensures
        final(out)@ == old(out)@ + dec_text(n as nat),
    decreases n,
{
    if n < 10 {
        out.push(digit_char_exec(n));
    } else {
        write_u64(out, n / 10);
        out.push(digit_char_exec(n % 10));
        assert(out@ =~= old(out)@ + dec_text(n as nat));
    }
}

/// Append the decimal text of `i`, with a minus sign when negative.
fn write_i64(out: &mut Vec<char>, i: i64)
    requires
        i > i64::MIN,
    ensures
        final(out)@ == old(out)@ + int_text(i as int),
{
    if i < 0 {
        out.push('-');
        write_u64(out, (-i) as u64);
        assert(out@ =~= old(out)@ + int_text(i as int));
    } else {
        write_u64(out, i as u64);
    }
}

/// The characters of a string slice, in order.
pub fn str_chars(s: &str) -> (out: Vec<char>)
    ensures
        out@ == s@,
{
    let n = s.unicode_len();
    let mut out: Vec<char> = Vec::new();
    let mut i: usize = 0;
    while i < n
        invariant
            n == s@.len(),
            i <= n,
            out@ == s@.subrange(0, i as int),
        decreases n - i,
    {
        out.push(s.get_char(i));
        i = i + 1;
        assert(out@ =~= s@.subrange(0, i as int));
    }
    assert(out@ =~= s@);
    out
}

/// A `String` holding exactly the given characters.
///
/// Relies on `String`'s `FromIterator` impl for `&char`: collecting
/// yields the characters in order.
#[verifier::external_body]
pub fn chars_to_string(v: &Vec<char>) -> (out: String)
    ensures
        out@ == v@,
{
    String::from_iter(v.iter())
}

/// Append the quoted, escaped text of a string body.
fn write_str_body(out: &mut Vec<char>, s: &String)
    ensures
        final(out)@ == old(out)@ + str_text(s@),
{
    let cs = str_chars(s.as_str());
    out.push('"');
    let mut i: usize = 0;
    while i < cs.len()
        invariant
            cs@ == s@,
            i <= cs@.len(),
            out@ == old(out)@ + seq!['"'] + esc_text(s@.subrange(0, i as int)),
        decreases cs@.len() - i,
    {
        let c = cs[i];
        if c == '"' {
            out.push('\\');
            out.push('"');
        } else if c == '\\' {
            out.push('\\');
            out.push('\\');
        } else if c == '\n' {
            out.push('\\');
            out.push('n');
        } else if c == '\r' {
            out.push('\\');
            out.push('r');
        } else if c == '\t' {
            out.push('\\');
            out.push('t');
        } else {
            out.push(c);
        }
        proof {
            assert(s@.subrange(0, i + 1).drop_last() =~= s@.subrange(0, i as int));
            assert(s@.subrange(0, i + 1).last() == s@[i as int]);
            assert(out@ =~= old(out)@ + seq!['"'] + esc_text(s@.subrange(0, i + 1)));
        }
        i = i + 1;
    }
    out.push('"');
    proof {
        assert(s@.subrange(0, s@.len() as int) =~= s@);
        assert(out@ =~= old(out)@ + str_text(s@));
    }
}

/// Append the canonical text of a JSON value.
#[verifier::loop_isolation(false)]
#[verifier::rlimit(60)]
fn write_value(out: &mut Vec<char>, v: &JsonValue)
    requires
        jval_ints_wf(jval_of(*v)),
    ensures
        final(out)@ == old(out)@ + json_text(jval_of(*v)),
    decreases *v,
{
    match v {
        JsonValue::Null => {
            out.push('n');
            out.push('u');
            out.push('l');
            out.push('l');
            assert(out@ =~= old(out)@ + json_text(jval_of(*v)));
        }
        JsonValue::Bool(b) => {
            if *b {
                out.push('t');
                out.push('r');
                out.push('u');
                out.push('e');
            } else {
                out.push('f');
                out.push('a');
                out.push('l');
                out.push('s');
                out.push('e');
            }
            assert(out@ =~= old(out)@ + json_text(jval_of(*v)));
        }
        JsonValue::Int(i) => {
            write_i64(out, *i);
        }
        JsonValue::Str(s) => {
            write_str_body(out, s);
        }
        JsonValue::Arr(a) => {
            let ghost texts = arr_texts(jval_of(*v)->Arr_0);
            out.push('[');
            let mut k: usize = 0;
            while k < a.len()
                invariant
                    k <= a@.len(),
                    out@ == old(out)@ + seq!['['] + join_comma(texts.subrange(0, k as int)),
                decreases a@.len() - k,
            {
                let ghost out0 = out@;
                if k > 0 {
                    out.push(',');
                }
                proof {
                    assert(jval_of(*v)->Arr_0[k as int] == jval_of(a@[k as int]));
                    assert(jval_ints_wf(jval_of(a@[k as int])));
                }
                let ghost out1 = out@;
                write_value(out, &a[k]);
                proof {
                    assert(out@ == out1 + json_text(jval_of(a@[k as int])));
                    assert(texts[k as int] == json_text(jval_of(*v)->Arr_0[k as int]));
                    assert(texts.subrange(0, k + 1).drop_last() =~= texts.subrange(0, k as int));
                    assert(texts.subrange(0, k + 1).last() == texts[k as int]);
                    if k > 0 {
                        assert(join_comma(texts.subrange(0, k + 1)) == join_comma(
                            texts.subrange(0, k as int),
                        ) + seq![','] + texts[k as int]);
                        assert(out1 == out0 + seq![',']);
                        assert(out@ =~= old(out)@ + seq!['['] + join_comma(texts.subrange(0, k + 1)));
                    } else {
                        assert(join_comma(texts.subrange(0, 1)) == texts[0]);
                        assert(out@ =~= old(out)@ + seq!['['] + join_comma(texts.subrange(0, 1)));
                    }
                }
                k = k + 1;
            }
            proof {
                assert(k == a@.len());
                assert(texts.subrange(0, a@.len() as int) =~= texts);
                assert(out@ == old(out)@ + seq!['['] + join_comma(texts));
            }
            out.push(']');
            proof {
                assert(out@ =~= old(out)@ + seq!['['] + join_comma(texts) + seq![']']);
                assert(json_text(jval_of(*v)) == seq!['['] + join_comma(texts) + seq![']']);
                assert(out@ =~= old(out)@ + json_text(jval_of(*v)));
            }
        }
        JsonValue::Obj(o) => {
            let ghost fields = jval_of(*v)->Obj_0;
            let ghost texts = obj_texts(fields);
            out.push('{');
            let mut k: usize = 0;
            while k < o.len()
                invariant
                    k <= o@.len(),
                    out@ == old(out)@ + seq!['{'] + join_comma(texts.subrange(0, k as int)),
                decreases o@.len() - k,
            {
                if k > 0 {
                    out.push(',');
                }
                proof {
                    assert(fields[k as int] == (o@[k as int].0@, jval_of(o@[k as int].1)));
                    assert(jval_ints_wf(fields[k as int].1));
                }
                write_str_body(out, &o[k].0);
                out.push(':');
                write_value(out, &o[k].1);
                proof {
                    assert(texts.subrange(0, k + 1).drop_last() =~= texts.subrange(0, k as int));
                    assert(out@ =~= old(out)@ + seq!['{'] + join_comma(texts.subrange(0, k + 1)));
                }
                k = k + 1;
            }
            proof {
                assert(k == o@.len());
                assert(texts.subrange(0, o@.len() as int) =~= texts);
                assert(out@ == old(out)@ + seq!['{'] + join_comma(texts));
            }
            out.push('}');
            proof {
                assert(out@ =~= old(out)@ + seq!['{'] + join_comma(texts) + seq!['}']);
                assert(json_text(jval_of(*v)) == seq!['{'] + join_comma(texts) + seq!['}']);
                assert(out@ =~= old(out)@ + json_text(jval_of(*v)));
            }
        }
    }
}

/// Render a JSON value to its canonical text.
pub fn write_json(v: &JsonValue) -> (out: String)
    requires
        jval_ints_wf(jval_of(*v)),
    ensures
        out@ == json_text(jval_of(*v)),
{
    let mut buf: Vec<char> = Vec::new();
    write_value(&mut buf, v);
    chars_to_string(&buf)
}

/// JSON whitespace.
pub open spec fn is_ws(c: char) -> bool {
    c == ' ' || c == '\n' || c == '\r' || c == '\t'
}

/// First position at or after `i` holding no whitespace.
pub open spec fn spec_skip_ws(s: Seq<char>, i: int) -> int
    decreases s.len() - i,
{
    if 0 <= i < s.len() && is_ws(s[i]) {
        spec_skip_ws(s, i + 1)
    } else {
        i
    }
}

/// A decimal digit.
pub open spec fn is_digit(c: char) -> bool {
    48 <= c as u32 <= 57
}

/// The value of a decimal digit character.
pub open spec fn digit_val(c: char) -> int {
    c as u32 - 48
}

/// What an escape letter stands for, if it is one the grammar takes.
pub open spec fn esc_code(c: char) -> Option<char> {
    if c == '"' { Some('"') }
    else if c == '\\' { Some('\\') }
    else if c == '/' { Some('/') }
    else if c == 'n' { Some('\n') }
    else if c == 'r' { Some('\r') }
    else if c == 't' { Some('\t') }
    else if c == 'b' { Some('\u{0008}') }
    else if c == 'f' { Some('\u{000C}') }
    else { None }
}

/// Parse a string body from after the opening quote, accumulating into
/// `acc`; yields the body and the position after the closing quote.
pub open spec fn spec_str_body(s: Seq<char>, i: int, acc: Seq<char>) -> Option<(Seq<char>, int)>
    decreases s.len() - i,
{
    if !(0 <= i < s.len()) {
        None
    } else if s[i] == '"' {
        Some((acc, i + 1))
    } else if s[i] == '\\' {
        if i + 1 < s.len() {
            match esc_code(s[i + 1]) {
                Some(c) => spec_str_body(s, i + 2, acc.push(c)),
                None => None,
            }
        } else {
            None
        }
    } else if (s[i] as u32) < 32 {
        None
    } else {
        spec_str_body(s, i + 1, acc.push(s[i]))
    }
}

/// Parse a quoted string at `i`.
pub open spec fn spec_string(s: Seq<char>, i: int) -> Option<(Seq<char>, int)> {
    if 0 <= i < s.len() && s[i] == '"' {
        spec_str_body(s, i + 1, Seq::empty())
    } else {
        None
    }
}

/// End of the digit run starting at `i`.
pub open spec fn spec_digits_end(s: Seq<char>, i: int) -> int
    decreases s.len() - i,
{
    if 0 <= i < s.len() && is_digit(s[i]) {
        spec_digits_end(s, i + 1)
    } else {
        i
    }
}

/// Value of the digits in `s[i..end)`.
pub open spec fn spec_digits_val(s: Seq<char>, i: int, end: int) -> int
    decreases end - i,
{
    if i >= end {
        0
    } else {
        spec_digits_val(s, i, end - 1) * 10 + digit_val(s[end - 1])
    }
}

/// Parse an unsigned integer at `i`: a digit run of at most 18 digits.
pub open spec fn spec_uint(s: Seq<char>, i: int) -> Option<(int, int)> {
    let end = spec_digits_end(s, i);
    if end == i || end - i > 18 {
        None
    } else {
        Some((spec_digits_val(s, i, end), end))
    }
}

/// Parse an integer at `i`, with an optional leading minus.
pub open spec fn spec_int(s: Seq<char>, i: int) -> Option<(int, int)> {
    if 0 <= i < s.len() && s[i] == '-' {
        match spec_uint(s, i + 1) {
            Some((n, j)) => Some((-n, j)),
            None => None,
        }
    } else {
        spec_uint(s, i)
    }
}

/// Powers of ten.
pub open spec fn pow10(n: nat) -> nat
    decreases n,
{
    if n == 0 {
        1
    } else {
        10 * pow10((n - 1) as nat)
    }
}

/// A digit run's value is below ten to its length.
pub proof fn lemma_digits_val_bound(s: Seq<char>, i: int, end: int)
    requires
        i <= end,
        forall|k: int| i <= k < end ==> is_digit(#[trigger] s[k]),
    ensures
        0 <= spec_digits_val(s, i, end) < pow10((end - i) as nat),
    decreases end - i,
{
    if i < end {
        lemma_digits_val_bound(s, i, end - 1);
    }
}

/// `pow10` grows with its argument.
pub proof fn lemma_pow10_mono(a: nat, b: nat)
    requires
        a <= b,
    ensures
        pow10(a) <= pow10(b),
    decreases b,
{
    if a < b {
        lemma_pow10_mono(a, (b - 1) as nat);
    }
}

/// Greatest depth of nesting the parser accepts.
pub const JSON_MAX_DEPTH: u32 = 64;

/// Parse one JSON value at `i` (no leading whitespace). Composite
/// values deeper than `depth` are refused.
pub open spec fn spec_value(s: Seq<char>, i: int, depth: nat) -> Option<(JVal, int)>
    decreases depth, 0nat, 0nat,
{
    if !(0 <= i < s.len()) {
        None
    } else if s[i] == 'n' {
        if i + 4 <= s.len() && s[i + 1] == 'u' && s[i + 2] == 'l' && s[i + 3] == 'l' {
            Some((JVal::Null, i + 4))
        } else {
            None
        }
    } else if s[i] == 't' {
        if i + 4 <= s.len() && s[i + 1] == 'r' && s[i + 2] == 'u' && s[i + 3] == 'e' {
            Some((JVal::Bool(true), i + 4))
        } else {
            None
        }
    } else if s[i] == 'f' {
        if i + 5 <= s.len() && s[i + 1] == 'a' && s[i + 2] == 'l' && s[i + 3] == 's' && s[i + 4] == 'e' {
            Some((JVal::Bool(false), i + 5))
        } else {
            None
        }
    } else if s[i] == '"' {
        match spec_string(s, i) {
            Some((t, j)) => Some((JVal::Str(t), j)),
            None => None,
        }
    } else if s[i] == '-' || is_digit(s[i]) {
        match spec_int(s, i) {
            Some((n, j)) => Some((JVal::Int(n), j)),
            None => None,
        }
    } else if s[i] == '[' {
        if depth == 0 {
            None
        } else {
            let j = spec_skip_ws(s, i + 1);
            if 0 <= j < s.len() && s[j] == ']' {
                Some((JVal::Arr(Seq::empty()), j + 1))
            } else {
                match spec_items(s, j, (depth - 1) as nat, s.len(), Seq::empty()) {
                    Some((a, k)) => Some((JVal::Arr(a), k)),
                    None => None,
                }
            }
        }
    } else if s[i] == '{' {
        if depth == 0 {
            None
        } else {
            let j = spec_skip_ws(s, i + 1);
            if 0 <= j < s.len() && s[j] == '}' {
                Some((JVal::Obj(Seq::empty()), j + 1))
            } else {
                match spec_members(s, j, (depth - 1) as nat, s.len(), Seq::empty()) {
                    Some((o, k)) => Some((JVal::Obj(o), k)),
                    None => None,
                }
            }
        }
    } else {
        None
    }
}

/// Parse the remaining elements of a non-empty array, the first one
/// starting at `i`; `acc` holds those already parsed.
pub open spec fn spec_items(s: Seq<char>, i: int, depth: nat, fuel: nat, acc: Seq<JVal>) -> Option<
    (Seq<JVal>, int),
>
    decreases depth, fuel, 1nat,
{
    if fuel == 0 {
        None
    } else {
        match spec_value(s, i, depth) {
            Some((v, j)) => {
                let k = spec_skip_ws(s, j);
                if 0 <= k < s.len() {
                    if s[k] == ',' {
                        spec_items(s, spec_skip_ws(s, k + 1), depth, (fuel - 1) as nat, acc.push(v))
                    } else if s[k] == ']' {
                        Some((acc.push(v), k + 1))
                    } else {
                        None
                    }
                } else {
                    None
                }
            }
            None => None,
        }
    }
}

/// Parse the remaining members of a non-empty object, the first key
/// starting at `i`; `acc` holds those already parsed.
pub open spec fn spec_members(
    s: Seq<char>,
    i: int,
    depth: nat,
    fuel: nat,
    acc: Seq<(Seq<char>, JVal)>,
) -> Option<(Seq<(Seq<char>, JVal)>, int)>
    decreases depth, fuel, 1nat,
{
    if fuel == 0 {
        None
    } else {
        match spec_string(s, i) {
            Some((key, j)) => {
                let j2 = spec_skip_ws(s, j);
                if 0 <= j2 < s.len() && s[j2] == ':' {
                    match spec_value(s, spec_skip_ws(s, j2 + 1), depth) {
                        Some((v, j4)) => {
                            let k = spec_skip_ws(s, j4);
                            if 0 <= k < s.len() {
                                if s[k] == ',' {
                                    spec_members(
                                        s,
                                        spec_skip_ws(s, k + 1),
                                        depth,
                                        (fuel - 1) as nat,
                                        acc.push((key, v)),
                                    )
                                } else if s[k] == '}' {
                                    Some((acc.push((key, v)), k + 1))
                                } else {
                                    None
                                }
                            } else {
                                None
                            }
                        }
                        None => None,
                    }
                } else {
                    None
                }
            }
            None => None,
        }
    }
}

/// Parse a whole text: one value, surrounded by whitespace only.
pub open spec fn spec_json(s: Seq<char>) -> Option<JVal> {
    match spec_value(s, spec_skip_ws(s, 0), JSON_MAX_DEPTH as nat) {
        Some((v, j)) => {
            if spec_skip_ws(s, j) == s.len() {
                Some(v)
            } else {
                None
            }
        }
        None => None,
    }
}

/// Exec counterpart of `is_ws`.
fn ws_char(c: char) -> (b: bool)
    ensures
        b == is_ws(c),
{
    c == ' ' || c == '\n' || c == '\r' || c == '\t'
}

/// Exec counterpart of `is_digit`.
fn digit_char_p(c: char) -> (b: bool)
    ensures
        b == is_digit(c),
{
    let u = c as u32;
    48 <= u && u <= 57
}

/// Skip whitespace from `i`.
fn skip_ws(s: &Vec<char>, i: usize) -> (r: usize)
    requires
        i <= s@.len(),
    ensures
        r == spec_skip_ws(s@, i as int),
        i <= r <= s@.len(),
{
    let mut j = i;
    while j < s.len() && ws_char(s[j])
        invariant
            i <= j <= s@.len(),
            spec_skip_ws(s@, i as int) == spec_skip_ws(s@, j as int),
        decreases s@.len() - j,
    {
        j = j + 1;
    }
    j
}

/// Parse a quoted string at `i`.
fn parse_string(s: &Vec<char>, i: usize) -> (r: Option<(String, usize)>)
    requires
        i <= s@.len(),
    ensures
        match r {
            Some((t, j)) => spec_string(s@, i as int) == Some((t@, j as int)) && i < j <= s@.len(),
            None => spec_string(s@, i as int) is None,
        },
{
    if i >= s.len() || s[i] != '"' {
        return None;
    }
    let mut acc: Vec<char> = Vec::new();
    let mut j = i + 1;
    loop
        invariant
            i + 1 <= j <= s@.len(),
            spec_string(s@, i as int) == spec_str_body(s@, j as int, acc@),
        decreases s@.len() - j,
    {
        if j >= s.len() {
            return None;
        }
        let c = s[j];
        if c == '"' {
            let t = chars_to_string(&acc);
            return Some((t, j + 1));
        } else if c == '\\' {
            if j + 1 >= s.len() {
                return None;
            }
            let e = s[j + 1];
            let dec: char = if e == '"' { '"' }
                else if e == '\\' { '\\' }
                else if e == '/' { '/' }
                else if e == 'n' { '\n' }
                else if e == 'r' { '\r' }
                else if e == 't' { '\t' }
                else if e == 'b' { '\u{0008}' }
                else if e == 'f' { '\u{000C}' }
                else { ' ' };
            if e == '"' || e == '\\' || e == '/' || e == 'n' || e == 'r' || e == 't' || e == 'b'
                || e == 'f' {
                proof {
                    assert(esc_code(e) == Some(dec));
                }
                acc.push(dec);
                j = j + 2;
            } else {
                proof {
                    assert(esc_code(e) is None);
                }
                return None;
            }
        } else if (c as u32) < 32 {
            return None;
        } else {
            acc.push(c);
            j = j + 1;
        }
    }
}

/// Parse an integer at `i`, minus sign and at most 18 digits.
#[verifier::loop_isolation(false)]
#[verifier::rlimit(60)]
fn parse_int(s: &Vec<char>, i: usize) -> (r: Option<(i64, usize)>)
    requires
        i <= s@.len(),
    ensures
        match r {
            Some((n, j)) => spec_int(s@, i as int) == Some((n as int, j as int)) && i < j
                <= s@.len() && n > i64::MIN,
            None => spec_int(s@, i as int) is None,
        },
{
    let neg = i < s.len() && s[i] == '-';
    let start = if neg { i + 1 } else { i };
    let mut end = start;
    while end < s.len() && digit_char_p(s[end])
        invariant
            start <= end <= s@.len(),
            spec_digits_end(s@, start as int) == spec_digits_end(s@, end as int),
            forall|k: int| start <= k < end ==> is_digit(#[trigger] s@[k]),
        decreases s@.len() - end,
    {
        end = end + 1;
    }
    proof {
        assert(spec_digits_end(s@, start as int) == end as int);
    }
    if end == start || end - start > 18 {
        return None;
    }
    proof {
        lemma_digits_val_bound(s@, start as int, end as int);
        lemma_pow10_mono(((end - start) as nat), 18);
        reveal_with_fuel(pow10, 20);
        assert(pow10(18) == 1000000000000000000);
    }
    let mut acc: u64 = 0;
    let mut j = start;
    while j < end
        invariant
            start <= j <= end,
            acc == spec_digits_val(s@, start as int, j as int),
            acc < pow10((j - start) as nat),
        decreases end - j,
    {
        let d = (s[j] as u32 - 48) as u64;
        proof {
            lemma_pow10_mono(((j - start) as nat), 17);
            assert(pow10((j + 1 - start) as nat) == 10 * pow10((j - start) as nat));
        }
        acc = acc * 10 + d;
        j = j + 1;
    }
    proof {
        lemma_pow10_mono(((end - start) as nat), 18);
    }
    if neg {
        let n = -(acc as i64);
        proof {
            assert(spec_int(s@, i as int) == Some((n as int, end as int)));
        }
        Some((n, end))
    } else {
        let n = acc as i64;
        Some((n, end))
    }
}

/// Parse one JSON value at `i` (no leading whitespace).
#[verifier::loop_isolation(false)]
#[verifier::rlimit(60)]
fn parse_value(s: &Vec<char>, i: usize, depth: u32) -> (r: Option<(JsonValue, usize)>)
    requires
        i <= s@.len(),
    ensures
        match r {
            Some((v, j)) => spec_value(s@, i as int, depth as nat) == Some((jval_of(v), j as int))
                && i < j <= s@.len(),
            None => spec_value(s@, i as int, depth as nat) is None,
        },
    decreases depth, 0int, 0int,
{
    if i >= s.len() {
        return None;
    }
    let c = s[i];
    if c == 'n' {
        if s.len() - i >= 4 && s[i + 1] == 'u' && s[i + 2] == 'l' && s[i + 3] == 'l' {
            Some((JsonValue::Null, i + 4))
        } else {
            None
        }
    } else if c == 't' {
        if s.len() - i >= 4 && s[i + 1] == 'r' && s[i + 2] == 'u' && s[i + 3] == 'e' {
            Some((JsonValue::Bool(true), i + 4))
        } else {
            None
        }
    } else if c == 'f' {
        if s.len() - i >= 5 && s[i + 1] == 'a' && s[i + 2] == 'l' && s[i + 3] == 's' && s[i + 4]
            == 'e' {
            Some((JsonValue::Bool(false), i + 5))
        } else {
            None
        }
    } else if c == '"' {
        match parse_string(s, i) {
            Some((t, j)) => Some((JsonValue::Str(t), j)),
            None => None,
        }
    } else if c == '-' || digit_char_p(c) {
        match parse_int(s, i) {
            Some((n, j)) => Some((JsonValue::Int(n), j)),
            None => None,
        }
    } else if c == '[' {
        if depth == 0 {
            return None;
        }
        let j = skip_ws(s, i + 1);
        if j < s.len() && s[j] == ']' {
            let empty_vec: Vec<JsonValue> = Vec::new();
            proof {
                assert(jvals_of(empty_vec@) =~= Seq::<JVal>::empty());
            }
            Some((JsonValue::Arr(empty_vec), j + 1))
        } else {
            let empty_acc: Vec<JsonValue> = Vec::new();
            proof {
                assert(jvals_of(empty_acc@) =~= Seq::<JVal>::empty());
            }
            match parse_items(s, j, depth - 1, s.len(), empty_acc) {
                Some((a, k)) => Some((JsonValue::Arr(a), k)),
                None => None,
            }
        }
    } else if c == '{' {
        if depth == 0 {
            return None;
        }
        let j = skip_ws(s, i + 1);
        if j < s.len() && s[j] == '}' {
            let empty_vec: Vec<(String, JsonValue)> = Vec::new();
            proof {
                assert(jmembers_of(empty_vec@) =~= Seq::<(Seq<char>, JVal)>::empty());
            }
            Some((JsonValue::Obj(empty_vec), j + 1))
        } else {
            let empty_acc: Vec<(String, JsonValue)> = Vec::new();
            proof {
                assert(jmembers_of(empty_acc@) =~= Seq::<(Seq<char>, JVal)>::empty());
            }
            match parse_members(s, j, depth - 1, s.len(), empty_acc) {
                Some((o, k)) => Some((JsonValue::Obj(o), k)),
                None => None,
            }
        }
    } else {
        None
    }
}

/// Parse the remaining elements of a non-empty array.
#[verifier::loop_isolation(false)]
#[verifier::rlimit(60)]
fn parse_items(s: &Vec<char>, i: usize, depth: u32, fuel: usize, acc: Vec<JsonValue>) -> (r:
    Option<(Vec<JsonValue>, usize)>)
    requires
        i <= s@.len(),
    ensures
        match r {
            Some((a, j)) => spec_items(s@, i as int, depth as nat, fuel as nat, jvals_of(acc@))
                == Some((jvals_of(a@), j as int)) && i < j <= s@.len(),
            None => spec_items(s@, i as int, depth as nat, fuel as nat, jvals_of(acc@)) is None,
        },
    decreases depth, fuel, 1int,
{
    if fuel == 0 {
        return None;
    }
    let mut acc = acc;
    match parse_value(s, i, depth) {
        Some((v, j)) => {
            let k = skip_ws(s, j);
            if k < s.len() {
                let ghost acc0 = acc@;
                if s[k] == ',' {
                    let k2 = skip_ws(s, k + 1);
                    acc.push(v);
                    proof {
                        assert(jvals_of(acc@) =~= jvals_of(acc0).push(jval_of(v)));
                    }
                    parse_items(s, k2, depth, fuel - 1, acc)
                } else if s[k] == ']' {
                    acc.push(v);
                    proof {
                        assert(jvals_of(acc@) =~= jvals_of(acc0).push(jval_of(v)));
                    }
                    Some((acc, k + 1))
                } else {
                    None
                }
            } else {
                None
            }
        }
        None => None,
    }
}

/// Parse the remaining members of a non-empty object.
#[verifier::loop_isolation(false)]
#[verifier::rlimit(60)]
fn parse_members(s: &Vec<char>, i: usize, depth: u32, fuel: usize, acc: Vec<(String, JsonValue)>)
    -> (r: Option<(Vec<(String, JsonValue)>, usize)>)
    requires
        i <= s@.len(),
    ensures
        match r {
            Some((o, j)) => spec_members(s@, i as int, depth as nat, fuel as nat, jmembers_of(acc@))
                == Some((jmembers_of(o@), j as int)) && i < j <= s@.len(),
            None => spec_members(s@, i as int, depth as nat, fuel as nat, jmembers_of(acc@))
                is None,
        },
    decreases depth, fuel, 1int,
{
    if fuel == 0 {
        return None;
    }
    let mut acc = acc;
    match parse_string(s, i) {
        Some((key, j)) => {
            let j2 = skip_ws(s, j);
            if j2 < s.len() && s[j2] == ':' {
                let j3 = skip_ws(s, j2 + 1);
                match parse_value(s, j3, depth) {
                    Some((v, j4)) => {
                        let k = skip_ws(s, j4);
                        if k < s.len() {
                            let ghost acc0 = acc@;
                            let ghost keyv = key@;
                            if s[k] == ',' {
                                let k2 = skip_ws(s, k + 1);
                                acc.push((key, v));
                                proof {
                                    assert(jmembers_of(acc@) =~= jmembers_of(acc0).push(
                                        (keyv, jval_of(v)),
                                    ));
                                }
                                parse_members(s, k2, depth, fuel - 1, acc)
                            } else if s[k] == '}' {
                                acc.push((key, v));
                                proof {
                                    assert(jmembers_of(acc@) =~= jmembers_of(acc0).push(
                                        (keyv, jval_of(v)),
                                    ));
                                }
                                Some((acc, k + 1))
                            } else {
                                None
                            }
                        } else {
                            None
                        }
                    }
                    None => None,
                }
            } else {
                None
            }
        }
        None => None,
    }
}

/// Parse a whole JSON text.
pub fn parse_json(s: &str) -> (r: Option<JsonValue>)
    ensures
        match r {
            Some(v) => spec_json(s@) == Some(jval_of(v)),
            None => spec_json(s@) is None,
        },
{
    let cs = str_chars(s);
    let i = skip_ws(&cs, 0);
    match parse_value(&cs, i, JSON_MAX_DEPTH) {
        Some((v, j)) => {
            let k = skip_ws(&cs, j);
            if k == cs.len() {
                Some(v)
            } else {
                None
            }
        }
        None => None,
    }
}

} // verus!
