//! Declarative response schemas: an ordered list of parse steps (fixed
//! literals and typed fields) applied left-to-right, which either consumes
//! the whole input and yields the extracted field values, or fails.

use vstd::prelude::*;
use vstd::string::*;
use vstd::pervasive::{arbitrary, unreached};
use crate::text::{chars_vec, is_run_char, parse_int_chars, parse_int_run};

verus! {

/// One parse step, at the specification level.
pub enum StepV {
    /// The next characters must equal this literal; consumes it.
    Lit(Seq<char>),
    /// Free text up to (not including) the next occurrence of the terminator
    /// literal; consumes the text and the terminator.
    TextField(Seq<char>),
    U32Field,
    I16Field,
    I32Field,
    I64Field,
    BoolField,
}

/// One parse step of a schema.
pub enum Step {
    Lit(String),
    TextField(String),
    U32Field,
    I16Field,
    I32Field,
    I64Field,
    BoolField,
}

impl View for Step {
    type V = StepV;

    open spec fn view(&self) -> StepV {
        match self {
            Step::Lit(l) => StepV::Lit(l@),
            Step::TextField(t) => StepV::TextField(t@),
            Step::U32Field => StepV::U32Field,
            Step::I16Field => StepV::I16Field,
            Step::I32Field => StepV::I32Field,
            Step::I64Field => StepV::I64Field,
            Step::BoolField => StepV::BoolField,
        }
    }
}

/// One extracted field value, at the specification level.
pub enum ValueV {
    U32(u32),
    I16(i16),
    I32(i32),
    I64(i64),
    Bool(bool),
    Text(Seq<char>),
}

/// One extracted field value.
#[derive(Debug, PartialEq)]
pub enum Value {
    U32(u32),
    I16(i16),
    I32(i32),
    I64(i64),
    Bool(bool),
    Text(String),
}

impl View for Value {
    type V = ValueV;

    open spec fn view(&self) -> ValueV {
        match self {
            Value::U32(x) => ValueV::U32(*x),
            Value::I16(x) => ValueV::I16(*x),
            Value::I32(x) => ValueV::I32(*x),
            Value::I64(x) => ValueV::I64(*x),
            Value::Bool(x) => ValueV::Bool(*x),
            Value::Text(x) => ValueV::Text(x@),
        }
    }
}

/// The type a field value carries.
pub enum Kind {
    U32,
    I16,
    I32,
    I64,
    Boolean,
    Text,
}

pub open spec fn value_kind(v: ValueV) -> Kind {
    match v {
        ValueV::U32(_) => Kind::U32,
        ValueV::I16(_) => Kind::I16,
        ValueV::I32(_) => Kind::I32,
        ValueV::I64(_) => Kind::I64,
        ValueV::Bool(_) => Kind::Boolean,
        ValueV::Text(_) => Kind::Text,
    }
}

pub open spec fn step_kind(st: StepV) -> Option<Kind> {
    match st {
        StepV::Lit(_) => None,
        StepV::TextField(_) => Some(Kind::Text),
        StepV::U32Field => Some(Kind::U32),
        StepV::I16Field => Some(Kind::I16),
        StepV::I32Field => Some(Kind::I32),
        StepV::I64Field => Some(Kind::I64),
        StepV::BoolField => Some(Kind::Boolean),
    }
}

/// The kinds of the fields a schema extracts, in order.
pub open spec fn field_kinds(steps: Seq<StepV>) -> Seq<Kind>
    decreases steps.len(),
{
    if steps.len() == 0 {
        seq![]
    } else {
        match step_kind(steps[0]) {
            Some(k) => seq![k] + field_kinds(steps.skip(1)),
            None => field_kinds(steps.skip(1)),
        }
    }
}

pub open spec fn steps_view(ss: Seq<Step>) -> Seq<StepV> {
    ss.map(|i: int, st: Step| st@)
}

pub open spec fn vals_view(vs: Seq<Value>) -> Seq<ValueV> {
    vs.map(|i: int, v: Value| v@)
}

/// The literal stands at `pos` in `s`.
pub open spec fn lit_matches(s: Seq<char>, pos: int, lit: Seq<char>) -> bool {
    0 <= pos && pos + lit.len() <= s.len() && s.subrange(pos, pos + lit.len()) == lit
}

/// The first position at or after `pos` where the literal stands in `s`.
pub open spec fn find_lit(s: Seq<char>, pos: int, lit: Seq<char>) -> Option<int>
    decreases s.len() - pos + 1,
{
    if pos < 0 || pos + lit.len() > s.len() {
        None
    } else if lit_matches(s, pos, lit) {
        Some(pos)
    } else {
        find_lit(s, pos + 1, lit)
    }
}

/// The end of the run of digit-or-dash characters starting at `pos`.
pub open spec fn digit_run_end(s: Seq<char>, pos: int) -> int
    decreases s.len() - pos,
{
    if pos < 0 || pos >= s.len() {
        pos
    } else if is_run_char(s[pos]) {
        digit_run_end(s, pos + 1)
    } else {
        pos
    }
}

/// A numeric field: a nonempty digit-or-dash run parsed within `[lo, hi]`.
pub open spec fn spec_num_step(s: Seq<char>, pos: int, lo: int, hi: int, allow_neg: bool) -> Option<
    (int, int),
> {
    let end = digit_run_end(s, pos);
    if end == pos {
        None
    } else {
        match parse_int_run(s.subrange(pos, end), lo, hi, allow_neg) {
            Some(v) => Some((v, end)),
            None => None,
        }
    }
}

/// Apply one step at `pos`: the extracted value, if the step yields one, and
/// the next cursor position.
pub open spec fn spec_step(s: Seq<char>, pos: int, step: StepV) -> Option<(Option<ValueV>, int)> {
    match step {
        StepV::Lit(l) => if lit_matches(s, pos, l) {
            Some((None, pos + l.len()))
        } else {
            None
        },
        StepV::TextField(t) => match find_lit(s, pos, t) {
            Some(k) => Some((Some(ValueV::Text(s.subrange(pos, k))), k + t.len())),
            None => None,
        },
        StepV::U32Field => match spec_num_step(s, pos, 0, 0xffff_ffff, false) {
            Some((v, end)) => Some((Some(ValueV::U32(v as u32)), end)),
            None => None,
        },
        StepV::I16Field => match spec_num_step(s, pos, -0x8000, 0x7fff, true) {
            Some((v, end)) => Some((Some(ValueV::I16(v as i16)), end)),
            None => None,
        },
        StepV::I32Field => if lit_matches(s, pos, seq!['n', 'o', 'n', 'e']) {
            Some((Some(ValueV::I32(0)), pos + 4))
        } else {
            match spec_num_step(s, pos, -0x8000_0000, 0x7fff_ffff, true) {
                Some((v, end)) => Some((Some(ValueV::I32(v as i32)), end)),
                None => None,
            }
        },
        StepV::I64Field => match spec_num_step(
            s,
            pos,
            -0x8000_0000_0000_0000,
            0x7fff_ffff_ffff_ffff,
            true,
        ) {
            Some((v, end)) => Some((Some(ValueV::I64(v as i64)), end)),
            None => None,
        },
        StepV::BoolField => if pos < s.len() && s[pos] == '0' {
            Some((Some(ValueV::Bool(false)), pos + 1))
        } else if pos < s.len() && s[pos] == '1' {
            Some((Some(ValueV::Bool(true)), pos + 1))
        } else {
            None
        },
    }
}

pub open spec fn opt_seq(ov: Option<ValueV>) -> Seq<ValueV> {
    match ov {
        Some(v) => seq![v],
        None => seq![],
    }
}

/// Run the steps in order from `pos`: the extracted values and the final
/// cursor position, or failure as soon as one step fails.
pub open spec fn run_steps(s: Seq<char>, pos: int, steps: Seq<StepV>) -> Option<
    (Seq<ValueV>, int),
>
    decreases steps.len(),
{
    if steps.len() == 0 {
        Some((seq![], pos))
    } else {
        match spec_step(s, pos, steps[0]) {
            Some((ov, pos2)) => match run_steps(s, pos2, steps.skip(1)) {
                Some((vs, p)) => Some((opt_seq(ov) + vs, p)),
                None => None,
            },
            None => None,
        }
    }
}

/// A full schema match: every step succeeds in order and the cursor ends
/// exactly at the end of the input; trailing unconsumed characters fail the
/// whole decode.
pub open spec fn decode_spec(s: Seq<char>, steps: Seq<StepV>) -> Option<Seq<ValueV>> {
    match run_steps(s, 0, steps) {
        Some((vs, p)) => if p == s.len() {
            Some(vs)
        } else {
            None
        },
        None => None,
    }
}

/// Running a concatenation of step lists is running them in sequence.
pub proof fn lemma_run_steps_concat(s: Seq<char>, pos: int, a: Seq<StepV>, b: Seq<StepV>)
    ensures
        run_steps(s, pos, a + b) == (match run_steps(s, pos, a) {
            Some((vs, p)) => match run_steps(s, p, b) {
                Some((vs2, p2)) => Some::<(Seq<ValueV>, int)>((vs + vs2, p2)),
                None => None::<(Seq<ValueV>, int)>,
            },
            None => None::<(Seq<ValueV>, int)>,
        }),
    decreases a.len(),
{
    if a.len() == 0 {
        assert(a + b =~= b);
        match run_steps(s, pos, b) {
            Some((vs2, p2)) => {
                assert(Seq::<ValueV>::empty() + vs2 =~= vs2);
            },
            None => {},
        }
    } else {
        assert((a + b)[0] == a[0]);
        match spec_step(s, pos, a[0]) {
            Some((ov, pos2)) => {
                assert((a + b).skip(1) =~= a.skip(1) + b);
                lemma_run_steps_concat(s, pos2, a.skip(1), b);
                match run_steps(s, pos2, a.skip(1)) {
                    Some((vs1, p1)) => {
                        match run_steps(s, p1, b) {
                            Some((vs2, p2)) => {
                                assert((opt_seq(ov) + vs1) + vs2 =~= opt_seq(ov) + (vs1 + vs2));
                            },
                            None => {},
                        }
                    },
                    None => {},
                }
            },
            None => {},
        }
    }
}

/// Every value a run extracts has the kind its field step declares.
pub proof fn lemma_run_steps_kinds(s: Seq<char>, pos: int, steps: Seq<StepV>)
    ensures
        run_steps(s, pos, steps) matches Some((vs, p)) ==> {
            &&& vs.len() == field_kinds(steps).len()
            &&& forall|i: int| 0 <= i < vs.len() ==> value_kind(#[trigger] vs[i]) == field_kinds(
                steps,
            )[i]
        },
    decreases steps.len(),
{
    if steps.len() == 0 {
    } else {
        match spec_step(s, pos, steps[0]) {
            Some((ov, pos2)) => {
                lemma_run_steps_kinds(s, pos2, steps.skip(1));
                match run_steps(s, pos2, steps.skip(1)) {
                    Some((vs1, p1)) => {
                        match step_kind(steps[0]) {
                            Some(k) => {
                                assert(ov matches Some(v) && value_kind(v) == k);
                                assert(field_kinds(steps) =~= seq![k] + field_kinds(steps.skip(1)));
                            },
                            None => {
                                assert(ov is None);
                            },
                        }
                    },
                    None => {},
                }
            },
            None => {},
        }
    }
}

/// Totality of schema decoding: a successful decode has consumed the input
/// exactly to its end; any trailing unconsumed characters make it fail.
pub proof fn lemma_decode_consumes_all(s: Seq<char>, steps: Seq<StepV>)
    ensures
        decode_spec(s, steps) matches Some(vs) ==> run_steps(s, 0, steps) == Some(
            (vs, s.len() as int),
        ),
{
}

#[verifier::loop_isolation(false)]
fn lit_at(v: &Vec<char>, pos: usize, lit: &str) -> (b: bool)
    requires
        pos <= v@.len(),
    ensures
        b == lit_matches(v@, pos as int, lit@),
{
    let llen = lit.unicode_len();
    if llen > v.len() - pos {
        return false;
    }
    let mut j: usize = 0;
    while j < llen
        invariant
            j <= llen,
            forall|m: int| 0 <= m < j ==> v@[pos + m] == lit@[m],
        decreases llen - j,
    {
        if lit.get_char(j) != v[pos + j] {
            proof {
                assert(v@.subrange(pos as int, pos + llen)[j as int] != lit@[j as int]);
            }
            return false;
        }
        j += 1;
    }
    proof {
        assert(v@.subrange(pos as int, pos + llen) =~= lit@);
    }
    true
}

#[verifier::loop_isolation(false)]
fn find_lit_at(v: &Vec<char>, pos: usize, lit: &str) -> (r: Option<usize>)
    requires
        pos <= v@.len(),
    ensures
        match r {
            Some(k) => find_lit(v@, pos as int, lit@) == Some(k as int) && pos <= k
                && k + lit@.len() <= v@.len(),
            None => find_lit(v@, pos as int, lit@) is None,
        },
{
    let llen = lit.unicode_len();
    let mut k = pos;
    while llen <= v.len() - k
        invariant
            pos <= k <= v@.len(),
            find_lit(v@, pos as int, lit@) == find_lit(v@, k as int, lit@),
        decreases v@.len() - k,
    {
        if lit_at(v, k, lit) {
            return Some(k);
        }
        proof {
            if lit@.len() == 0 {
                assert(v@.subrange(k as int, k as int) =~= lit@);
                assert(false);
            }
        }
        k += 1;
    }
    None
}

#[verifier::loop_isolation(false)]
fn digit_run_end_exec(v: &Vec<char>, pos: usize) -> (r: usize)
    requires
        pos <= v@.len(),
    ensures
        r as int == digit_run_end(v@, pos as int),
        pos <= r <= v@.len(),
{
    let mut k = pos;
    while k < v.len() && (('0' <= v[k] && v[k] <= '9') || v[k] == '-')
        invariant
            pos <= k <= v@.len(),
            digit_run_end(v@, pos as int) == digit_run_end(v@, k as int),
        decreases v@.len() - k,
    {
        k += 1;
    }
    k
}


/// Extending a successful partial run by one more successful step.
proof fn lemma_run_steps_extend(
    s: Seq<char>,
    steps: Seq<StepV>,
    i: int,
    vs0: Seq<ValueV>,
    p0: int,
    ov: Option<ValueV>,
    p1: int,
)
    requires
        0 <= i < steps.len(),
        run_steps(s, 0, steps.take(i)) == Some((vs0, p0)),
        spec_step(s, p0, steps[i]) == Some((ov, p1)),
    ensures
        run_steps(s, 0, steps.take(i + 1)) == Some((vs0 + opt_seq(ov), p1)),
{
    assert(steps.take(i + 1) =~= steps.take(i) + seq![steps[i]]);
    lemma_run_steps_concat(s, 0, steps.take(i), seq![steps[i]]);
    assert(seq![steps[i]].skip(1) =~= Seq::<StepV>::empty());
    assert(run_steps(s, p1, Seq::<StepV>::empty()) == Some((Seq::<ValueV>::empty(), p1)));
    assert(seq![steps[i]][0] == steps[i]);
    assert(run_steps(s, p0, seq![steps[i]]) == Some((opt_seq(ov) + Seq::<ValueV>::empty(), p1)));
    assert(opt_seq(ov) + Seq::<ValueV>::empty() =~= opt_seq(ov));
}

/// A failing step aborts the whole run.
proof fn lemma_run_steps_abort(s: Seq<char>, steps: Seq<StepV>, i: int, vs0: Seq<ValueV>, p0: int)
    requires
        0 <= i < steps.len(),
        run_steps(s, 0, steps.take(i)) == Some((vs0, p0)),
        spec_step(s, p0, steps[i]) is None,
    ensures
        run_steps(s, 0, steps) is None,
{
    assert(steps =~= steps.take(i) + steps.skip(i));
    lemma_run_steps_concat(s, 0, steps.take(i), steps.skip(i));
    assert(steps.skip(i)[0] == steps[i]);
    assert(run_steps(s, p0, steps.skip(i)) is None);
}

/// Decode raw response text against one schema: all the extracted field
/// values when the schema fully matches the text, nothing otherwise.
#[verifier::loop_isolation(false)]
pub fn decode(s: &str, schema: &Vec<Step>) -> (r: Option<Vec<Value>>)
    ensures
        match r {
            Some(vals) => decode_spec(s@, steps_view(schema@)) == Some(vals_view(vals@)),
            None => decode_spec(s@, steps_view(schema@)) is None,
        },
{
    let ghost stv = steps_view(schema@);
    let v = chars_vec(s);
    let mut pos: usize = 0;
    let mut vals: Vec<Value> = Vec::new();
    let mut i: usize = 0;
    while i < schema.len()
        invariant
            i <= schema@.len(),
            pos <= v@.len(),
            run_steps(s@, 0, stv.take(i as int)) == Some((vals_view(vals@), pos as int)),
        decreases schema@.len() - i,
    {
        let ghost st = stv[i as int];
        let ghost p0 = pos as int;
        let ghost vs0 = vals_view(vals@);
        match &schema[i] {
            Step::Lit(l) => {
                if lit_at(&v, pos, l.as_str()) {
                    let llen = l.as_str().unicode_len();
                    let vl = v.len();
                    proof {
                        assert(pos + llen <= vl);
                    }
                    pos = pos + llen;
                    proof {
                        assert(spec_step(s@, p0, st) == Some((None::<ValueV>, pos as int)));
                        lemma_run_steps_extend(s@, stv, i as int, vs0, p0, None, pos as int);
                        assert(vs0 + opt_seq(None) =~= vs0);
                    }
                } else {
                    proof {
                        assert(spec_step(s@, p0, st) is None);
                        lemma_run_steps_abort(s@, stv, i as int, vs0, p0);
                    }
                    return None;
                }
            },
            Step::TextField(t) => {
                match find_lit_at(&v, pos, t.as_str()) {
                    Some(k) => {
                        let piece = s.substring_char(pos, k).to_owned();
                        let tlen = t.as_str().unicode_len();
                        let vl = v.len();
                        proof {
                            assert(k + tlen <= vl);
                        }
                        pos = k + tlen;
                        vals.push(Value::Text(piece));
                        proof {
                            let ov = Some(ValueV::Text(s@.subrange(p0, k as int)));
                            assert(spec_step(s@, p0, st) == Some((ov, pos as int)));
                            lemma_run_steps_extend(s@, stv, i as int, vs0, p0, ov, pos as int);
                            assert(vals_view(vals@) =~= vs0 + opt_seq(ov));
                        }
                    },
                    None => {
                        proof {
                            assert(spec_step(s@, p0, st) is None);
                            lemma_run_steps_abort(s@, stv, i as int, vs0, p0);
                        }
                        return None;
                    },
                }
            },
            Step::U32Field => {
                let end = digit_run_end_exec(&v, pos);
                let parsed = if end == pos { None } else {
                    parse_int_chars(&v, pos, end, 0, 0xffff_ffff)
                };
                match parsed {
                    Some(x) => {
                        vals.push(Value::U32(x as u32));
                        pos = end;
                        proof {
                            let ov = Some(ValueV::U32(x as u32));
                            assert(spec_step(s@, p0, st) == Some((ov, pos as int)));
                            lemma_run_steps_extend(s@, stv, i as int, vs0, p0, ov, pos as int);
                            assert(vals_view(vals@) =~= vs0 + opt_seq(ov));
                        }
                    },
                    None => {
                        proof {
                            assert(spec_step(s@, p0, st) is None);
                            lemma_run_steps_abort(s@, stv, i as int, vs0, p0);
                        }
                        return None;
                    },
                }
            },
            Step::I16Field => {
                let end = digit_run_end_exec(&v, pos);
                let parsed = if end == pos { None } else {
                    parse_int_chars(&v, pos, end, -0x8000, 0x7fff)
                };
                match parsed {
                    Some(x) => {
                        vals.push(Value::I16(x as i16));
                        pos = end;
                        proof {
                            let ov = Some(ValueV::I16(x as i16));
                            assert(spec_step(s@, p0, st) == Some((ov, pos as int)));
                            lemma_run_steps_extend(s@, stv, i as int, vs0, p0, ov, pos as int);
                            assert(vals_view(vals@) =~= vs0 + opt_seq(ov));
                        }
                    },
                    None => {
                        proof {
                            assert(spec_step(s@, p0, st) is None);
                            lemma_run_steps_abort(s@, stv, i as int, vs0, p0);
                        }
                        return None;
                    },
                }
            },
            Step::I32Field => {
                if pos < v.len() && v.len() - pos >= 4 && v[pos] == 'n' && v[pos + 1] == 'o'
                    && v[pos + 2] == 'n' && v[pos + 3] == 'e' {
                    proof {
                        assert(v@.subrange(pos as int, pos as int + 4) =~= seq!['n', 'o', 'n', 'e']);
                    }
                    vals.push(Value::I32(0));
                    pos = pos + 4;
                    proof {
                        let ov = Some(ValueV::I32(0));
                        assert(spec_step(s@, p0, st) == Some((ov, pos as int)));
                        lemma_run_steps_extend(s@, stv, i as int, vs0, p0, ov, pos as int);
                        assert(vals_view(vals@) =~= vs0 + opt_seq(ov));
                    }
                } else {
                    proof {
                        if lit_matches(v@, p0, seq!['n', 'o', 'n', 'e']) {
                            assert(v@.subrange(p0, p0 + 4)[0] == 'n');
                            assert(v@.subrange(p0, p0 + 4)[1] == 'o');
                            assert(v@.subrange(p0, p0 + 4)[2] == 'n');
                            assert(v@.subrange(p0, p0 + 4)[3] == 'e');
                            assert(false);
                        }
                    }
                    let end = digit_run_end_exec(&v, pos);
                    let parsed = if end == pos { None } else {
                        parse_int_chars(&v, pos, end, -0x8000_0000, 0x7fff_ffff)
                    };
                    match parsed {
                        Some(x) => {
                            vals.push(Value::I32(x as i32));
                            pos = end;
                            proof {
                                let ov = Some(ValueV::I32(x as i32));
                                assert(spec_step(s@, p0, st) == Some((ov, pos as int)));
                                lemma_run_steps_extend(s@, stv, i as int, vs0, p0, ov, pos as int);
                                assert(vals_view(vals@) =~= vs0 + opt_seq(ov));
                            }
                        },
                        None => {
                            proof {
                                assert(spec_step(s@, p0, st) is None);
                                lemma_run_steps_abort(s@, stv, i as int, vs0, p0);
                            }
                            return None;
                        },
                    }
                }
            },
            Step::I64Field => {
                let end = digit_run_end_exec(&v, pos);
                let parsed = if end == pos { None } else {
                    parse_int_chars(&v, pos, end, i64::MIN, i64::MAX)
                };
                match parsed {
                    Some(x) => {
                        vals.push(Value::I64(x));
                        pos = end;
                        proof {
                            let ov = Some(ValueV::I64(x));
                            assert(spec_step(s@, p0, st) == Some((ov, pos as int)));
                            lemma_run_steps_extend(s@, stv, i as int, vs0, p0, ov, pos as int);
                            assert(vals_view(vals@) =~= vs0 + opt_seq(ov));
                        }
                    },
                    None => {
                        proof {
                            assert(spec_step(s@, p0, st) is None);
                            lemma_run_steps_abort(s@, stv, i as int, vs0, p0);
                        }
                        return None;
                    },
                }
            },
            Step::BoolField => {
                if pos < v.len() && v[pos] == '0' {
                    vals.push(Value::Bool(false));
                    pos = pos + 1;
                    proof {
                        let ov = Some(ValueV::Bool(false));
                        assert(spec_step(s@, p0, st) == Some((ov, pos as int)));
                        lemma_run_steps_extend(s@, stv, i as int, vs0, p0, ov, pos as int);
                        assert(vals_view(vals@) =~= vs0 + opt_seq(ov));
                    }
                } else if pos < v.len() && v[pos] == '1' {
                    vals.push(Value::Bool(true));
                    pos = pos + 1;
                    proof {
                        let ov = Some(ValueV::Bool(true));
                        assert(spec_step(s@, p0, st) == Some((ov, pos as int)));
                        lemma_run_steps_extend(s@, stv, i as int, vs0, p0, ov, pos as int);
                        assert(vals_view(vals@) =~= vs0 + opt_seq(ov));
                    }
                } else {
                    proof {
                        assert(spec_step(s@, p0, st) is None);
                        lemma_run_steps_abort(s@, stv, i as int, vs0, p0);
                    }
                    return None;
                }
            },
        }
        i += 1;
    }
    proof {
        assert(stv.take(schema@.len() as int) =~= stv);
    }
    if pos == v.len() {
        Some(vals)
    } else {
        None
    }
}

pub open spec fn schema_views(ss: Seq<Vec<Step>>) -> Seq<Seq<StepV>> {
    ss.map(|i: int, sch: Vec<Step>| steps_view(sch@))
}

/// What trying an ordered list of candidate schemas against one text yields:
/// the first fully matching schema's index and values, every earlier
/// candidate having failed; or nothing when no candidate matches.
pub open spec fn match_first_post(
    s: Seq<char>,
    schemas: Seq<Seq<StepV>>,
    r: Option<(int, Seq<ValueV>)>,
) -> bool {
    match r {
        Some((i, vs)) => 0 <= i < schemas.len() && decode_spec(s, schemas[i]) == Some(vs)
            && (forall|j: int| 0 <= j < i ==> decode_spec(s, #[trigger] schemas[j]) is None),
        None => forall|j: int|
            0 <= j < schemas.len() ==> decode_spec(s, #[trigger] schemas[j]) is None,
    }
}

/// Try each candidate schema in order against the full text; the first full
/// match wins.
#[verifier::loop_isolation(false)]
pub fn match_first(s: &str, schemas: &Vec<Vec<Step>>) -> (r: Option<(usize, Vec<Value>)>)
    ensures
        match r {
            Some((i, vs)) => match_first_post(
                s@,
                schema_views(schemas@),
                Some((i as int, vals_view(vs@))),
            ),
            None => match_first_post(s@, schema_views(schemas@), None),
        },
{
    let mut i: usize = 0;
    while i < schemas.len()
        invariant
            i <= schemas@.len(),
            forall|j: int|
                0 <= j < i ==> decode_spec(s@, #[trigger] schema_views(schemas@)[j]) is None,
        decreases schemas@.len() - i,
    {
        match decode(s, &schemas[i]) {
            Some(vals) => {
                return Some((i, vals));
            },
            None => {},
        }
        i += 1;
    }
    None
}

/// Matcher ordering: when the first of two candidate schemas fully matches
/// the text, the matcher's outcome is the first candidate's match, never the
/// second's.
pub proof fn lemma_match_first_priority(
    s: Seq<char>,
    a: Seq<StepV>,
    b: Seq<StepV>,
    r: Option<(int, Seq<ValueV>)>,
)
    requires
        match_first_post(s, seq![a, b], r),
        decode_spec(s, a) is Some,
    ensures
        r matches Some((i, vs)) && i == 0 && Some(vs) == decode_spec(s, a),
{
    assert(seq![a, b][0] == a);
    match r {
        Some((i, vs)) => {
            if i != 0 {
                assert(decode_spec(s, seq![a, b][0]) is None);
                assert(false);
            }
        },
        None => {
            assert(decode_spec(s, seq![a, b][0]) is None);
            assert(false);
        },
    }
}

pub open spec fn u32_of(v: ValueV) -> u32 {
    match v {
        ValueV::U32(x) => x,
        _ => arbitrary(),
    }
}

pub open spec fn i16_of(v: ValueV) -> i16 {
    match v {
        ValueV::I16(x) => x,
        _ => arbitrary(),
    }
}

pub open spec fn i32_of(v: ValueV) -> i32 {
    match v {
        ValueV::I32(x) => x,
        _ => arbitrary(),
    }
}

pub open spec fn i64_of(v: ValueV) -> i64 {
    match v {
        ValueV::I64(x) => x,
        _ => arbitrary(),
    }
}

pub open spec fn bool_of(v: ValueV) -> bool {
    match v {
        ValueV::Bool(x) => x,
        _ => arbitrary(),
    }
}

pub open spec fn text_of(v: ValueV) -> Seq<char> {
    match v {
        ValueV::Text(t) => t,
        _ => arbitrary(),
    }
}

/// Read the `u32` field at index `i` of a decoded value list.
pub fn get_u32(vals: &Vec<Value>, i: usize) -> (r: u32)
    requires
        i < vals@.len(),
        value_kind(vals@[i as int]@) == Kind::U32,
    ensures
        r == u32_of(vals@[i as int]@),
{
    match &vals[i] {
        Value::U32(x) => *x,
        _ => unreached(),
    }
}

/// Read the `i16` field at index `i` of a decoded value list.
pub fn get_i16(vals: &Vec<Value>, i: usize) -> (r: i16)
    requires
        i < vals@.len(),
        value_kind(vals@[i as int]@) == Kind::I16,
    ensures
        r == i16_of(vals@[i as int]@),
{
    match &vals[i] {
        Value::I16(x) => *x,
        _ => unreached(),
    }
}

/// Read the `i32` field at index `i` of a decoded value list.
pub fn get_i32(vals: &Vec<Value>, i: usize) -> (r: i32)
    requires
        i < vals@.len(),
        value_kind(vals@[i as int]@) == Kind::I32,
    ensures
        r == i32_of(vals@[i as int]@),
{
    match &vals[i] {
        Value::I32(x) => *x,
        _ => unreached(),
    }
}

/// Read the `i64` field at index `i` of a decoded value list.
pub fn get_i64(vals: &Vec<Value>, i: usize) -> (r: i64)
    requires
        i < vals@.len(),
        value_kind(vals@[i as int]@) == Kind::I64,
    ensures
        r == i64_of(vals@[i as int]@),
{
    match &vals[i] {
        Value::I64(x) => *x,
        _ => unreached(),
    }
}

/// Read the boolean field at index `i` of a decoded value list.
pub fn get_bool(vals: &Vec<Value>, i: usize) -> (r: bool)
    requires
        i < vals@.len(),
        value_kind(vals@[i as int]@) == Kind::Boolean,
    ensures
        r == bool_of(vals@[i as int]@),
{
    match &vals[i] {
        Value::Bool(x) => *x,
        _ => unreached(),
    }
}

/// Read the text field at index `i` of a decoded value list.
pub fn get_text(vals: &Vec<Value>, i: usize) -> (r: String)
    requires
        i < vals@.len(),
        value_kind(vals@[i as int]@) == Kind::Text,
    ensures
        r@ == text_of(vals@[i as int]@),
{
    match &vals[i] {
        Value::Text(t) => t.clone(),
        _ => unreached(),
    }
}

} // verus!
