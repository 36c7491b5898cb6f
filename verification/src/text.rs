//! Character-level building blocks: decimal and hex rendering of integers,
//! argument-value escaping, and digit-run parsing used by response schemas.

use vstd::prelude::*;
use vstd::string::*;

verus! {

/// The character for one digit value below sixteen (decimal digits reuse the
/// lower ten).
pub open spec fn digit_char(d: int) -> char {
    if d == 0 { '0' }
    else if d == 1 { '1' }
    else if d == 2 { '2' }
    else if d == 3 { '3' }
    else if d == 4 { '4' }
    else if d == 5 { '5' }
    else if d == 6 { '6' }
    else if d == 7 { '7' }
    else if d == 8 { '8' }
    else if d == 9 { '9' }
    else if d == 10 { 'a' }
    else if d == 11 { 'b' }
    else if d == 12 { 'c' }
    else if d == 13 { 'd' }
    else if d == 14 { 'e' }
    else { 'f' }
}

/// Canonical decimal text of a natural number, most significant digit first.
pub open spec fn dec_rep(n: nat) -> Seq<char>
    decreases n,
{
    if n < 10 {
        seq![digit_char(n as int)]
    } else {
        dec_rep(n / 10).push(digit_char((n % 10) as int))
    }
}

/// Canonical decimal text of an integer: a leading minus sign when negative.
pub open spec fn dec_int(v: int) -> Seq<char> {
    if v < 0 {
        seq!['-'] + dec_rep((-v) as nat)
    } else {
        dec_rep(v as nat)
    }
}

fn digit_str(d: u8) -> (r: &'static str)
    requires
        d < 16,
    ensures
        r@ == seq![digit_char(d as int)],
{
    proof {
        reveal_strlit("0");
        reveal_strlit("1");
        reveal_strlit("2");
        reveal_strlit("3");
        reveal_strlit("4");
        reveal_strlit("5");
        reveal_strlit("6");
        reveal_strlit("7");
        reveal_strlit("8");
        reveal_strlit("9");
        reveal_strlit("a");
        reveal_strlit("b");
        reveal_strlit("c");
        reveal_strlit("d");
        reveal_strlit("e");
        reveal_strlit("f");
        assert("0"@ =~= seq!['0']);
        assert("1"@ =~= seq!['1']);
        assert("2"@ =~= seq!['2']);
        assert("3"@ =~= seq!['3']);
        assert("4"@ =~= seq!['4']);
        assert("5"@ =~= seq!['5']);
        assert("6"@ =~= seq!['6']);
        assert("7"@ =~= seq!['7']);
        assert("8"@ =~= seq!['8']);
        assert("9"@ =~= seq!['9']);
        assert("a"@ =~= seq!['a']);
        assert("b"@ =~= seq!['b']);
        assert("c"@ =~= seq!['c']);
        assert("d"@ =~= seq!['d']);
        assert("e"@ =~= seq!['e']);
        assert("f"@ =~= seq!['f']);
    }
    match d {
        0 => "0",
        1 => "1",
        2 => "2",
        3 => "3",
        4 => "4",
        5 => "5",
        6 => "6",
        7 => "7",
        8 => "8",
        9 => "9",
        10 => "a",
        11 => "b",
        12 => "c",
        13 => "d",
        14 => "e",
        _ => "f",
    }
}

/// Decimal text of an unsigned 64-bit value.
pub fn u64_dec(n: u64) -> (r: String)
    ensures
        r@ == dec_rep(n as nat),
    decreases n,
{
    if n < 10 {
        let r = digit_str(n as u8).to_owned();
        r
    } else {
        let mut s = u64_dec(n / 10);
        let d = digit_str((n % 10) as u8);
        s.append(d);
        proof {
            assert(dec_rep((n / 10) as nat) + seq![digit_char((n % 10) as int)]
                =~= dec_rep((n / 10) as nat).push(digit_char((n % 10) as int)));
        }
        s
    }
}

/// Decimal text of a signed 64-bit value.
pub fn i64_dec(n: i64) -> (r: String)
    ensures
        r@ == dec_int(n as int),
{
    if n >= 0 {
        u64_dec(n as u64)
    } else {
        let mag: u64 = if n == i64::MIN {
            9223372036854775808u64
        } else {
            (-n) as u64
        };
        proof {
            assert(mag as int == -(n as int));
        }
        let mut s = String::from_str("-");
        let tail = u64_dec(mag);
        s.append(tail.as_str());
        proof {
            reveal_strlit("-");
            assert("-"@ =~= seq!['-']);
        }
        s
    }
}

/// How one character of a free-text argument value appears on the wire.
pub open spec fn esc_char(c: char) -> Seq<char> {
    if c == '&' {
        seq!['&', 'a', 'm', 'p', ';']
    } else if c == '\n' {
        seq!['<', 'b', 'r', ' ', '/', '>']
    } else {
        seq![c]
    }
}

/// Wire form of a free-text argument value: every `&` becomes `&amp;` and
/// every newline becomes `<br />`.
pub open spec fn escaped_text(s: Seq<char>) -> Seq<char>
    decreases s.len(),
{
    if s.len() == 0 {
        seq![]
    } else {
        esc_char(s[0]) + escaped_text(s.skip(1))
    }
}

/// Escaping distributes over concatenation.
pub proof fn lemma_escaped_text_concat(a: Seq<char>, b: Seq<char>)
    ensures
        escaped_text(a + b) == escaped_text(a) + escaped_text(b),
    decreases a.len(),
{
    if a.len() == 0 {
        assert(a + b =~= b);
        assert(escaped_text(a) + escaped_text(b) =~= escaped_text(b));
    } else {
        assert((a + b).skip(1) =~= a.skip(1) + b);
        lemma_escaped_text_concat(a.skip(1), b);
        assert(escaped_text(a + b) =~= escaped_text(a) + escaped_text(b));
    }
}

proof fn lemma_escaped_text_snoc(s: Seq<char>, i: int)
    requires
        0 <= i < s.len(),
    ensures
        escaped_text(s.take(i + 1)) == escaped_text(s.take(i)) + esc_char(s[i]),
{
    assert(s.take(i + 1) =~= s.take(i) + seq![s[i]]);
    lemma_escaped_text_concat(s.take(i), seq![s[i]]);
    assert(seq![s[i]].skip(1) =~= Seq::<char>::empty());
    assert(escaped_text(Seq::<char>::empty()) =~= seq![]);
    assert(escaped_text(seq![s[i]]) =~= esc_char(s[i]));
}

/// Escape a free-text argument value for the wire.
pub fn escape_text(s: &str) -> (r: String)
    ensures
        r@ == escaped_text(s@),
{
    let len = s.unicode_len();
    let mut out = String::new();
    let mut i: usize = 0;
    while i < len
        invariant
            i <= len,
            len == s@.len(),
            out@ == escaped_text(s@.take(i as int)),
        decreases len - i,
    {
        let c = s.get_char(i);
        if c == '&' {
            out.append("&amp;");
            proof {
                reveal_strlit("&amp;");
                assert("&amp;"@ =~= seq!['&', 'a', 'm', 'p', ';']);
            }
        } else if c == '\n' {
            out.append("<br />");
            proof {
                reveal_strlit("<br />");
                assert("<br />"@ =~= seq!['<', 'b', 'r', ' ', '/', '>']);
            }
        } else {
            let piece = s.substring_char(i, i + 1);
            out.append(piece);
            proof {
                assert(s@.subrange(i as int, i as int + 1) =~= seq![s@[i as int]]);
            }
        }
        proof {
            lemma_escaped_text_snoc(s@, i as int);
        }
        i += 1;
    }
    proof {
        assert(s@.take(len as int) =~= s@);
    }
    out
}

/// Wire form of one byte: two lowercase hex digits, high nibble first.
pub open spec fn hex_byte(b: u8) -> Seq<char> {
    seq![digit_char(b as int / 16), digit_char(b as int % 16)]
}

/// Wire form of a byte sequence: two lowercase hex digits per byte, in input
/// order.
pub open spec fn hex_of(bs: Seq<u8>) -> Seq<char>
    decreases bs.len(),
{
    if bs.len() == 0 {
        seq![]
    } else {
        hex_byte(bs[0]) + hex_of(bs.skip(1))
    }
}

proof fn lemma_hex_of_snoc(bs: Seq<u8>, i: int)
    requires
        0 <= i < bs.len(),
    ensures
        hex_of(bs.take(i + 1)) == hex_of(bs.take(i)) + hex_byte(bs[i]),
    decreases i,
{
    if i == 0 {
        assert(bs.take(1) =~= seq![bs[0]]);
        assert(seq![bs[0]].skip(1) =~= Seq::<u8>::empty());
        assert(hex_of(Seq::<u8>::empty()) =~= seq![]);
        assert(hex_of(seq![bs[0]]) =~= hex_byte(bs[0]));
        assert(hex_of(bs.take(0)) + hex_byte(bs[0]) =~= hex_byte(bs[0]));
    } else {
        assert(bs.take(i + 1)[0] == bs[0]);
        assert(bs.take(i + 1).skip(1) =~= bs.skip(1).take(i));
        assert(bs.take(i)[0] == bs[0]);
        assert(bs.take(i).skip(1) =~= bs.skip(1).take(i - 1));
        lemma_hex_of_snoc(bs.skip(1), i - 1);
        assert(bs.skip(1)[i - 1] == bs[i]);
        assert(hex_of(bs.take(i + 1)) =~= hex_of(bs.take(i)) + hex_byte(bs[i]));
    }
}

/// Hex-encode a byte sequence.
pub fn hex_encode(bs: &[u8]) -> (r: String)
    ensures
        r@ == hex_of(bs@),
{
    let len = bs.len();
    let mut out = String::new();
    let mut i: usize = 0;
    while i < len
        invariant
            i <= len,
            len == bs@.len(),
            out@ == hex_of(bs@.take(i as int)),
        decreases len - i,
    {
        let b = *vstd::slice::slice_index_get(bs, i);
        out.append(digit_str(b / 16));
        out.append(digit_str(b % 16));
        proof {
            lemma_hex_of_snoc(bs@, i as int);
        }
        i += 1;
    }
    proof {
        assert(bs@.take(len as int) =~= bs@);
    }
    out
}

/// The characters of a string as an indexable vector.
pub fn chars_vec(s: &str) -> (r: Vec<char>)
    ensures
        r@ == s@,
{
    let len = s.unicode_len();
    let mut r: Vec<char> = Vec::new();
    let mut i: usize = 0;
    while i < len
        invariant
            i <= len,
            len == s@.len(),
            r@ == s@.take(i as int),
        decreases len - i,
    {
        r.push(s.get_char(i));
        proof {
            assert(s@.take(i as int + 1) =~= s@.take(i as int).push(s@[i as int]));
        }
        i += 1;
    }
    proof {
        assert(s@.take(len as int) =~= s@);
    }
    r
}

pub open spec fn is_dec_digit(c: char) -> bool {
    '0' <= c && c <= '9'
}

/// Characters admitted into a numeric field's run: ASCII digits and `-`.
pub open spec fn is_run_char(c: char) -> bool {
    is_dec_digit(c) || c == '-'
}

pub open spec fn digit_val(c: char) -> int {
    c as int - 48
}

pub open spec fn all_digits(ds: Seq<char>) -> bool {
    forall|i: int| 0 <= i < ds.len() ==> is_dec_digit(#[trigger] ds[i])
}

/// Value of a digit string, most significant digit first.
pub open spec fn digits_val(ds: Seq<char>) -> nat
    decreases ds.len(),
{
    if ds.len() == 0 {
        0
    } else {
        (digits_val(ds.drop_last()) * 10 + digit_val(ds.last())) as nat
    }
}

/// Whether a run of digit-or-dash characters has the shape of an integer:
/// nonempty digits, at most one leading minus sign (admitted only when the
/// target type is signed).
pub open spec fn valid_int_run(run: Seq<char>, allow_neg: bool) -> bool {
    if run.len() == 0 {
        false
    } else if run[0] == '-' {
        allow_neg && run.len() >= 2 && all_digits(run.skip(1))
    } else {
        all_digits(run)
    }
}

/// The integer a well-shaped run denotes.
pub open spec fn int_run_val(run: Seq<char>) -> int {
    if run.len() > 0 && run[0] == '-' {
        -(digits_val(run.skip(1)) as int)
    } else {
        digits_val(run) as int
    }
}

/// What parsing a numeric run yields: its value when the shape is valid and
/// the value lies in `[lo, hi]`, nothing otherwise.
pub open spec fn parse_int_run(run: Seq<char>, lo: int, hi: int, allow_neg: bool) -> Option<int> {
    if valid_int_run(run, allow_neg) && lo <= int_run_val(run) <= hi {
        Some(int_run_val(run))
    } else {
        None
    }
}

proof fn lemma_digits_val_prefix_le(ds: Seq<char>, i: int)
    requires
        0 <= i <= ds.len(),
        all_digits(ds),
    ensures
        digits_val(ds.take(i)) <= digits_val(ds),
    decreases ds.len() - i,
{
    if i == ds.len() {
        assert(ds.take(i) =~= ds);
    } else {
        lemma_digits_val_prefix_le(ds, i + 1);
        assert(ds.take(i + 1).drop_last() =~= ds.take(i));
        assert(is_dec_digit(ds[i]));
        assert(ds.take(i + 1).last() == ds[i]);
        assert(digits_val(ds.take(i + 1))
            == (digits_val(ds.take(i)) * 10 + digit_val(ds[i])) as nat);
        assert(digits_val(ds.take(i)) * 10 >= digits_val(ds.take(i))) by (nonlinear_arith);
    }
}

/// Parse the characters `v[start..end]` as a decimal integer confined to
/// `[lo, hi]`; a minus sign is admitted only when `lo` is negative.
#[verifier::loop_isolation(false)]
pub fn parse_int_chars(v: &Vec<char>, start: usize, end: usize, lo: i64, hi: i64) -> (r: Option<
    i64,
>)
    requires
        start <= end <= v@.len(),
        lo <= 0 <= hi,
    ensures
        match r {
            Some(x) => parse_int_run(v@.subrange(start as int, end as int), lo as int, hi as int, lo < 0)
                == Some(x as int),
            None => parse_int_run(v@.subrange(start as int, end as int), lo as int, hi as int, lo < 0)
                is None,
        },
{
    let ghost run = v@.subrange(start as int, end as int);
    if start == end {
        return None;
    }
    let neg = v[start] == '-';
    if neg && lo >= 0 {
        return None;
    }
    let ds: usize = if neg { start + 1 } else { start };
    if ds == end {
        // a bare minus sign
        return None;
    }
    let ghost digits = v@.subrange(ds as int, end as int);
    proof {
        assert(run[0] == v@[start as int]);
        if neg {
            assert(digits =~= run.skip(1));
        } else {
            assert(digits =~= run);
        }
        assert(digits == (if neg { run.skip(1) } else { run }));
    }
    let cap: u64 = if neg {
        if lo == i64::MIN {
            9223372036854775808u64
        } else {
            (-lo) as u64
        }
    } else {
        hi as u64
    };
    let mut acc: u64 = 0;
    let mut i: usize = ds;
    while i < end
        invariant
            ds <= i <= end <= v@.len(),
            digits == v@.subrange(ds as int, end as int),
            all_digits(v@.subrange(ds as int, i as int)),
            acc == digits_val(v@.subrange(ds as int, i as int)),
            acc <= cap,
        decreases end - i,
    {
        let c = v[i];
        if !('0' <= c && c <= '9') {
            proof {
                assert(digits[i - ds] == c);
                assert(!is_dec_digit(c));
                assert(!all_digits(digits));
                if valid_int_run(run, lo < 0) {
                    if run[0] == '-' {
                        assert(all_digits(run.skip(1)));
                    } else {
                        assert(all_digits(run));
                    }
                    assert(false);
                }
            }
            return None;
        }
        let d = (c as u32 - 48) as u64;
        proof {
            assert(v@.subrange(ds as int, i as int + 1).drop_last()
                =~= v@.subrange(ds as int, i as int));
            assert(v@.subrange(ds as int, i as int + 1).last() == c);
        }
        if d > cap || acc > (cap - d) / 10 {
            proof {
                let pre = v@.subrange(ds as int, i as int + 1);
                assert(digits_val(pre) == (acc * 10 + d) as nat);
                if d > cap {
                    assert(acc * 10 >= 0) by (nonlinear_arith);
                    assert(digits_val(pre) > cap);
                } else {
                    assert(acc >= (cap - d) / 10 + 1);
                    assert(acc * 10 >= ((cap - d) / 10 + 1) * 10) by (nonlinear_arith)
                        requires acc >= (cap - d) / 10 + 1;
                    assert(((cap - d) / 10 + 1) * 10 == ((cap - d) / 10) * 10 + 10);
                    assert(((cap - d) / 10) * 10 + 10 > cap - d) by (nonlinear_arith);
                    assert(digits_val(pre) > cap);
                }
                if valid_int_run(run, lo < 0) {
                    let dsq = if run[0] == '-' { run.skip(1) } else { run };
                    assert(dsq == digits);
                    assert(all_digits(digits));
                    assert(pre =~= digits.take(i - ds + 1));
                    lemma_digits_val_prefix_le(digits, i - ds + 1);
                    assert(digits_val(digits) > cap);
                    if run[0] == '-' {
                        assert(int_run_val(run) < lo);
                    } else {
                        assert(int_run_val(run) > hi);
                    }
                }
            }
            return None;
        }
        proof {
            assert(acc <= (cap - d) / 10);
            assert(acc * 10 <= ((cap - d) / 10) * 10) by (nonlinear_arith)
                requires acc <= (cap - d) / 10;
            assert(((cap - d) / 10) * 10 <= cap - d) by (nonlinear_arith);
        }
        acc = acc * 10 + d;
        i += 1;
    }
    proof {
        assert(v@.subrange(ds as int, end as int) =~= digits);
        assert(acc == digits_val(digits));
        assert(all_digits(digits));
        if neg {
            assert(valid_int_run(run, lo < 0));
            assert(int_run_val(run) == -(acc as int));
        } else {
            assert(run[0] != '-');
            assert(valid_int_run(run, lo < 0));
            assert(int_run_val(run) == acc as int);
        }
    }
    if neg {
        if acc == 9223372036854775808u64 {
            Some(i64::MIN)
        } else {
            Some(-(acc as i64))
        }
    } else {
        Some(acc as i64)
    }
}

/// Escaping makes a value unambiguous against the wire separators: the
/// escaped text never contains a raw newline, and every `&` in it is the
/// start of an `&amp;` escape, never a bare argument separator.
pub proof fn lemma_escaping_unambiguous(s: Seq<char>)
    ensures
        forall|i: int| 0 <= i < escaped_text(s).len() ==> #[trigger] escaped_text(s)[i] != '\n',
        forall|i: int|
            0 <= i < escaped_text(s).len() && #[trigger] escaped_text(s)[i] == '&' ==> i + 5
                <= escaped_text(s).len() && escaped_text(s).subrange(i, i + 5) == seq![
                '&',
                'a',
                'm',
                'p',
                ';',
            ],
    decreases s.len(),
{
    if s.len() == 0 {
    } else {
        lemma_escaping_unambiguous(s.skip(1));
        let head = esc_char(s[0]);
        let tail = escaped_text(s.skip(1));
        let e = escaped_text(s);
        assert(e == head + tail);
        let h = head.len() as int;
        assert forall|i: int| 0 <= i < e.len() implies #[trigger] e[i] != '\n' by {
            if i >= h {
                assert(e[i] == tail[i - h]);
            }
        }
        assert forall|i: int|
            0 <= i < e.len() && #[trigger] e[i] == '&' implies i + 5 <= e.len() && e.subrange(
            i,
            i + 5,
        ) == seq!['&', 'a', 'm', 'p', ';'] by {
            if i < h {
                assert(e[i] == head[i]);
                assert(s[0] == '&' && i == 0);
                assert(tail == e.skip(5));
                assert(e.subrange(0, 5) =~= seq!['&', 'a', 'm', 'p', ';']);
            } else {
                assert(e[i] == tail[i - h]);
                assert(tail.subrange(i - h, i - h + 5) == seq!['&', 'a', 'm', 'p', ';']);
                assert(e.subrange(i, i + 5) =~= tail.subrange(i - h, i - h + 5));
            }
        }
    }
}

/// Hex encoding yields exactly two lowercase hex digits per byte, high
/// nibble first, in input order.
pub proof fn lemma_hex_shape(bs: Seq<u8>)
    ensures
        hex_of(bs).len() == 2 * bs.len(),
        forall|i: int|
            0 <= i < bs.len() ==> hex_of(bs)[2 * i] == digit_char(#[trigger] bs[i] as int / 16)
                && hex_of(bs)[2 * i + 1] == digit_char(bs[i] as int % 16),
    decreases bs.len(),
{
    if bs.len() == 0 {
    } else {
        lemma_hex_shape(bs.skip(1));
        let tail = hex_of(bs.skip(1));
        let e = hex_of(bs);
        assert(e == hex_byte(bs[0]) + tail);
        assert forall|i: int|
            0 <= i < bs.len() implies e[2 * i] == digit_char(#[trigger] bs[i] as int / 16) && e[2
            * i + 1] == digit_char(bs[i] as int % 16) by {
            if i > 0 {
                assert(bs.skip(1)[i - 1] == bs[i]);
                assert(e[2 * i] == tail[2 * (i - 1)]);
                assert(e[2 * i + 1] == tail[2 * (i - 1) + 1]);
            }
        }
    }
}

} // verus!
