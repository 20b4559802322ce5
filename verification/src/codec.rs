//! Conversion between durations in whole seconds and `HH:MM:SS` text.
//!
//! A duration renders as hours, minutes and seconds in decimal, joined by
//! colons, each field zero-padded to at least two digits; the hours field
//! grows beyond two digits when the duration calls for it.  Parsing splits
//! the text on colons, keeps the fields that read as integers no larger
//! than `u64::MAX`, and accepts the text exactly when three such fields
//! remain, weighting them as hours, minutes and seconds.

use vstd::prelude::*;

verus! {

pub open spec fn is_digit(c: char) -> bool {
    48 <= c as int && c as int <= 57
}

pub open spec fn digit_val(c: char) -> nat {
    (c as int - 48) as nat
}

pub open spec fn digit_char(d: nat) -> char {
    if d == 0 {
        '0'
    } else if d == 1 {
        '1'
    } else if d == 2 {
        '2'
    } else if d == 3 {
        '3'
    } else if d == 4 {
        '4'
    } else if d == 5 {
        '5'
    } else if d == 6 {
        '6'
    } else if d == 7 {
        '7'
    } else if d == 8 {
        '8'
    } else {
        '9'
    }
}

pub open spec fn all_digits(s: Seq<char>) -> bool {
    forall|i: int| 0 <= i < s.len() ==> is_digit(#[trigger] s[i])
}

/// The number a run of decimal digits denotes.
pub open spec fn digits_val(s: Seq<char>) -> nat
    decreases s.len(),
{
    if s.len() == 0 {
        0
    } else {
        digits_val(s.drop_last()) * 10 + digit_val(s.last())
    }
}

/// The decimal digits of `n`, most significant first, with no leading zero
/// except for `n == 0` itself.
pub open spec fn dec_digits(n: nat) -> Seq<char>
    decreases n,
{
    if n < 10 {
        seq![digit_char(n)]
    } else {
        dec_digits(n / 10).push(digit_char(n % 10))
    }
}

/// Zero-pad a digit run on the left to a width of at least two.
pub open spec fn pad2(s: Seq<char>) -> Seq<char> {
    if s.len() >= 2 {
        s
    } else {
        seq!['0'] + s
    }
}

/// The `HH:MM:SS` rendering of a duration of `n` seconds.
pub open spec fn hms_text(n: nat) -> Seq<char> {
    pad2(dec_digits(n / 3600)) + seq![':'] + pad2(dec_digits((n % 3600) / 60)) + seq![':']
        + pad2(dec_digits(n % 3600 % 60))
}

/// The parser's state after reading a prefix of the text: the values of
/// the colon-separated fields already read that parsed as integers, and
/// what is known of the field still being read.
pub ghost struct FieldScan {
    /// Values of the completed fields that parsed, in order.
    pub fields: Seq<nat>,
    /// Length of the field being read.
    pub cur_len: nat,
    /// Whether the field being read is all digits so far.
    pub cur_ok: bool,
    /// The number the digits of the field being read denote.
    pub cur_val: nat,
}

pub open spec fn scan_init() -> FieldScan {
    FieldScan { fields: Seq::empty(), cur_len: 0, cur_ok: true, cur_val: 0 }
}

/// Close the field being read: it is kept only when non-empty, all
/// digits, and no larger than `u64::MAX`.
pub open spec fn scan_commit(st: FieldScan) -> FieldScan {
    let fields = if st.cur_len > 0 && st.cur_ok && st.cur_val <= u64::MAX as nat {
        st.fields.push(st.cur_val)
    } else {
        st.fields
    };
    FieldScan { fields, cur_len: 0, cur_ok: true, cur_val: 0 }
}

pub open spec fn scan_step(st: FieldScan, c: char) -> FieldScan {
    if c == ':' {
        scan_commit(st)
    } else if is_digit(c) {
        FieldScan { cur_len: st.cur_len + 1, cur_val: st.cur_val * 10 + digit_val(c), ..st }
    } else {
        FieldScan { cur_len: st.cur_len + 1, cur_ok: false, ..st }
    }
}

pub open spec fn scan_chars(st: FieldScan, s: Seq<char>) -> FieldScan
    decreases s.len(),
{
    if s.len() == 0 {
        st
    } else {
        scan_chars(scan_step(st, s[0]), s.drop_first())
    }
}

/// The integer fields of `s` that survive parsing.
pub open spec fn time_fields(s: Seq<char>) -> Seq<nat> {
    scan_commit(scan_chars(scan_init(), s)).fields
}

/// Whether `s` is accepted as a time: exactly three fields survive and
/// the weighted total fits in a `u64`.
pub open spec fn time_ok(s: Seq<char>) -> bool {
    &&& time_fields(s).len() == 3
    &&& time_fields(s)[0] * 3600 + time_fields(s)[1] * 60 + time_fields(s)[2] <= u64::MAX as nat
}

/// The duration `s` denotes, in seconds.
pub open spec fn time_val(s: Seq<char>) -> nat {
    (time_fields(s)[0] * 3600 + time_fields(s)[1] * 60 + time_fields(s)[2]) as nat
}

fn digit_str(d: u64) -> (r: &'static str)
    requires
        d < 10,
    ensures
        r@ == seq![digit_char(d as nat)],
{
    let r: &'static str = if d == 0 {
        "0"
    } else if d == 1 {
        "1"
    } else if d == 2 {
        "2"
    } else if d == 3 {
        "3"
    } else if d == 4 {
        "4"
    } else if d == 5 {
        "5"
    } else if d == 6 {
        "6"
    } else if d == 7 {
        "7"
    } else if d == 8 {
        "8"
    } else {
        "9"
    };
    proof {
        reveal_strlit("0");
        reveal_strlit("1");
        reveal_strlit("2");
        reveal_strlit("3");
        reveal_strlit("4");
        reveal_strlit("5");
        reveal_strlit("6");
        reveal_strlit("7");
        reveal_strlit("8");
        reveal_strlit("9");
        assert(r@ =~= seq![digit_char(d as nat)]);
    }
    r
}

pub proof fn lemma_dec_digits(n: nat)
    ensures
        dec_digits(n).len() >= 1,
        n < 10 ==> dec_digits(n).len() == 1,
        n >= 10 ==> dec_digits(n).len() >= 2,
        all_digits(dec_digits(n)),
        digits_val(dec_digits(n)) == n,
    decreases n,
{
    if n < 10 {
        let s = seq![digit_char(n)];
        assert(s.drop_last() =~= Seq::<char>::empty());
        assert(digits_val(Seq::<char>::empty()) == 0);
        assert(digits_val(s) == digit_val(digit_char(n)));
    } else {
        lemma_dec_digits(n / 10);
        let s = dec_digits(n / 10);
        assert(s.push(digit_char(n % 10)).drop_last() =~= s);
        assert(digits_val(dec_digits(n)) == n / 10 * 10 + n % 10);
    }
}

fn push_decimal(out: &mut String, n: u64)
    ensures
        final(out)@ == old(out)@ + dec_digits(n as nat),
    decreases n,
{
    if n >= 10 {
        push_decimal(out, n / 10);
    }
    out.append(digit_str(n % 10));
    proof {
        assert(out@ =~= old(out)@ + dec_digits(n as nat));
    }
}

fn push_padded(out: &mut String, n: u64)
    ensures
        final(out)@ == old(out)@ + pad2(dec_digits(n as nat)),
{
    if n < 10 {
        out.append("0");
    }
    push_decimal(out, n);
    proof {
        reveal_strlit("0");
        lemma_dec_digits(n as nat);
        assert(out@ =~= old(out)@ + pad2(dec_digits(n as nat)));
    }
}

proof fn lemma_scan_one(st: FieldScan, c: char)
    ensures
        scan_chars(st, seq![c]) == scan_step(st, c),
{
    assert(seq![c].drop_first() =~= Seq::<char>::empty());
    assert(seq![c][0] == c);
    assert(scan_chars(scan_step(st, c), Seq::<char>::empty()) == scan_step(st, c));
}

proof fn lemma_scan_chars_append(st: FieldScan, a: Seq<char>, b: Seq<char>)
    ensures
        scan_chars(st, a + b) == scan_chars(scan_chars(st, a), b),
    decreases a.len(),
{
    if a.len() == 0 {
        assert(a + b =~= b);
    } else {
        assert((a + b).drop_first() =~= a.drop_first() + b);
        assert((a + b)[0] == a[0]);
        lemma_scan_chars_append(scan_step(st, a[0]), a.drop_first(), b);
    }
}

proof fn lemma_scan_chars_snoc(st: FieldScan, s: Seq<char>, c: char)
    ensures
        scan_chars(st, s.push(c)) == scan_step(scan_chars(st, s), c),
{
    assert(s.push(c) =~= s + seq![c]);
    lemma_scan_chars_append(st, s, seq![c]);
    lemma_scan_one(scan_chars(st, s), c);
}

/// Scanning a run of digits from a fresh field accumulates the run's value.
proof fn lemma_scan_digit_run(st: FieldScan, ds: Seq<char>)
    requires
        all_digits(ds),
        st.cur_ok,
        st.cur_val == 0,
    ensures
        scan_chars(st, ds) == (FieldScan {
            fields: st.fields,
            cur_len: (st.cur_len + ds.len()) as nat,
            cur_ok: true,
            cur_val: digits_val(ds),
        }),
    decreases ds.len(),
{
    if ds.len() == 0 {
        assert(st == (FieldScan {
            fields: st.fields,
            cur_len: st.cur_len,
            cur_ok: true,
            cur_val: 0nat,
        }));
    } else {
        let dl = ds.drop_last();
        let c = ds.last();
        assert(ds =~= dl.push(c));
        lemma_scan_digit_run(st, dl);
        lemma_scan_chars_snoc(st, dl, c);
        assert(is_digit(c));
        assert(c != ':');
    }
}

proof fn lemma_leading_zero(s: Seq<char>)
    ensures
        digits_val(seq!['0'] + s) == digits_val(s),
    decreases s.len(),
{
    if s.len() == 0 {
        let z = seq!['0'] + s;
        assert(z =~= seq!['0']);
        assert(z.drop_last() =~= Seq::<char>::empty());
        assert(digits_val(Seq::<char>::empty()) == 0);
        assert(digit_val('0') == 0);
    } else {
        assert((seq!['0'] + s).drop_last() =~= seq!['0'] + s.drop_last());
        assert((seq!['0'] + s).last() == s.last());
        lemma_leading_zero(s.drop_last());
    }
}

/// Facts about a padded digit run: still all digits, still non-empty,
/// and the same value.
proof fn lemma_pad2(n: nat)
    ensures
        pad2(dec_digits(n)).len() >= 1,
        all_digits(pad2(dec_digits(n))),
        digits_val(pad2(dec_digits(n))) == n,
{
    lemma_dec_digits(n);
    if dec_digits(n).len() < 2 {
        lemma_leading_zero(dec_digits(n));
        assert(is_digit('0'));
        assert(all_digits(seq!['0'] + dec_digits(n)));
    }
}

/// Formatting then parsing gives back the duration: `HH:MM:SS` text
/// produced by the formatter is accepted and denotes the same number of
/// seconds, for every `u64` duration.
pub proof fn lemma_format_parse_round_trip(n: u64)
    ensures
        time_ok(hms_text(n as nat)),
        time_val(hms_text(n as nat)) == n,
{
    let nn = n as nat;
    let h = nn / 3600;
    let r = nn % 3600;
    let m = r / 60;
    let s = r % 60;
    assert(nn == 3600 * h + r);
    assert(r == 60 * m + s);
    assert(r < 3600);
    assert(s < 60);
    assert(60 * m <= r);
    assert(m < 60);
    assert(3600 * h <= nn);
    assert(h <= nn);
    let fa = pad2(dec_digits(h));
    let fb = pad2(dec_digits(m));
    let fc = pad2(dec_digits(s));
    lemma_pad2(h);
    lemma_pad2(m);
    lemma_pad2(s);
    let colon = seq![':'];
    let st0 = scan_init();
    lemma_scan_digit_run(st0, fa);
    let st1 = scan_chars(st0, fa);
    lemma_scan_one(st1, ':');
    let st2 = scan_step(st1, ':');
    lemma_scan_digit_run(st2, fb);
    let st3 = scan_chars(st2, fb);
    lemma_scan_one(st3, ':');
    let st4 = scan_step(st3, ':');
    lemma_scan_digit_run(st4, fc);
    let st5 = scan_chars(st4, fc);
    lemma_scan_chars_append(st0, fa, colon);
    lemma_scan_chars_append(st0, fa + colon, fb);
    lemma_scan_chars_append(st0, fa + colon + fb, colon);
    lemma_scan_chars_append(st0, fa + colon + fb + colon, fc);
    assert(scan_chars(st0, fa + colon) == st2);
    assert(scan_chars(st0, fa + colon + fb) == st3);
    assert(scan_chars(st0, fa + colon + fb + colon) == st4);
    assert(scan_chars(st0, hms_text(nn)) == st5);
    let fields = time_fields(hms_text(nn));
    assert(fields =~= seq![h, m, s]);
    assert(fields[0] * 3600 + fields[1] * 60 + fields[2] == nn);
}

/// Parse `HH:MM:SS` text into a number of seconds.
///
/// The fields need not be zero-padded; a field that does not read as an
/// integer at most `u64::MAX` is dropped, and the text is rejected
/// unless exactly three fields remain.  A text whose weighted total
/// exceeds `u64::MAX` is rejected as well.
pub fn time_to_seconds(t: &str) -> (r: Result<u64, String>)
    ensures
        time_ok(t@) ==> r is Ok && r->Ok_0 == time_val(t@),
        !time_ok(t@) ==> r is Err && r->Err_0@ == "Invalid format"@,
{
    let n = t.unicode_len();
    let mut i: usize = 0;
    let mut count: usize = 0;
    let mut v0: u64 = 0;
    let mut v1: u64 = 0;
    let mut v2: u64 = 0;
    let mut cur_any: bool = false;
    let mut cur_ok: bool = true;
    let mut cur_big: bool = false;
    let mut cur_val: u64 = 0;
    while i < n
        invariant
            n == t@.len(),
            i <= n,
            scan_tracked(
                scan_chars(scan_init(), t@.take(i as int)),
                count as int,
                v0,
                v1,
                v2,
                cur_any,
                cur_ok,
                cur_big,
                cur_val,
            ),
        decreases n - i,
    {
        let c = t.get_char(i);
        let ghost st = scan_chars(scan_init(), t@.take(i as int));
        if c == ':' {
            if cur_any && cur_ok && !cur_big {
                if count == 0 {
                    v0 = cur_val;
                } else if count == 1 {
                    v1 = cur_val;
                } else if count == 2 {
                    v2 = cur_val;
                }
                if count < 4 {
                    count = count + 1;
                }
            }
            cur_any = false;
            cur_ok = true;
            cur_big = false;
            cur_val = 0;
        } else {
            let u = c as u32;
            if 48 <= u && u <= 57 {
                let d = (u - 48) as u64;
                if !cur_big {
                    if cur_val > (u64::MAX - d) / 10 {
                        cur_big = true;
                        proof {
                            let q = (u64::MAX - d) as int / 10;
                            assert((u64::MAX - d) as int == 10 * q + (u64::MAX - d) as int % 10);
                            assert(cur_val as int * 10 >= (q + 1) * 10);
                        }
                    } else {
                        proof {
                            let q = (u64::MAX - d) as int / 10;
                            assert((u64::MAX - d) as int == 10 * q + (u64::MAX - d) as int % 10);
                            assert(cur_val as int * 10 <= q * 10);
                        }
                        cur_val = cur_val * 10 + d;
                    }
                } else {
                    proof {
                        assert(st.cur_val * 10 >= st.cur_val);
                    }
                }
            } else {
                cur_ok = false;
            }
            cur_any = true;
        }
        proof {
            assert(t@.take(i as int + 1) =~= t@.take(i as int).push(t@[i as int]));
            lemma_scan_chars_snoc(scan_init(), t@.take(i as int), t@[i as int]);
        }
        i = i + 1;
    }
    proof {
        assert(t@.take(n as int) =~= t@);
    }
    if cur_any && cur_ok && !cur_big {
        if count == 0 {
            v0 = cur_val;
        } else if count == 1 {
            v1 = cur_val;
        } else if count == 2 {
            v2 = cur_val;
        }
        if count < 4 {
            count = count + 1;
        }
    }
    let ghost fields = time_fields(t@);
    if count == 3 {
        proof {
            assert(fields =~= seq![v0 as nat, v1 as nat, v2 as nat]);
        }
        if v0 <= u64::MAX / 3600 {
            proof {
                assert(u64::MAX as int == 3600 * (u64::MAX as int / 3600) + u64::MAX as int
                    % 3600);
                assert(v0 as int * 3600 <= (u64::MAX as int / 3600) * 3600);
            }
            let t1 = v0 * 3600;
            if v1 <= (u64::MAX - t1) / 60 {
                proof {
                    let q = (u64::MAX - t1) as int / 60;
                    assert((u64::MAX - t1) as int == 60 * q + (u64::MAX - t1) as int % 60);
                    assert(v1 as int * 60 <= q * 60);
                }
                let t2 = t1 + v1 * 60;
                if v2 <= u64::MAX - t2 {
                    return Ok(t2 + v2);
                } else {
                    return Err(String::from_str("Invalid format"));
                }
            } else {
                proof {
                    let q = (u64::MAX - t1) as int / 60;
                    assert((u64::MAX - t1) as int == 60 * q + (u64::MAX - t1) as int % 60);
                    assert(v1 as int * 60 >= (q + 1) * 60);
                }
                return Err(String::from_str("Invalid format"));
            }
        } else {
            proof {
                assert(u64::MAX as int == 3600 * (u64::MAX as int / 3600) + u64::MAX as int
                    % 3600);
                assert(v0 as int * 3600 >= (u64::MAX as int / 3600 + 1) * 3600);
            }
            return Err(String::from_str("Invalid format"));
        }
    } else {
        return Err(String::from_str("Invalid format"));
    }
}

/// The correspondence between the parsing loop's variables and the
/// specification's scan of the prefix read so far.
spec fn scan_tracked(
    st: FieldScan,
    count: int,
    v0: u64,
    v1: u64,
    v2: u64,
    cur_any: bool,
    cur_ok: bool,
    cur_big: bool,
    cur_val: u64,
) -> bool {
    &&& count == if st.fields.len() <= 4 {
        st.fields.len() as int
    } else {
        4
    }
    &&& count >= 1 ==> v0 == st.fields[0]
    &&& count >= 2 ==> v1 == st.fields[1]
    &&& count >= 3 ==> v2 == st.fields[2]
    &&& cur_any == (st.cur_len > 0)
    &&& cur_ok == st.cur_ok
    &&& !cur_big ==> cur_val == st.cur_val
    &&& cur_big ==> st.cur_val > u64::MAX
}

/// Render a number of seconds as `HH:MM:SS`.
pub fn seconds_to_time(seconds: u64) -> (r: String)
    ensures
        r@ == hms_text(seconds as nat),
{
    let hours = seconds / 3600;
    let rem = seconds % 3600;
    let minutes = rem / 60;
    let secs = rem % 60;
    let mut out = String::new();
    push_padded(&mut out, hours);
    out.append(":");
    push_padded(&mut out, minutes);
    out.append(":");
    push_padded(&mut out, secs);
    proof {
        reveal_strlit(":");
        assert(out@ =~= hms_text(seconds as nat));
    }
    out
}

} // verus!
