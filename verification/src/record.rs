//! The append-only record format of a metric log.
//!
//! One successful sample is one line, `<timestamp>: <value>\n`, where
//! the value is the decimal rendering of an unsigned number. The
//! timestamp may itself contain `": "`, so a reader takes the *last*
//! occurrence as the separator; [`lemma_record_round_trip`] proves that
//! this reading is exact for every line the writer can produce.

use vstd::prelude::*;
use vstd::arithmetic::div_mod::{lemma_fundamental_div_mod, lemma_mod_bound};

verus! {

/// The value of a decimal digit character, `-1` for any other character.
pub open spec fn digit_val(c: char) -> int {
    if c == '0' {
        0
    } else if c == '1' {
        1
    } else if c == '2' {
        2
    } else if c == '3' {
        3
    } else if c == '4' {
        4
    } else if c == '5' {
        5
    } else if c == '6' {
        6
    } else if c == '7' {
        7
    } else if c == '8' {
        8
    } else if c == '9' {
        9
    } else {
        -1
    }
}

pub open spec fn is_digit(c: char) -> bool {
    digit_val(c) >= 0
}

/// The digit character of `d`; meaningful for `0 <= d <= 9`.
pub open spec fn dec_digit(d: int) -> char {
    if d == 0 {
        '0'
    } else if d == 1 {
        '1'
    } else if d == 2 {
        '2'
    } else if d == 3 {
        '3'
    } else if d == 4 {
        '4'
    } else if d == 5 {
        '5'
    } else if d == 6 {
        '6'
    } else if d == 7 {
        '7'
    } else if d == 8 {
        '8'
    } else {
        '9'
    }
}

/// The decimal rendering of `n`: most significant digit first, no sign,
/// no leading zero except for `n == 0` itself.
pub open spec fn dec_rep(n: nat) -> Seq<char>
    decreases n,
{
    if n < 10 {
        seq![dec_digit(n as int)]
    } else {
        dec_rep(n / 10).push(dec_digit((n % 10) as int))
    }
}

/// The number a digit sequence denotes, most significant digit first;
/// a non-digit character contributes nothing.
pub open spec fn dec_val(s: Seq<char>) -> nat
    decreases s.len(),
{
    if s.len() == 0 {
        0
    } else {
        (dec_val(s.drop_last()) * 10 + (if is_digit(s.last()) {
            digit_val(s.last())
        } else {
            0
        })) as nat
    }
}

/// A non-empty sequence of decimal digits.
pub open spec fn is_dec_seq(s: Seq<char>) -> bool {
    s.len() > 0 && forall|i: int| 0 <= i < s.len() ==> is_digit(#[trigger] s[i])
}

/// Rendering a number gives digits, and reading them back gives the
/// number: the decimal rendering loses nothing.
pub proof fn lemma_dec_rep_val(n: nat)
    ensures
        is_dec_seq(dec_rep(n)),
        dec_val(dec_rep(n)) == n,
    decreases n,
{
    if n < 10 {
        let s0 = seq![dec_digit(n as int)];
        assert(dec_rep(n) =~= s0);
        assert(s0.drop_last() =~= Seq::<char>::empty());
        assert(dec_val(s0.drop_last()) == 0);
        assert(s0.last() == dec_digit(n as int));
        assert(digit_val(dec_digit(n as int)) == n);
        assert(dec_val(dec_rep(n)) == n);
    } else {
        lemma_dec_rep_val(n / 10);
        let prefix = dec_rep(n / 10);
        let whole = prefix.push(dec_digit((n % 10) as int));
        assert(whole.drop_last() =~= prefix);
        lemma_fundamental_div_mod(n as int, 10);
        assert(forall|i: int|
            0 <= i < whole.len() ==> is_digit(#[trigger] whole[i])) by {
            assert(forall|i: int|
                0 <= i < prefix.len() ==> is_digit(#[trigger] prefix[i]));
        }
    }
}

/// A longer digit prefix never denotes a smaller number.
proof fn lemma_dec_val_prefix_mono(s: Seq<char>, i: int, j: int)
    requires
        0 <= i <= j <= s.len(),
    ensures
        dec_val(s.subrange(0, i)) <= dec_val(s.subrange(0, j)),
    decreases j - i,
{
    if i < j {
        lemma_dec_val_prefix_mono(s, i, j - 1);
        assert(s.subrange(0, j).drop_last() =~= s.subrange(0, j - 1));
        assert(dec_val(s.subrange(0, j - 1)) <= dec_val(s.subrange(0, j)));
    }
}

/// The digit character of a small number, as a one-character string.
fn digit_to_string(d: u64) -> (s: String)
    requires
        d < 10,
    ensures
        s@ == seq![dec_digit(d as int)],
{
    let s: String;
    if d == 0 {
        s = String::from_str("0");
        proof { reveal_strlit("0"); }
    } else if d == 1 {
        s = String::from_str("1");
        proof { reveal_strlit("1"); }
    } else if d == 2 {
        s = String::from_str("2");
        proof { reveal_strlit("2"); }
    } else if d == 3 {
        s = String::from_str("3");
        proof { reveal_strlit("3"); }
    } else if d == 4 {
        s = String::from_str("4");
        proof { reveal_strlit("4"); }
    } else if d == 5 {
        s = String::from_str("5");
        proof { reveal_strlit("5"); }
    } else if d == 6 {
        s = String::from_str("6");
        proof { reveal_strlit("6"); }
    } else if d == 7 {
        s = String::from_str("7");
        proof { reveal_strlit("7"); }
    } else if d == 8 {
        s = String::from_str("8");
        proof { reveal_strlit("8"); }
    } else {
        s = String::from_str("9");
        proof { reveal_strlit("9"); }
    }
    proof {
        assert(s@ =~= seq![dec_digit(d as int)]);
    }
    s
}

/// Render a number in decimal, exactly as [`dec_rep`] describes it.
pub fn u64_to_string(n: u64) -> (s: String)
    ensures
        s@ == dec_rep(n as nat),
    decreases n,
{
    if n < 10 {
        digit_to_string(n)
    } else {
        let mut s = u64_to_string(n / 10);
        let d = digit_to_string(n % 10);
        s.append(d.as_str());
        proof {
            assert(s@ =~= dec_rep((n / 10) as nat).push(dec_digit((n % 10) as int)));
        }
        s
    }
}

/// The numeric value of a decimal digit character, when it has one.
fn char_digit(c: char) -> (r: Option<u64>)
    ensures
        r matches Some(d) ==> is_digit(c) && d == digit_val(c) && d < 10,
        r is None ==> !is_digit(c),
{
    if c == '0' {
        Some(0)
    } else if c == '1' {
        Some(1)
    } else if c == '2' {
        Some(2)
    } else if c == '3' {
        Some(3)
    } else if c == '4' {
        Some(4)
    } else if c == '5' {
        Some(5)
    } else if c == '6' {
        Some(6)
    } else if c == '7' {
        Some(7)
    } else if c == '8' {
        Some(8)
    } else if c == '9' {
        Some(9)
    } else {
        None
    }
}

/// Read a decimal number back: `Some` exactly when the whole string is
/// a non-empty run of digits whose value fits the result type.
pub fn parse_u64(s: &str) -> (r: Option<u64>)
    ensures
        r matches Some(v) ==> is_dec_seq(s@) && v as nat == dec_val(s@),
        is_dec_seq(s@) && dec_val(s@) <= u64::MAX ==> r is Some,
{
    let len = s.unicode_len();
    if len == 0 {
        return None;
    }
    let mut i: usize = 0;
    let mut acc: u64 = 0;
    while i < len
        invariant
            0 <= i <= len,
            len == s@.len(),
            forall|j: int| 0 <= j < i ==> is_digit(#[trigger] s@[j]),
            acc as nat == dec_val(s@.subrange(0, i as int)),
        decreases len - i,
    {
        let c = s.get_char(i);
        let d = match char_digit(c) {
            Some(d) => d,
            None => {
                return None;
            },
        };
        if acc > (u64::MAX - d) / 10 {
            proof {
                let full = s@;
                let upto = full.subrange(0, i as int + 1);
                assert(upto.drop_last() =~= full.subrange(0, i as int));
                assert(upto.last() == full[i as int]);
                lemma_fundamental_div_mod((u64::MAX - d) as int, 10);
                lemma_mod_bound((u64::MAX - d) as int, 10);
                assert(acc * 10 + d > u64::MAX) by {
                    let q = ((u64::MAX - d) / 10) as int;
                    assert(acc >= q + 1);
                    assert(acc * 10 >= (q + 1) * 10);
                }
                assert(dec_val(upto) > u64::MAX);
                lemma_dec_val_prefix_mono(full, i as int + 1, full.len() as int);
                assert(full.subrange(0, full.len() as int) =~= full);
                assert(dec_val(full) > u64::MAX);
            }
            return None;
        }
        proof {
            lemma_fundamental_div_mod((u64::MAX - d) as int, 10);
            lemma_mod_bound((u64::MAX - d) as int, 10);
            let upto = s@.subrange(0, i as int + 1);
            assert(upto.drop_last() =~= s@.subrange(0, i as int));
            assert(upto.last() == s@[i as int]);
        }
        acc = acc * 10 + d;
        i = i + 1;
    }
    proof {
        assert(s@.subrange(0, len as int) =~= s@);
    }
    Some(acc)
}

/// One appended log line: the timestamp, the separator `": "`, the
/// decimal value, and the newline that ends the line.
pub open spec fn record_line(ts: Seq<char>, v: nat) -> Seq<char> {
    ts + seq![':', ' '] + dec_rep(v) + seq!['\n']
}

/// The start of the last `": "` in `s`, or `-1` if there is none.
pub open spec fn last_sep(s: Seq<char>) -> int
    decreases s.len(),
{
    if s.len() < 2 {
        -1
    } else if s[s.len() - 2] == ':' && s[s.len() - 1] == ' ' {
        s.len() - 2
    } else {
        last_sep(s.drop_last())
    }
}

/// What a reader makes of one line: strip the newline, split at the
/// last `": "`, and read the remainder as a decimal number.
pub open spec fn parse_line(line: Seq<char>) -> Option<(Seq<char>, nat)> {
    if line.len() == 0 || line.last() != '\n' {
        Option::None
    } else {
        let body = line.drop_last();
        let i = last_sep(body);
        if i < 0 {
            Option::None
        } else {
            let num = body.subrange(i + 2, body.len() as int);
            if is_dec_seq(num) {
                Option::Some((body.subrange(0, i), dec_val(num)))
            } else {
                Option::None
            }
        }
    }
}

/// When a separator stands at `i` and none stands after it, `i` is the
/// last separator.
proof fn lemma_last_sep_found(s: Seq<char>, i: int)
    requires
        0 <= i,
        i + 2 <= s.len(),
        s[i] == ':',
        s[i + 1] == ' ',
        forall|j: int| #![trigger s[j]] i < j < s.len() - 1 ==> !(s[j] == ':' && s[j + 1] == ' '),
    ensures
        last_sep(s) == i,
    decreases s.len(),
{
    if s.len() - 2 > i {
        assert(!(s[s.len() - 2] == ':' && s[s.len() - 1] == ' '));
        let t = s.drop_last();
        assert(forall|j: int| #![trigger t[j]] i < j < t.len() - 1 ==> !(t[j] == ':' && t[j + 1] == ' ')) by {
            assert(forall|j: int| #![trigger s[j]] i < j < s.len() - 1 ==> !(s[j] == ':' && s[j + 1] == ' '));
        }
        lemma_last_sep_found(t, i);
    }
}

/// When no separator stands anywhere, there is no last separator.
proof fn lemma_last_sep_none(s: Seq<char>)
    requires
        forall|j: int| #![trigger s[j]] 0 <= j < s.len() - 1 ==> !(s[j] == ':' && s[j + 1] == ' '),
    ensures
        last_sep(s) == -1,
    decreases s.len(),
{
    if s.len() >= 2 {
        let t = s.drop_last();
        assert(forall|j: int| #![trigger t[j]] 0 <= j < t.len() - 1 ==> !(t[j] == ':' && t[j + 1] == ' ')) by {
            assert(forall|j: int| #![trigger s[j]] 0 <= j < s.len() - 1 ==> !(s[j] == ':' && s[j + 1] == ' '));
        }
        lemma_last_sep_none(t);
    }
}

/// The round trip of the line format: every line the writer can
/// produce — for any timestamp, even one that itself contains the
/// separator — reads back as exactly its timestamp and its value.
pub proof fn lemma_record_round_trip(ts: Seq<char>, v: nat)
    ensures
        parse_line(record_line(ts, v)) == Option::Some((ts, v)),
{
    let line = record_line(ts, v);
    let rep = dec_rep(v);
    lemma_dec_rep_val(v);
    let n = ts.len() as int;
    assert(line.len() == n + 2 + rep.len() + 1);
    assert(line.last() == '\n');
    let body = line.drop_last();
    assert(body =~= ts + seq![':', ' '] + rep);
    assert(body[n] == ':' && body[n + 1] == ' ');
    assert(forall|j: int| #![trigger body[j]] n < j < body.len() - 1 ==> !(body[j] == ':' && body[j + 1] == ' '))
        by {
        assert forall|j: int| #![trigger body[j]] n < j < body.len() - 1 implies !(body[j] == ':'
            && body[j + 1] == ' ') by {
            if j == n + 1 {
                assert(body[j] == ' ');
            } else {
                assert(is_digit(rep[j - n - 2]));
                assert(body[j] == rep[j - n - 2]);
                assert(body[j] != ':');
            }
        }
    }
    lemma_last_sep_found(body, n);
    assert(body.subrange(n + 2, body.len() as int) =~= rep);
    assert(body.subrange(0, n) =~= ts);
}

/// Format one record as the writer appends it.
pub fn format_record(timestamp: &str, value: u64) -> (line: String)
    ensures
        line@ == record_line(timestamp@, value as nat),
{
    let mut line = timestamp.to_owned();
    line.append(": ");
    let num = u64_to_string(value);
    line.append(num.as_str());
    line.append("\n");
    proof {
        reveal_strlit(": ");
        reveal_strlit("\n");
        assert(": "@ =~= seq![':', ' ']);
        assert("\n"@ =~= seq!['\n']);
        assert(line@ =~= record_line(timestamp@, value as nat));
    }
    line
}

/// Read one line back: `Some` exactly when the line decomposes as
/// [`parse_line`] says and the value fits the result type.
pub fn parse_record(line: &str) -> (r: Option<(String, u64)>)
    ensures
        r matches Some(p) ==> parse_line(line@) == Option::Some((p.0@, p.1 as nat)),
        (parse_line(line@) matches Some(q) && q.1 <= u64::MAX) ==> r is Some,
{
    let len = line.unicode_len();
    if len == 0 {
        return None;
    }
    if line.get_char(len - 1) != '\n' {
        return None;
    }
    let body_len = len - 1;
    let ghost body = line@.drop_last();
    proof {
        assert(body =~= line@.subrange(0, body_len as int));
    }
    let mut k: usize = 0;
    let mut sep: usize = 0;
    let mut found = false;
    while k + 1 < body_len
        invariant
            0 <= k,
            body_len + 1 == len,
            len == line@.len(),
            body == line@.subrange(0, body_len as int),
            k + 1 >= body_len || k + 1 < len,
            found ==> sep + 2 <= body_len && body[sep as int] == ':' && body[sep as int + 1]
                == ' ',
            found ==> forall|j: int| #![trigger body[j]]
                sep < j < k ==> !(body[j] == ':' && body[j + 1] == ' '),
            !found ==> forall|j: int| #![trigger body[j]] 0 <= j < k ==> !(body[j] == ':' && body[j + 1] == ' '),
            k <= body_len,
        decreases body_len - k,
    {
        let c0 = line.get_char(k);
        let c1 = line.get_char(k + 1);
        if c0 == ':' && c1 == ' ' {
            sep = k;
            found = true;
        }
        k = k + 1;
    }
    if !found {
        proof {
            assert(forall|j: int| #![trigger body[j]] 0 <= j < body.len() - 1 ==> !(body[j] == ':'
                && body[j + 1] == ' '));
            lemma_last_sep_none(body);
        }
        return None;
    }
    proof {
        assert(forall|j: int| #![trigger body[j]]
            (sep as int) < j < body.len() - 1 ==> !(body[j] == ':' && body[j + 1] == ' '));
        lemma_last_sep_found(body, sep as int);
    }
    let ts = line.substring_char(0, sep);
    let num = line.substring_char(sep + 2, body_len);
    proof {
        assert(num@ =~= body.subrange(sep as int + 2, body.len() as int));
        assert(ts@ =~= body.subrange(0, sep as int));
    }
    match parse_u64(num) {
        Some(v) => Some((ts.to_owned(), v)),
        None => None,
    }
}

} // verus!
