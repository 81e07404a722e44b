//! Character-level string utilities: equality, decimal rendering of
//! integers, newline bookkeeping, and JSON string escaping.

use vstd::prelude::*;

verus! {

/// True when no character of `s` is a newline.
pub open spec fn newline_free(s: Seq<char>) -> bool {
    forall|i: int| 0 <= i < s.len() ==> s[i] != '\n'
}

/// How many characters of `s` are newlines.
pub open spec fn newline_count(s: Seq<char>) -> nat
    decreases s.len(),
{
    if s.len() == 0 {
        0
    } else {
        newline_count(s.drop_last()) + (if s.last() == '\n' { 1nat } else { 0nat })
    }
}

pub proof fn lemma_newline_count_concat(a: Seq<char>, b: Seq<char>)
    ensures
        newline_count(a + b) == newline_count(a) + newline_count(b),
    decreases b.len(),
{
    if b.len() == 0 {
        assert(a + b =~= a);
    } else {
        lemma_newline_count_concat(a, b.drop_last());
        assert((a + b).drop_last() =~= a + b.drop_last());
        assert((a + b).last() == b.last());
    }
}

pub proof fn lemma_newline_free_count_zero(s: Seq<char>)
    requires
        newline_free(s),
    ensures
        newline_count(s) == 0,
    decreases s.len(),
{
    if s.len() > 0 {
        assert(newline_free(s.drop_last()));
        lemma_newline_free_count_zero(s.drop_last());
    }
}

/// Character-by-character string equality; `==` on `&str` has no
/// specification, so the library compares views itself.
pub fn str_eq(a: &str, b: &str) -> (r: bool)
    ensures
        r == (a@ == b@),
{
    let an: usize = a.unicode_len();
    let bn: usize = b.unicode_len();
    if an != bn {
        assert(a@ != b@);
        return false;
    }
    let mut i: usize = 0;
    while i < an
        invariant
            an == a@.len() && an == b@.len(),
            0 <= i <= an,
            forall|j: int| 0 <= j < i ==> a@[j] == b@[j],
        decreases an - i,
    {
        if a.get_char(i) != b.get_char(i) {
            assert(a@ != b@);
            return false;
        }
        i = i + 1;
    }
    proof {
        assert(a@ =~= b@);
    }
    true
}

/// The decimal digit character for `d`.
pub open spec fn digit_char(d: nat) -> char {
    if d == 0 {
        '0'
    } else if d == 1 {
        '1'
    } else if d == 2 {
        '2'
    } else if d == 3 {
        '3'
    } else if d == 4 {
        '4'
    } else if d == 5 {
        '5'
    } else if d == 6 {
        '6'
    } else if d == 7 {
        '7'
    } else if d == 8 {
        '8'
    } else {
        '9'
    }
}

/// The usual decimal rendering of `n`, most significant digit first.
pub open spec fn dec_rep(n: nat) -> Seq<char>
    decreases n,
{
    if n < 10 {
        seq![digit_char(n)]
    } else {
        dec_rep(n / 10) + seq![digit_char(n % 10)]
    }
}

fn digit_str(d: u64) -> (r: &'static str)
    requires
        d < 10,
    ensures
        r@ == seq![digit_char(d as nat)],
{
    proof {
        reveal_strlit("0");
        reveal_strlit("1");
        reveal_strlit("2");
        reveal_strlit("3");
        reveal_strlit("4");
        reveal_strlit("5");
        reveal_strlit("6");
        reveal_strlit("7");
        reveal_strlit("8");
        reveal_strlit("9");
    }
    let r: &'static str = match d {
        0 => "0",
        1 => "1",
        2 => "2",
        3 => "3",
        4 => "4",
        5 => "5",
        6 => "6",
        7 => "7",
        8 => "8",
        _ => "9",
    };
    proof {
        assert(r@ =~= seq![digit_char(d as nat)]);
    }
    r
}

/// Renders `n` in decimal.
pub fn u64_to_dec(n: u64) -> (r: String)
    ensures
        r@ == dec_rep(n as nat),
    decreases n,
{
    if n < 10 {
        digit_str(n).to_owned()
    } else {
        let mut s = u64_to_dec(n / 10);
        s.append(digit_str(n % 10));
        s
    }
}

/// The views of a sequence of strings, in order.
pub open spec fn strs_view(ss: Seq<String>) -> Seq<Seq<char>> {
    ss.map_values(|s: String| s@)
}

/// True when some element of `ss` equals `x`.
pub open spec fn contains_str(ss: Seq<Seq<char>>, x: Seq<char>) -> bool {
    exists|i: int| 0 <= i < ss.len() && ss[i] == x
}

/// Whether `x` occurs among `items`, compared character by character.
pub fn contains(items: &Vec<String>, x: &str) -> (r: bool)
    ensures
        r == contains_str(strs_view(items@), x@),
{
    let mut i: usize = 0;
    while i < items.len()
        invariant
            0 <= i <= items@.len(),
            forall|j: int| 0 <= j < i ==> strs_view(items@)[j] != x@,
        decreases items@.len() - i,
    {
        if str_eq(items[i].as_str(), x) {
            assert(strs_view(items@)[i as int] == x@);
            return true;
        }
        i = i + 1;
    }
    false
}

/// The items joined with commas.
pub open spec fn joined(items: Seq<Seq<char>>) -> Seq<char>
    decreases items.len(),
{
    if items.len() == 0 {
        Seq::<char>::empty()
    } else if items.len() == 1 {
        items[0]
    } else {
        joined(items.drop_last()) + ","@ + items.last()
    }
}

/// Joining newline-free items yields newline-free text.
pub proof fn lemma_joined_newline_free(items: Seq<Seq<char>>)
    requires
        forall|i: int| 0 <= i < items.len() ==> newline_free(#[trigger] items[i]),
    ensures
        newline_free(joined(items)),
    decreases items.len(),
{
    reveal_strlit(",");
    if items.len() > 1 {
        lemma_joined_newline_free(items.drop_last());
    }
}

/// The decimal rendering never holds a newline.
pub proof fn lemma_dec_rep_newline_free(n: nat)
    ensures
        newline_free(dec_rep(n)),
    decreases n,
{
    if n >= 10 {
        lemma_dec_rep_newline_free(n / 10);
    }
}

/// The usual decimal rendering of a signed integer.
pub open spec fn int_rep(i: int) -> Seq<char> {
    if i < 0 {
        seq!['-'] + dec_rep((-i) as nat)
    } else {
        dec_rep(i as nat)
    }
}

pub proof fn lemma_int_rep_newline_free(i: int)
    ensures
        newline_free(int_rep(i)),
{
    if i < 0 {
        lemma_dec_rep_newline_free((-i) as nat);
    } else {
        lemma_dec_rep_newline_free(i as nat);
    }
}

/// Renders `i` in decimal, with a leading minus sign when negative.
pub fn i64_to_dec(i: i64) -> (r: String)
    ensures
        r@ == int_rep(i as int),
{
    if i >= 0 {
        u64_to_dec(i as u64)
    } else {
        proof {
            reveal_strlit("-");
        }
        let magnitude: u64 = ((-(i + 1)) as u64) + 1;
        let mut out = "-".to_owned();
        let digits = u64_to_dec(magnitude);
        out.append(digits.as_str());
        proof {
            assert(out@ =~= int_rep(i as int));
        }
        out
    }
}

/// The lower-case hexadecimal digit character for `d`.
pub open spec fn hex_digit(d: nat) -> char {
    if d < 10 {
        digit_char(d)
    } else if d == 10 {
        'a'
    } else if d == 11 {
        'b'
    } else if d == 12 {
        'c'
    } else if d == 13 {
        'd'
    } else if d == 14 {
        'e'
    } else {
        'f'
    }
}

fn hex_str(d: u32) -> (r: &'static str)
    requires
        d < 16,
    ensures
        r@ == seq![hex_digit(d as nat)],
{
    proof {
        reveal_strlit("0");
        reveal_strlit("1");
        reveal_strlit("2");
        reveal_strlit("3");
        reveal_strlit("4");
        reveal_strlit("5");
        reveal_strlit("6");
        reveal_strlit("7");
        reveal_strlit("8");
        reveal_strlit("9");
        reveal_strlit("a");
        reveal_strlit("b");
        reveal_strlit("c");
        reveal_strlit("d");
        reveal_strlit("e");
        reveal_strlit("f");
    }
    let r: &'static str = match d {
        0 => "0",
        1 => "1",
        2 => "2",
        3 => "3",
        4 => "4",
        5 => "5",
        6 => "6",
        7 => "7",
        8 => "8",
        9 => "9",
        10 => "a",
        11 => "b",
        12 => "c",
        13 => "d",
        14 => "e",
        _ => "f",
    };
    proof {
        assert(r@ =~= seq![hex_digit(d as nat)]);
    }
    r
}

/// True when a character must be escaped inside a JSON string: the quote,
/// the backslash, and every control character below U+0020.
pub open spec fn must_escape(c: char) -> bool {
    c == '"' || c == '\\' || (c as u32) < 0x20
}

/// What one character contributes to an escaped JSON string.
pub open spec fn escaped_char(c: char) -> Seq<char> {
    if c == '"' {
        seq!['\\', '"']
    } else if c == '\\' {
        seq!['\\', '\\']
    } else if c == '\u{8}' {
        seq!['\\', 'b']
    } else if c == '\t' {
        seq!['\\', 't']
    } else if c == '\n' {
        seq!['\\', 'n']
    } else if c == '\u{c}' {
        seq!['\\', 'f']
    } else if c == '\r' {
        seq!['\\', 'r']
    } else if (c as u32) < 0x20 {
        seq!['\\', 'u', '0', '0', hex_digit((c as u32 / 16) as nat), hex_digit(
            (c as u32 % 16) as nat,
        )]
    } else {
        seq![c]
    }
}

/// The escaped form of a whole string.
pub open spec fn json_escaped(s: Seq<char>) -> Seq<char>
    decreases s.len(),
{
    if s.len() == 0 {
        Seq::<char>::empty()
    } else {
        json_escaped(s.drop_last()) + escaped_char(s.last())
    }
}

pub proof fn lemma_escaped_char_newline_free(c: char)
    ensures
        newline_free(escaped_char(c)),
{
}

pub proof fn lemma_json_escaped_newline_free(s: Seq<char>)
    ensures
        newline_free(json_escaped(s)),
    decreases s.len(),
{
    if s.len() > 0 {
        lemma_json_escaped_newline_free(s.drop_last());
        lemma_escaped_char_newline_free(s.last());
    }
}

/// Escaping a string that needs no escaping leaves it unchanged.
pub proof fn lemma_json_escaped_plain(s: Seq<char>)
    requires
        forall|i: int| 0 <= i < s.len() ==> !must_escape(s[i]),
    ensures
        json_escaped(s) == s,
    decreases s.len(),
{
    if s.len() == 0 {
        assert(json_escaped(s) =~= s);
    } else {
        lemma_json_escaped_plain(s.drop_last());
        assert(!must_escape(s.last()));
        assert(escaped_char(s.last()) =~= seq![s.last()]);
        assert(s.drop_last() + seq![s.last()] =~= s);
    }
}

/// Escapes `s` for inclusion in a JSON string literal.
pub fn json_escape(s: &str) -> (r: String)
    ensures
        r@ == json_escaped(s@),
{
    let n: usize = s.unicode_len();
    let mut out = String::new();
    let mut run_start: usize = 0;
    let mut i: usize = 0;
    while i < n
        invariant
            n == s@.len(),
            0 <= run_start <= i <= n,
            out@ + s@.subrange(run_start as int, i as int) == json_escaped(s@.take(i as int)),
            forall|j: int| run_start <= j < i ==> !must_escape(s@[j]),
        decreases n - i,
    {
        let c = s.get_char(i);
        proof {
            assert(s@.take(i + 1).drop_last() =~= s@.take(i as int));
            assert(s@.take(i + 1).last() == c);
        }
        if c == '"' || c == '\\' || (c as u32) < 0x20 {
            let run = s.substring_char(run_start, i);
            out.append(run);
            if c == '"' {
                proof {
                    reveal_strlit("\\\"");
                    assert("\\\""@ =~= escaped_char(c));
                }
                out.append("\\\"");
            } else if c == '\\' {
                proof {
                    reveal_strlit("\\\\");
                    assert("\\\\"@ =~= escaped_char(c));
                }
                out.append("\\\\");
            } else if c == '\u{8}' {
                proof {
                    reveal_strlit("\\b");
                    assert("\\b"@ =~= escaped_char(c));
                }
                out.append("\\b");
            } else if c == '\t' {
                proof {
                    reveal_strlit("\\t");
                    assert("\\t"@ =~= escaped_char(c));
                }
                out.append("\\t");
            } else if c == '\n' {
                proof {
                    reveal_strlit("\\n");
                    assert("\\n"@ =~= escaped_char(c));
                }
                out.append("\\n");
            } else if c == '\u{c}' {
                proof {
                    reveal_strlit("\\f");
                    assert("\\f"@ =~= escaped_char(c));
                }
                out.append("\\f");
            } else if c == '\r' {
                proof {
                    reveal_strlit("\\r");
                    assert("\\r"@ =~= escaped_char(c));
                }
                out.append("\\r");
            } else {
                proof {
                    reveal_strlit("\\u00");
                }
                out.append("\\u00");
                out.append(hex_str((c as u32) / 16));
                out.append(hex_str((c as u32) % 16));
                proof {
                    assert("\\u00"@ + seq![hex_digit((c as u32 / 16) as nat)] + seq![
                        hex_digit((c as u32 % 16) as nat),
                    ] =~= escaped_char(c));
                }
            }
            proof {
                assert(out@ =~= json_escaped(s@.take(i as int)) + escaped_char(c));
            }
            run_start = i + 1;
        }
        i = i + 1;
        proof {
            assert(out@ + s@.subrange(run_start as int, i as int) =~= json_escaped(
                s@.take(i as int),
            ));
        }
    }
    let run = s.substring_char(run_start, n);
    out.append(run);
    proof {
        assert(s@.take(n as int) =~= s@);
        assert(out@ =~= json_escaped(s@));
    }
    out
}

} // verus!
