//! Verified text building blocks: decimal rendering of integers, joining a
//! list of strings with a separator, and doubling of embedded quotes.
//!
//! Statement text for the remote store is assembled from these pieces, so
//! each carries an exact contract over character sequences.

use vstd::prelude::*;
use vstd::string::StrSliceExecFns;
use vstd::string::StringExecFns;

verus! {

/// The decimal digit character for `d` (0 through 9).
pub open spec fn digit_char(d: nat) -> char {
    if d == 0 {
        '0'
    } else if d == 1 {
        '1'
    } else if d == 2 {
        '2'
    } else if d == 3 {
        '3'
    } else if d == 4 {
        '4'
    } else if d == 5 {
        '5'
    } else if d == 6 {
        '6'
    } else if d == 7 {
        '7'
    } else if d == 8 {
        '8'
    } else {
        '9'
    }
}

/// The decimal rendering of a natural number, most significant digit first.
pub open spec fn dec_nat(n: nat) -> Seq<char>
    decreases n,
{
    if n < 10 {
        seq![digit_char(n)]
    } else {
        dec_nat(n / 10) + seq![digit_char(n % 10)]
    }
}

/// The decimal rendering of an integer: a leading minus sign for negatives.
pub open spec fn dec_int(v: int) -> Seq<char> {
    if v < 0 {
        seq!['-'] + dec_nat((-v) as nat)
    } else {
        dec_nat(v as nat)
    }
}

fn digit_str(d: u64) -> (r: &'static str)
    requires
        d < 10,
    ensures
        r@ == seq![digit_char(d as nat)],
{
    if d == 0 {
        proof {
            reveal_strlit("0");
            assert("0"@ =~= seq![digit_char(d as nat)]);
        }
        "0"
    } else if d == 1 {
        proof {
            reveal_strlit("1");
            assert("1"@ =~= seq![digit_char(d as nat)]);
        }
        "1"
    } else if d == 2 {
        proof {
            reveal_strlit("2");
            assert("2"@ =~= seq![digit_char(d as nat)]);
        }
        "2"
    } else if d == 3 {
        proof {
            reveal_strlit("3");
            assert("3"@ =~= seq![digit_char(d as nat)]);
        }
        "3"
    } else if d == 4 {
        proof {
            reveal_strlit("4");
            assert("4"@ =~= seq![digit_char(d as nat)]);
        }
        "4"
    } else if d == 5 {
        proof {
            reveal_strlit("5");
            assert("5"@ =~= seq![digit_char(d as nat)]);
        }
        "5"
    } else if d == 6 {
        proof {
            reveal_strlit("6");
            assert("6"@ =~= seq![digit_char(d as nat)]);
        }
        "6"
    } else if d == 7 {
        proof {
            reveal_strlit("7");
            assert("7"@ =~= seq![digit_char(d as nat)]);
        }
        "7"
    } else if d == 8 {
        proof {
            reveal_strlit("8");
            assert("8"@ =~= seq![digit_char(d as nat)]);
        }
        "8"
    } else {
        proof {
            reveal_strlit("9");
            assert("9"@ =~= seq![digit_char(d as nat)]);
        }
        "9"
    }
}

/// Renders an unsigned 64-bit value in decimal.
pub fn u64_dec(n: u64) -> (r: String)
    ensures
        r@ == dec_nat(n as nat),
    decreases n,
{
    if n < 10 {
        digit_str(n).to_owned()
    } else {
        let mut s = u64_dec(n / 10);
        s.append(digit_str(n % 10));
        s
    }
}

/// Renders a signed 64-bit value in decimal.
pub fn i64_dec(v: i64) -> (r: String)
    ensures
        r@ == dec_int(v as int),
{
    if v >= 0 {
        u64_dec(v as u64)
    } else {
        let wide: i128 = v as i128;
        let m: u64 = (-wide) as u64;
        assert(m as nat == (-(v as int)) as nat);
        let mut s = "-".to_owned();
        proof {
            reveal_strlit("-");
            assert("-"@ =~= seq!['-']);
        }
        let digits = u64_dec(m);
        s.append(digits.as_str());
        s
    }
}

/// Joins a sequence of parts with `sep` between neighbours; an empty
/// sequence joins to the empty string.
pub open spec fn join_with(parts: Seq<Seq<char>>, sep: Seq<char>) -> Seq<char>
    decreases parts.len(),
{
    if parts.len() == 0 {
        Seq::empty()
    } else if parts.len() == 1 {
        parts[0]
    } else {
        parts[0] + sep + join_with(parts.drop_first(), sep)
    }
}

fn join_from(parts: &Vec<String>, i: usize, sep: &str) -> (r: String)
    requires
        i <= parts.len(),
    ensures
        r@ == join_with(parts.deep_view().skip(i as int), sep@),
    decreases parts.len() - i,
{
    let ghost tail = parts.deep_view().skip(i as int);
    if i == parts.len() {
        proof {
            assert(tail =~= Seq::<Seq<char>>::empty());
        }
        String::new()
    } else if i + 1 == parts.len() {
        proof {
            assert(tail.len() == 1);
            assert(tail[0] == parts.deep_view()[i as int]);
        }
        parts[i].clone()
    } else {
        let mut s = parts[i].clone();
        s.append(sep);
        let rest = join_from(parts, i + 1, sep);
        s.append(rest.as_str());
        proof {
            assert(tail.drop_first() =~= parts.deep_view().skip(i as int + 1));
            assert(tail[0] == parts.deep_view()[i as int]);
        }
        s
    }
}

/// Joins the strings of `parts` with `sep` between neighbours.
pub fn join_strings(parts: &Vec<String>, sep: &str) -> (r: String)
    ensures
        r@ == join_with(parts.deep_view(), sep@),
{
    let r = join_from(parts, 0, sep);
    proof {
        assert(parts.deep_view().skip(0) =~= parts.deep_view());
    }
    r
}

/// The input with every single-quote character doubled, leaving all other
/// characters as they are.
pub open spec fn escaped(s: Seq<char>) -> Seq<char>
    decreases s.len(),
{
    if s.len() == 0 {
        Seq::empty()
    } else {
        (if s[0] == '\'' {
            seq!['\'', '\'']
        } else {
            seq![s[0]]
        }) + escaped(s.drop_first())
    }
}

proof fn lemma_escaped_concat(a: Seq<char>, b: Seq<char>)
    ensures
        escaped(a + b) == escaped(a) + escaped(b),
    decreases a.len(),
{
    if a.len() == 0 {
        assert(a + b =~= b);
        assert(escaped(a) + escaped(b) =~= escaped(b));
    } else {
        assert((a + b).drop_first() =~= a.drop_first() + b);
        assert((a + b)[0] == a[0]);
        lemma_escaped_concat(a.drop_first(), b);
        assert(escaped(a + b) =~= escaped(a) + escaped(b));
    }
}

proof fn lemma_escaped_clean(s: Seq<char>)
    requires
        forall|k: int| 0 <= k < s.len() ==> s[k] != '\'',
    ensures
        escaped(s) == s,
    decreases s.len(),
{
    if s.len() == 0 {
        assert(escaped(s) =~= s);
    } else {
        lemma_escaped_clean(s.drop_first());
        assert(escaped(s) =~= s);
    }
}

/// Doubles every single-quote character of `s`.
pub fn escape_quotes(s: &str) -> (r: String)
    ensures
        r@ == escaped(s@),
{
    let n = s.unicode_len();
    let mut r = String::new();
    let mut start: usize = 0;
    let mut i: usize = 0;
    while i < n
        invariant
            start <= i <= n,
            n == s@.len(),
            r@ == escaped(s@.take(start as int)),
            forall|k: int| start <= k < i ==> s@[k] != '\'',
        decreases n - i,
    {
        if s.get_char(i) == '\'' {
            r.append(s.substring_char(start, i + 1));
            r.append("'");
            proof {
                reveal_strlit("'");
                let head = s@.take(start as int);
                let clean = s@.subrange(start as int, i as int);
                let q = seq![s@[i as int]];
                lemma_escaped_clean(clean);
                lemma_escaped_concat(clean, q);
                lemma_escaped_concat(head, clean + q);
                assert(q[0] == '\'');
                assert(q.drop_first() =~= Seq::<char>::empty());
                assert(escaped(Seq::<char>::empty()) =~= Seq::<char>::empty());
                assert(escaped(q) =~= seq!['\'', '\'']);
                assert(head + (clean + q) =~= s@.take(i + 1));
                assert(s@.subrange(start as int, i + 1) =~= clean + q);
                assert(r@ =~= escaped(s@.take(i + 1)));
            }
            start = i + 1;
        }
        i += 1;
    }
    r.append(s.substring_char(start, n));
    proof {
        let head = s@.take(start as int);
        let tail = s@.subrange(start as int, n as int);
        lemma_escaped_concat(head, tail);
        lemma_escaped_clean(tail);
        assert(head + tail =~= s@);
        assert(s@.take(n as int) =~= s@);
    }
    r
}

} // verus!
