//! String helpers shared by the device and registry modules: lexicographic
//! comparison of character sequences and decimal rendering of integers.

use vstd::prelude::*;
use vstd::string::StringExecFns;

verus! {

/// Strict lexicographic order on character sequences, comparing code points.
/// A proper prefix sorts before its extensions; this is the order Rust's
/// `Ord` on `String` induces, since UTF-8 byte order follows code points.
pub open spec fn lex_lt(a: Seq<char>, b: Seq<char>) -> bool
    decreases a.len(),
{
    if b.len() == 0 {
        false
    } else if a.len() == 0 {
        true
    } else if a[0] != b[0] {
        a[0] < b[0]
    } else {
        lex_lt(a.drop_first(), b.drop_first())
    }
}

/// Dropping an equal prefix of both sequences does not change their order.
pub proof fn lemma_lex_lt_skip(a: Seq<char>, b: Seq<char>, i: int)
    requires
        0 <= i <= a.len(),
        i <= b.len(),
        forall|j: int| 0 <= j < i ==> a[j] == b[j],
    ensures
        lex_lt(a, b) == lex_lt(a.skip(i), b.skip(i)),
    decreases i,
{
    if i == 0 {
        assert(a.skip(0) =~= a);
        assert(b.skip(0) =~= b);
    } else {
        assert(a[0] == b[0]);
        lemma_lex_lt_skip(a.drop_first(), b.drop_first(), i - 1);
        assert(a.drop_first().skip(i - 1) =~= a.skip(i));
        assert(b.drop_first().skip(i - 1) =~= b.skip(i));
    }
}

/// `lex_lt` is irreflexive.
pub proof fn lemma_lex_lt_irreflexive(a: Seq<char>)
    ensures
        !lex_lt(a, a),
    decreases a.len(),
{
    if a.len() > 0 {
        lemma_lex_lt_irreflexive(a.drop_first());
    }
}

/// `lex_lt` is connected: distinct sequences compare one way or the other.
pub proof fn lemma_lex_lt_connected(a: Seq<char>, b: Seq<char>)
    requires
        a != b,
    ensures
        lex_lt(a, b) || lex_lt(b, a),
    decreases a.len(),
{
    if a.len() == 0 && b.len() == 0 {
        assert(a =~= b);
    } else if a.len() == 0 || b.len() == 0 {
    } else if a[0] != b[0] {
    } else {
        if a.drop_first() == b.drop_first() {
            assert(a.drop_first().len() == b.drop_first().len());
            assert(a.len() == b.len());
            assert forall|i: int| 0 <= i < a.len() implies a[i] == b[i] by {
                if i > 0 {
                    assert(a[i] == a.drop_first()[i - 1]);
                    assert(b[i] == b.drop_first()[i - 1]);
                }
            }
            assert(a =~= b);
        }
        lemma_lex_lt_connected(a.drop_first(), b.drop_first());
    }
}

/// `lex_lt` is transitive.
pub proof fn lemma_lex_lt_transitive(a: Seq<char>, b: Seq<char>, c: Seq<char>)
    requires
        lex_lt(a, b),
        lex_lt(b, c),
    ensures
        lex_lt(a, c),
    decreases a.len(),
{
    if c.len() == 0 {
    } else if a.len() == 0 {
    } else {
        if b.len() == 0 {
        } else {
            if a[0] == b[0] && b[0] == c[0] {
                lemma_lex_lt_transitive(a.drop_first(), b.drop_first(), c.drop_first());
            }
        }
    }
}

/// `lex_lt` is asymmetric.
pub proof fn lemma_lex_lt_asymmetric(a: Seq<char>, b: Seq<char>)
    requires
        lex_lt(a, b),
    ensures
        !lex_lt(b, a),
{
    if lex_lt(b, a) {
        lemma_lex_lt_transitive(a, b, a);
        lemma_lex_lt_irreflexive(a);
    }
}

/// Decides `lex_lt` on the views of two string slices.
pub fn str_lt(a: &str, b: &str) -> (r: bool)
    ensures
        r == lex_lt(a@, b@),
{
    let alen: usize = a.unicode_len();
    let blen: usize = b.unicode_len();
    let n: usize = if alen < blen {
        alen
    } else {
        blen
    };
    let mut i: usize = 0;
    while i < n
        invariant
            n <= a@.len(),
            n <= b@.len(),
            alen == a@.len(),
            blen == b@.len(),
            n == if alen < blen {
                alen
            } else {
                blen
            },
            0 <= i <= n,
            forall|j: int| 0 <= j < i ==> a@[j] == b@[j],
        decreases n - i,
    {
        let ca: char = a.get_char(i);
        let cb: char = b.get_char(i);
        if ca != cb {
            proof {
                lemma_lex_lt_skip(a@, b@, i as int);
            }
            return ca < cb;
        }
        i = i + 1;
    }
    proof {
        lemma_lex_lt_skip(a@, b@, n as int);
    }
    alen < blen
}

/// The character for a single decimal digit.
pub open spec fn spec_digit(d: int) -> char {
    if d == 0 {
        '0'
    } else if d == 1 {
        '1'
    } else if d == 2 {
        '2'
    } else if d == 3 {
        '3'
    } else if d == 4 {
        '4'
    } else if d == 5 {
        '5'
    } else if d == 6 {
        '6'
    } else if d == 7 {
        '7'
    } else if d == 8 {
        '8'
    } else {
        '9'
    }
}

/// The decimal rendering of a non-negative integer, most significant digit
/// first, with no leading zeros (`0` renders as "0").
pub open spec fn spec_nat_str(n: nat) -> Seq<char>
    decreases n,
{
    if n < 10 {
        seq![spec_digit(n as int)]
    } else {
        spec_nat_str((n / 10) as nat).push(spec_digit((n % 10) as int))
    }
}

/// The decimal rendering of an integer: a leading '-' for negative values.
pub open spec fn spec_int_str(n: int) -> Seq<char> {
    if n < 0 {
        seq!['-'] + spec_nat_str((-n) as nat)
    } else {
        spec_nat_str(n as nat)
    }
}

/// A one-character string slice for a decimal digit.
fn digit_str(d: u64) -> (r: &'static str)
    requires
        d < 10,
    ensures
        r@ =~= seq![spec_digit(d as int)],
{
    proof {
        reveal_strlit("0");
        reveal_strlit("1");
        reveal_strlit("2");
        reveal_strlit("3");
        reveal_strlit("4");
        reveal_strlit("5");
        reveal_strlit("6");
        reveal_strlit("7");
        reveal_strlit("8");
        reveal_strlit("9");
    }
    if d == 0 {
        "0"
    } else if d == 1 {
        "1"
    } else if d == 2 {
        "2"
    } else if d == 3 {
        "3"
    } else if d == 4 {
        "4"
    } else if d == 5 {
        "5"
    } else if d == 6 {
        "6"
    } else if d == 7 {
        "7"
    } else if d == 8 {
        "8"
    } else {
        "9"
    }
}

/// Renders an unsigned integer in decimal.
pub fn u64_str(n: u64) -> (r: String)
    ensures
        r@ == spec_nat_str(n as nat),
{
    let mut m: u64 = n;
    let mut acc: String = String::new();
    while m >= 10
        invariant
            spec_nat_str(n as nat) == spec_nat_str(m as nat) + acc@,
        decreases m,
    {
        let d: u64 = m % 10;
        let rest: String = acc;
        acc = String::from_str(digit_str(d)).concat(rest.as_str());
        proof {
            assert(spec_nat_str(m as nat) == spec_nat_str((m / 10) as nat).push(
                spec_digit((m % 10) as int),
            ));
            assert(spec_nat_str((m / 10) as nat).push(spec_digit((m % 10) as int)) + rest@
                =~= spec_nat_str((m / 10) as nat) + acc@);
        }
        m = m / 10;
    }
    let out: String = String::from_str(digit_str(m)).concat(acc.as_str());
    proof {
        assert(seq![spec_digit(m as int)] + acc@ =~= spec_nat_str(m as nat) + acc@);
    }
    out
}

/// Renders a signed integer in decimal, with a leading '-' when negative.
pub fn i64_str(n: i64) -> (r: String)
    ensures
        r@ == spec_int_str(n as int),
{
    if n >= 0 {
        u64_str(n as u64)
    } else {
        let wide: i128 = n as i128;
        let mag: u64 = (-wide) as u64;
        let digits: String = u64_str(mag);
        let out: String = String::from_str("-").concat(digits.as_str());
        proof {
            reveal_strlit("-");
            assert(out@ =~= seq!['-'] + spec_nat_str(mag as nat));
        }
        out
    }
}

} // verus!
