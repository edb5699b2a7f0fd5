//! Character-level text utilities: ASCII classification, identifier
//! slugs, and decimal formatting of numbers into output buffers.

use vstd::prelude::*;

verus! {

/// Whether `c` is an ASCII letter or digit.
pub open spec fn is_ascii_alnum(c: char) -> bool {
    ('0' <= c && c <= '9') || ('a' <= c && c <= 'z') || ('A' <= c && c <= 'Z')
}

/// `c` with an ASCII upper-case letter mapped to lower case.
pub open spec fn lower_char(c: char) -> char {
    if 'A' <= c && c <= 'Z' {
        (((c as u8) + 32) as u8) as char
    } else {
        c
    }
}

/// Whether `c` is an ASCII letter or digit (executable form).
pub fn ascii_alnum(c: char) -> (r: bool)
    ensures
        r == is_ascii_alnum(c),
{
    ('0' <= c && c <= '9') || ('a' <= c && c <= 'z') || ('A' <= c && c <= 'Z')
}

/// Maps an ASCII upper-case letter to lower case, leaving every other
/// character unchanged.
pub fn char_to_lower(c: char) -> (r: char)
    ensures
        r == lower_char(c),
{
    if 'A' <= c && c <= 'Z' {
        (((c as u8) + 32) as u8) as char
    } else {
        c
    }
}

/// The anchor derived from rendered text, starting at position `i` with
/// `prev_dash` recording whether the previously inspected character was
/// mapped to a dash: ASCII letters and digits are kept in lower case,
/// spaces become single dashes, consecutive dashes collapse, and every
/// other character is dropped.
pub open spec fn make_id_from(s: Seq<char>, i: int, prev_dash: bool) -> Seq<char>
    decreases s.len() - i,
{
    if i < 0 || i >= s.len() {
        Seq::empty()
    } else {
        let c = s[i];
        if is_ascii_alnum(c) {
            seq![lower_char(c)] + make_id_from(s, i + 1, false)
        } else if c == ' ' {
            if prev_dash {
                make_id_from(s, i + 1, true)
            } else {
                seq!['-'] + make_id_from(s, i + 1, true)
            }
        } else {
            make_id_from(s, i + 1, prev_dash)
        }
    }
}

/// The anchor identifier derived from rendered text.
pub open spec fn make_id_spec(s: Seq<char>) -> Seq<char> {
    make_id_from(s, 0, false)
}

/// Derives an anchor identifier from rendered text: lower-cases ASCII
/// letters, keeps digits, maps runs of other characters to single
/// dashes.
pub fn make_id(id: &Vec<char>) -> (r: Vec<char>)
    ensures
        r@ == make_id_spec(id@),
{
    let mut out: Vec<char> = Vec::new();
    let mut prev_dash = false;
    let mut i: usize = 0;

    while i < id.len()
        invariant
            i <= id.len(),
            out@ + make_id_from(id@, i as int, prev_dash) == make_id_spec(id@),
        decreases id.len() - i,
    {
        let c = id[i];
        if ascii_alnum(c) {
            out.push(char_to_lower(c));
            prev_dash = false;
        } else if c == ' ' {
            if !prev_dash {
                out.push('-');
            }
            prev_dash = true;
        }
        i += 1;
    }

    out
}

/// Appends every character of `s` to `out`.
pub fn push_str(out: &mut Vec<char>, s: &str)
    ensures
        final(out)@ == old(out)@ + s@,
{
    let n = s.unicode_len();
    let mut i: usize = 0;

    while i < n
        invariant
            i <= n,
            n == s@.len(),
            out@ == old(out)@ + s@.subrange(0, i as int),
        decreases n - i,
    {
        out.push(s.get_char(i));
        proof {
            assert(s@.subrange(0, i + 1) =~= s@.subrange(0, i as int) + seq![s@[i as int]]);
        }
        i += 1;
    }

    proof {
        assert(s@.subrange(0, s@.len() as int) =~= s@);
    }
}

/// Whether two string slices hold the same characters.
pub fn str_equal(a: &str, b: &str) -> (r: bool)
    ensures
        r == (a@ == b@),
{
    let n = a.unicode_len();
    if n != b.unicode_len() {
        return false;
    }
    let mut i: usize = 0;

    while i < n
        invariant
            i <= n,
            n == a@.len(),
            n == b@.len(),
            forall|j: int| 0 <= j < i ==> a@[j] == b@[j],
        decreases n - i,
    {
        if a.get_char(i) != b.get_char(i) {
            return false;
        }
        i += 1;
    }

    proof {
        assert(a@ =~= b@);
    }
    true
}

/// The characters of `s` as a vector.
pub fn to_chars(s: &str) -> (r: Vec<char>)
    ensures
        r@ == s@,
{
    let mut out: Vec<char> = Vec::new();
    push_str(&mut out, s);
    out
}

/// The decimal digit character for a value below ten.
pub open spec fn digit_char(d: nat) -> char {
    ((48 + d) as u8) as char
}

/// The decimal representation of `n`, most significant digit first,
/// without leading zeros (zero itself is a single digit).
pub open spec fn dec_rep(n: nat) -> Seq<char>
    decreases n,
{
    if n < 10 {
        seq![digit_char(n)]
    } else {
        dec_rep(n / 10) + seq![digit_char(n % 10)]
    }
}

/// Appends the decimal representation of `n` to `out`.
pub fn push_number(out: &mut Vec<char>, n: u64)
    ensures
        final(out)@ == old(out)@ + dec_rep(n as nat),
    decreases n,
{
    if n < 10 {
        out.push((48 + n as u8) as char);
    } else {
        push_number(out, n / 10);
        out.push((48 + (n % 10) as u8) as char);
    }
}

proof fn lemma_dec_rep_len(n: nat, k: nat)
    requires
        n < vstd::arithmetic::power::pow(10, k),
        k >= 1,
    ensures
        dec_rep(n).len() <= k,
    decreases k,
{
    if n < 10 {
    } else {
        assert(k >= 2) by {
            if k == 1 {
                assert(vstd::arithmetic::power::pow(10, 1) == 10) by {
                    vstd::arithmetic::power::lemma_pow1(10);
                }
            }
        }
        assert(vstd::arithmetic::power::pow(10, k) == 10 * vstd::arithmetic::power::pow(
            10,
            (k - 1) as nat,
        )) by {
            vstd::arithmetic::power::lemma_pow1(10);
            vstd::arithmetic::power::lemma_pow_adds(10, 1, (k - 1) as nat);
        }
        lemma_dec_rep_len(n / 10, (k - 1) as nat);
    }
}

proof fn lemma_dec_rep_pos(n: nat)
    ensures
        dec_rep(n).len() >= 1,
    decreases n,
{
    if n >= 10 {
        lemma_dec_rep_pos(n / 10);
    }
}

proof fn lemma_dec_rep_lower(n: nat, k: nat)
    requires
        n >= vstd::arithmetic::power::pow(10, k),
    ensures
        dec_rep(n).len() >= k + 1,
    decreases k,
{
    if k == 0 {
        lemma_dec_rep_pos(n);
    } else {
        assert(vstd::arithmetic::power::pow(10, k) == 10 * vstd::arithmetic::power::pow(
            10,
            (k - 1) as nat,
        )) by {
            vstd::arithmetic::power::lemma_pow1(10);
            vstd::arithmetic::power::lemma_pow_adds(10, 1, (k - 1) as nat);
        }
        assert(vstd::arithmetic::power::pow(10, (k - 1) as nat) >= 1) by {
            vstd::arithmetic::power::lemma_pow_positive(10, (k - 1) as nat);
        }
        lemma_dec_rep_lower(n / 10, (k - 1) as nat);
    }
}

/// A sequence of `k` zero digits.
pub open spec fn zeros(k: int) -> Seq<char>
    decreases k,
{
    if k <= 0 {
        Seq::empty()
    } else {
        seq!['0'] + zeros(k - 1)
    }
}

/// The decimal representation of `n` left-padded with zeros to at least
/// `w` characters.
pub open spec fn dec_pad(n: nat, w: int) -> Seq<char> {
    zeros(w - dec_rep(n).len()) + dec_rep(n)
}

/// Appends `n` as at least two decimal digits, zero-padded.
pub fn push_pad2(out: &mut Vec<char>, n: u8)
    ensures
        final(out)@ == old(out)@ + dec_pad(n as nat, 2),
{
    if n > 99 {
        proof {
            assert(vstd::arithmetic::power::pow(10, 2) == 100) by {
                reveal_with_fuel(vstd::arithmetic::power::pow, 3);
            }
            lemma_dec_rep_lower(n as nat, 2);
            assert(zeros(2 - dec_rep(n as nat).len()) =~= Seq::<char>::empty());
        }
        push_number(out, n as u64);
        return;
    }
    if n < 10 {
        out.push('0');
        proof {
            reveal_with_fuel(zeros, 2);
            assert(zeros(1) =~= seq!['0']);
        }
    } else {
        proof {
            reveal_with_fuel(vstd::arithmetic::power::pow, 3);
            assert(vstd::arithmetic::power::pow(10, 2) == 100);
            assert(vstd::arithmetic::power::pow(10, 1) == 10);
            lemma_dec_rep_len(n as nat, 2);
            lemma_dec_rep_lower(n as nat, 1);
            assert(zeros(0) =~= Seq::<char>::empty());
        }
    }
    push_number(out, n as u64);
}

/// Appends `n` as at least four decimal digits, zero-padded.
pub fn push_pad4(out: &mut Vec<char>, n: u16)
    ensures
        final(out)@ == old(out)@ + dec_pad(n as nat, 4),
{
    if n > 9999 {
        proof {
            assert(vstd::arithmetic::power::pow(10, 4) == 10000) by {
                reveal_with_fuel(vstd::arithmetic::power::pow, 5);
            }
            lemma_dec_rep_lower(n as nat, 4);
            assert(zeros(4 - dec_rep(n as nat).len()) =~= Seq::<char>::empty());
        }
        push_number(out, n as u64);
        return;
    }
    proof {
        reveal_with_fuel(vstd::arithmetic::power::pow, 5);
        assert(vstd::arithmetic::power::pow(10, 1) == 10);
        assert(vstd::arithmetic::power::pow(10, 2) == 100);
        assert(vstd::arithmetic::power::pow(10, 3) == 1000);
        assert(vstd::arithmetic::power::pow(10, 4) == 10000);
    }
    if n < 10 {
        out.push('0');
        out.push('0');
        out.push('0');
        proof {
            reveal_with_fuel(zeros, 4);
            assert(zeros(3) =~= seq!['0', '0', '0']);
        }
    } else if n < 100 {
        out.push('0');
        out.push('0');
        proof {
            lemma_dec_rep_len(n as nat, 2);
            lemma_dec_rep_lower(n as nat, 1);
            reveal_with_fuel(zeros, 3);
            assert(zeros(2) =~= seq!['0', '0']);
        }
    } else if n < 1000 {
        out.push('0');
        proof {
            lemma_dec_rep_len(n as nat, 3);
            lemma_dec_rep_lower(n as nat, 2);
            assert(zeros(1) =~= seq!['0']);
        }
    } else {
        proof {
            lemma_dec_rep_len(n as nat, 4);
            lemma_dec_rep_lower(n as nat, 3);
            assert(zeros(0) =~= Seq::<char>::empty());
        }
    }
    push_number(out, n as u64);
}

} // verus!
