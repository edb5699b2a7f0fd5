//! Low-level byte-buffer utilities shared by the metadata parser.

use vstd::prelude::*;

verus! {

use vstd::slice::slice_subrange;

/// The ASCII space byte.
pub const SPACE: u8 = 32;
/// The ASCII byte of the digit zero.
pub const DIGIT_ZERO: u8 = 48;

/// A byte sequence with its leading spaces removed.
pub open spec fn trim_front(s: Seq<u8>) -> Seq<u8>
    decreases s.len(),
{
    if s.len() > 0 && s[0] == SPACE {
        trim_front(s.drop_first())
    } else {
        s
    }
}

/// A byte sequence with its trailing spaces removed.
pub open spec fn trim_back(s: Seq<u8>) -> Seq<u8>
    decreases s.len(),
{
    if s.len() > 0 && s.last() == SPACE {
        trim_back(s.drop_last())
    } else {
        s
    }
}

/// A byte sequence with leading and trailing spaces removed.
pub open spec fn trim_spaces(s: Seq<u8>) -> Seq<u8> {
    trim_back(trim_front(s))
}

/// The index of the first occurrence of `d` in `s`, or `s.len()` if `d`
/// does not occur.
pub open spec fn first_occurrence(s: Seq<u8>, d: u8) -> int
    decreases s.len(),
{
    if s.len() == 0 {
        0
    } else if s[0] == d {
        0
    } else {
        1 + first_occurrence(s.drop_first(), d)
    }
}

/// Whether every byte of `s` is an ASCII digit.
pub open spec fn all_digits(s: Seq<u8>) -> bool {
    forall|i: int| 0 <= i < s.len() ==> 48 <= #[trigger] s[i] <= 57
}

/// The numeric value of a sequence of ASCII digits, most significant first.
pub open spec fn digits_value(s: Seq<u8>) -> nat
    decreases s.len(),
{
    if s.len() == 0 {
        0
    } else {
        digits_value(s.drop_last()) * 10 + (s.last() - DIGIT_ZERO) as nat
    }
}

proof fn lemma_trim_front_step(s: Seq<u8>, k: int)
    requires
        0 <= k <= s.len(),
        forall|i: int| 0 <= i < k ==> s[i] == SPACE,
        k == s.len() || s[k] != SPACE,
    ensures
        trim_front(s) == s.subrange(k, s.len() as int),
    decreases k,
{
    if k == 0 {
        assert(trim_front(s) =~= s.subrange(0, s.len() as int)) by {
            if s.len() > 0 && s[0] == SPACE {
            } else {
                assert(s =~= s.subrange(0, s.len() as int));
            }
        }
    } else {
        assert(s.len() > 0 && s[0] == SPACE);
        lemma_trim_front_step(s.drop_first(), k - 1);
        assert(s.drop_first().subrange(k - 1, s.drop_first().len() as int) =~= s.subrange(
            k,
            s.len() as int,
        ));
    }
}

pub proof fn lemma_trim_back_step(s: Seq<u8>, k: int)
    requires
        0 <= k <= s.len(),
        forall|i: int| k <= i < s.len() ==> s[i] == SPACE,
        k == 0 || s[k - 1] != SPACE,
    ensures
        trim_back(s) == s.subrange(0, k),
    decreases s.len() - k,
{
    if k == s.len() {
        if s.len() > 0 && s.last() == SPACE {
            assert(false);
        } else {
            assert(s =~= s.subrange(0, k));
        }
    } else {
        assert(s.len() > 0 && s.last() == SPACE);
        lemma_trim_back_step(s.drop_last(), k);
        assert(s.drop_last().subrange(0, k) =~= s.subrange(0, k));
    }
}

pub proof fn lemma_first_occurrence_at(s: Seq<u8>, d: u8, k: int)
    requires
        0 <= k <= s.len(),
        forall|i: int| 0 <= i < k ==> s[i] != d,
        k == s.len() || s[k] == d,
    ensures
        first_occurrence(s, d) == k,
    decreases k,
{
    if k == 0 {
    } else {
        lemma_first_occurrence_at(s.drop_first(), d, k - 1);
    }
}

/// Removes leading and trailing spaces from a byte buffer.
pub fn trim_whitespaces(buf: &[u8]) -> (r: &[u8])
    ensures
        r@ == trim_spaces(buf@),
{
    let mut start: usize = 0;

    while start < buf.len() && buf[start] == SPACE
        invariant
            start <= buf.len(),
            forall|i: int| 0 <= i < start ==> buf@[i] == SPACE,
        decreases buf.len() - start,
    {
        start += 1;
    }

    proof {
        lemma_trim_front_step(buf@, start as int);
    }

    if start >= buf.len() {
        let r = slice_subrange(buf, 0, 0);
        proof {
            lemma_trim_back_step(trim_front(buf@), 0);
        }
        return r;
    }

    let mut end: usize = buf.len();

    while end > start && buf[end - 1] == SPACE
        invariant
            start <= end <= buf.len(),
            forall|i: int| end <= i < buf.len() ==> buf@[i] == SPACE,
        decreases end,
    {
        end -= 1;
    }

    proof {
        let f = trim_front(buf@);
        assert(f == buf@.subrange(start as int, buf@.len() as int));
        lemma_trim_back_step(f, end - start);
        assert(f.subrange(0, end - start) =~= buf@.subrange(start as int, end as int));
    }

    slice_subrange(buf, start, end)
}

/// Splits a byte buffer at the first occurrence of `delim`.
///
/// The delimiter itself belongs to neither half. When the delimiter does
/// not occur, the whole buffer is the first half and the second half is
/// empty.
pub fn split_once(buf: &[u8], delim: u8) -> (r: (&[u8], &[u8]))
    ensures
        r.0@ == buf@.subrange(0, first_occurrence(buf@, delim)),
        r.1@ == if first_occurrence(buf@, delim) < buf@.len() {
            buf@.subrange(first_occurrence(buf@, delim) + 1, buf@.len() as int)
        } else {
            Seq::<u8>::empty()
        },
{
    let mut cursor: usize = 0;

    while cursor < buf.len()
        invariant
            cursor <= buf.len(),
            forall|i: int| 0 <= i < cursor ==> buf@[i] != delim,
        decreases buf.len() - cursor,
    {
        if buf[cursor] == delim {
            proof {
                lemma_first_occurrence_at(buf@, delim, cursor as int);
            }
            let start = cursor + 1;

            if start >= buf.len() {
                return (slice_subrange(buf, 0, cursor), slice_subrange(buf, 0, 0));
            } else {
                return (
                    slice_subrange(buf, 0, cursor),
                    slice_subrange(buf, start, buf.len()),
                );
            }
        } else {
            cursor += 1;
        }
    }

    proof {
        lemma_first_occurrence_at(buf@, delim, buf@.len() as int);
        assert(buf@.subrange(0, buf@.len() as int) =~= buf@);
    }
    (buf, slice_subrange(buf, 0, 0))
}

/// A digit-string prefix never denotes more than the whole string.
proof fn lemma_digits_prefix_le(s: Seq<u8>, i: int)
    requires
        all_digits(s),
        0 <= i <= s.len(),
    ensures
        digits_value(s.subrange(0, i)) <= digits_value(s),
    decreases s.len() - i,
{
    if i < s.len() {
        lemma_digits_prefix_le(s, i + 1);
        let shorter = s.subrange(0, i);
        let longer = s.subrange(0, i + 1);
        assert(longer.drop_last() =~= shorter);
        assert(digits_value(longer) == digits_value(shorter) * 10 + (longer.last()
            - DIGIT_ZERO) as nat);
    } else {
        assert(s.subrange(0, s.len() as int) =~= s);
    }
}

/// The numeric value of a buffer of ASCII digits, most significant digit
/// first. The value must fit the machine's integers.
pub fn convert_number(buf: &[u8]) -> (r: usize)
    requires
        all_digits(buf@),
        digits_value(buf@) <= usize::MAX,
    ensures
        r == digits_value(buf@),
{
    let mut result: usize = 0;
    let mut i: usize = 0;

    proof {
        assert(buf@.subrange(0, 0) =~= Seq::<u8>::empty());
    }

    while i < buf.len()
        invariant
            i <= buf.len(),
            all_digits(buf@),
            digits_value(buf@) <= usize::MAX,
            result == digits_value(buf@.subrange(0, i as int)),
        decreases buf.len() - i,
    {
        proof {
            let pre = buf@.subrange(0, i as int);
            let next = buf@.subrange(0, i + 1);
            assert(next.drop_last() =~= pre);
            assert(digits_value(next) == digits_value(pre) * 10 + (buf@[i as int]
                - DIGIT_ZERO) as nat);
            lemma_digits_prefix_le(buf@, i + 1);
        }
        result = result * 10 + (buf[i] - DIGIT_ZERO) as usize;
        i += 1;
    }

    proof {
        assert(buf@.subrange(0, buf@.len() as int) =~= buf@);
    }
    result
}

/// Whether two byte buffers hold the same bytes.
pub fn bytes_equal(a: &[u8], b: &[u8]) -> (r: bool)
    ensures
        r == (a@ == b@),
{
    if a.len() != b.len() {
        return false;
    }

    let mut i: usize = 0;

    while i < a.len()
        invariant
            i <= a.len(),
            a@.len() == b@.len(),
            forall|j: int| 0 <= j < i ==> a@[j] == b@[j],
        decreases a.len() - i,
    {
        if a[i] != b[i] {
            return false;
        }
        i += 1;
    }

    proof {
        assert(a@ =~= b@);
    }
    true
}

/// Whether a byte buffer consists of ASCII digits only. The empty buffer
/// counts as numerical.
pub fn is_numerical(buf: &[u8]) -> (r: bool)
    ensures
        r == all_digits(buf@),
{
    let mut i: usize = 0;

    while i < buf.len()
        invariant
            i <= buf.len(),
            forall|j: int| 0 <= j < i ==> 48 <= #[trigger] buf@[j] <= 57,
        decreases buf.len() - i,
    {
        if buf[i] < 48 || buf[i] > 57 {
            return false;
        }
        i += 1;
    }

    true
}

} // verus!
