//! Text helpers: repetition, character-limited previews, byte-level
//! comparison and column padding.

use vstd::prelude::*;
use vstd::string::StringSliceAdditionalSpecFns;
use vstd::utf8::*;
use vstd::std_specs::iter::IteratorSpec;

use crate::decimal::{decimal, push_decimal};

verus! {

broadcast use vstd::string::group_string_axioms;

/// `s` written `n` times in a row.
pub open spec fn repeat_seq(s: Seq<char>, n: nat) -> Seq<char>
    decreases n,
{
    if n == 0 {
        Seq::empty()
    } else {
        repeat_seq(s, (n - 1) as nat) + s
    }
}

/// `n` spaces.
pub open spec fn spaces(n: nat) -> Seq<char> {
    Seq::new(n, |i: int| ' ')
}

/// Returns `snippet` written `n` times in a row.
pub fn repeated(snippet: &str, n: usize) -> (out: String)
    ensures
        out@ == repeat_seq(snippet@, n as nat),
{
    let mut out = String::new();
    let mut i: usize = 0;
    while i < n
        invariant
            i <= n,
            out@ == repeat_seq(snippet@, i as nat),
        decreases n - i,
    {
        out.append(snippet);
        i = i + 1;
    }
    out
}

/// Law: writing `s` `a` times and then `b` times is writing it `a + b` times.
pub proof fn lemma_repeat_add(s: Seq<char>, a: nat, b: nat)
    ensures
        repeat_seq(s, a + b) == repeat_seq(s, a) + repeat_seq(s, b),
    decreases b,
{
    if b == 0 {
        assert(repeat_seq(s, a) + repeat_seq(s, 0) =~= repeat_seq(s, a));
    } else {
        lemma_repeat_add(s, a, (b - 1) as nat);
        assert(repeat_seq(s, a + b) == repeat_seq(s, (a + b - 1) as nat) + s);
        assert((repeat_seq(s, a) + repeat_seq(s, (b - 1) as nat)) + s =~= repeat_seq(s, a) + (
        repeat_seq(s, (b - 1) as nat) + s));
    }
}

/// Law: `n` copies of `s` hold `n` times as many characters as `s`.
pub proof fn lemma_repeat_len(s: Seq<char>, n: nat)
    ensures
        repeat_seq(s, n).len() == n * s.len(),
    decreases n,
{
    if n > 0 {
        lemma_repeat_len(s, (n - 1) as nat);
        assert(n * s.len() == (n - 1) * s.len() + s.len()) by (nonlinear_arith)
            requires n > 0;
    } else {
        assert(0 * s.len() == 0);
    }
}

/// Appends `n` spaces to `out`.
fn push_spaces(out: &mut String, n: usize)
    ensures
        final(out)@ == old(out)@ + spaces(n as nat),
{
    let ghost start = out@;
    let mut i: usize = 0;
    while i < n
        invariant
            i <= n,
            out@ == start + spaces(i as nat),
        decreases n - i,
    {
        proof { reveal_strlit(" "); }
        out.append(" ");
        assert(spaces((i + 1) as nat) =~= spaces(i as nat).push(' '));
        i = i + 1;
    }
}

/// The number of characters of `text`, counted up to `limit`: the result is
/// `min(limit, text@.len())`.
pub fn count_chars_up_to(text: &str, limit: usize) -> (n: usize)
    ensures
        n as int == if text@.len() < limit { text@.len() as int } else { limit as int },
{
    let mut chars = text.chars();
    let mut n: usize = 0;
    while n < limit
        invariant
            n <= limit,
            n <= text@.len(),
            chars.remaining() == text@.skip(n as int),
            chars.obeys_prophetic_iter_laws(),
        ensures
            n as int == if text@.len() < limit { text@.len() as int } else { limit as int },
        decreases limit - n,
    {
        match chars.next() {
            Some(_) => {
                n = n + 1;
            },
            None => {
                break;
            },
        }
    }
    n
}

/// The first `max_chars` characters of `text` (all of it when it is shorter).
pub fn preview_for_log(text: &str, max_chars: usize) -> (out: String)
    ensures
        out@ == text@.take(if text@.len() < max_chars { text@.len() as int } else { max_chars as int }),
{
    let n = count_chars_up_to(text, max_chars);
    text.substring_char(0, n).to_owned()
}

/// Where two byte strings first differ: `Some(i)` when `i` is the first index
/// at which they hold different bytes, or, when one is a proper prefix of the
/// other, the length of the shorter; `None` when they are equal.
pub open spec fn is_first_difference(a: Seq<u8>, b: Seq<u8>, r: Option<usize>) -> bool {
    match r {
        Some(i) => {
            &&& i <= a.len()
            &&& i <= b.len()
            &&& forall|j: int| 0 <= j < i ==> a[j] == b[j]
            &&& (i < a.len() && i < b.len() ==> a[i as int] != b[i as int])
            &&& (i == a.len() || i == b.len() ==> a.len() != b.len())
        },
        None => a == b,
    }
}

/// The index of the first byte at which the UTF-8 forms of `left` and `right`
/// differ; when one is a prefix of the other, the length of the shorter; `None`
/// when they are equal.
pub fn first_diff_byte_index(left: &str, right: &str) -> (r: Option<usize>)
    ensures
        is_first_difference(left.spec_bytes(), right.spec_bytes(), r),
{
    let left_bytes = left.as_bytes();
    let right_bytes = right.as_bytes();
    let min_len = if left_bytes.len() < right_bytes.len() {
        left_bytes.len()
    } else {
        right_bytes.len()
    };
    let mut index: usize = 0;
    while index < min_len
        invariant
            index <= min_len,
            min_len <= left_bytes@.len(),
            min_len <= right_bytes@.len(),
            min_len == left_bytes@.len() || min_len == right_bytes@.len(),
            left_bytes@ == left.spec_bytes(),
            right_bytes@ == right.spec_bytes(),
            forall|j: int| 0 <= j < index ==> left_bytes@[j] == right_bytes@[j],
        decreases min_len - index,
    {
        if left_bytes[index] != right_bytes[index] {
            return Some(index);
        }
        index = index + 1;
    }
    if left_bytes.len() == right_bytes.len() {
        assert(left_bytes@ =~= right_bytes@);
        None
    } else {
        Some(min_len)
    }
}

/// Two texts are equal exactly when their UTF-8 forms are.
pub proof fn lemma_bytes_equal_iff_text_equal(a: Seq<char>, b: Seq<char>)
    ensures
        (encode_utf8(a) == encode_utf8(b)) <==> (a == b),
{
    encode_utf8_decode_utf8(a);
    encode_utf8_decode_utf8(b);
}

/// Law: `first_diff_byte_index` finds no difference exactly when the two
/// texts are equal.
pub proof fn lemma_no_difference_iff_equal(left: &str, right: &str, r: Option<usize>)
    requires
        is_first_difference(left.spec_bytes(), right.spec_bytes(), r),
    ensures
        r is None <==> left@ == right@,
{
    lemma_bytes_equal_iff_text_equal(left@, right@);
    if r is Some {
        let i = r->0;
        if i < left.spec_bytes().len() && i < right.spec_bytes().len() {
            assert(left.spec_bytes()[i as int] != right.spec_bytes()[i as int]);
        }
    }
}

/// At most one answer meets `is_first_difference`.
pub proof fn lemma_first_difference_unique(a: Seq<u8>, b: Seq<u8>, r1: Option<usize>, r2: Option<
    usize,
>)
    requires
        is_first_difference(a, b, r1),
        is_first_difference(a, b, r2),
    ensures
        r1 == r2,
{
    match (r1, r2) {
        (Some(i), Some(j)) => {
            if i < j {
                assert(a[i as int] == b[i as int]);
            } else if j < i {
                assert(a[j as int] == b[j as int]);
            }
        },
        (Some(i), None) => {
            if i < a.len() && i < b.len() {
                assert(a[i as int] == b[i as int]);
            }
        },
        (None, Some(j)) => {
            if j < a.len() && j < b.len() {
                assert(a[j as int] == b[j as int]);
            }
        },
        (None, None) => {},
    }
}

/// The UTF-8 form of two texts written one after the other is the UTF-8
/// form of the first followed by that of the second.
pub proof fn lemma_encode_utf8_concat(p: Seq<char>, a: Seq<char>)
    ensures
        encode_utf8(p + a) == encode_utf8(p) + encode_utf8(a),
    decreases p.len(),
{
    if p.len() == 0 {
        assert(p + a =~= a);
        assert(encode_utf8(p) =~= Seq::<u8>::empty());
        assert(encode_utf8(p) + encode_utf8(a) =~= encode_utf8(a));
    } else {
        assert((p + a).drop_first() =~= p.drop_first() + a);
        assert((p + a)[0] == p[0]);
        lemma_encode_utf8_concat(p.drop_first(), a);
        assert(encode_scalar(p[0] as u32) + (encode_utf8(p.drop_first()) + encode_utf8(a))
            =~= (encode_scalar(p[0] as u32) + encode_utf8(p.drop_first())) + encode_utf8(a));
    }
}

/// Law: putting the same text in front of both texts moves their first
/// difference by the byte length of that text.
pub proof fn lemma_first_difference_after_prefix(
    prefix: Seq<char>,
    left: Seq<char>,
    right: Seq<char>,
    r: Option<usize>,
    shifted: Option<usize>,
)
    requires
        is_first_difference(encode_utf8(left), encode_utf8(right), r),
        is_first_difference(encode_utf8(prefix + left), encode_utf8(prefix + right), shifted),
    ensures
        match r {
            Some(i) => shifted matches Some(j) && j == i + encode_utf8(prefix).len(),
            None => shifted is None,
        },
{
    let p = encode_utf8(prefix);
    let a = encode_utf8(left);
    let b = encode_utf8(right);
    lemma_encode_utf8_concat(prefix, left);
    lemma_encode_utf8_concat(prefix, right);
    let pa = p + a;
    let pb = p + b;
    match shifted {
        Some(j) => {
            if j < p.len() {
                assert(pa[j as int] == pb[j as int]);
                assert(false);
            }
            let i = (j - p.len()) as int;
            assert forall|k: int| 0 <= k < i implies a[k] == b[k] by {
                assert(pa[k + p.len()] == pb[k + p.len()]);
            }
            if i < a.len() && i < b.len() {
                assert(pa[j as int] != pb[j as int]);
            }
            let ri: Option<usize> = Some(i as usize);
            assert(is_first_difference(a, b, ri));
            lemma_first_difference_unique(a, b, r, ri);
        },
        None => {
            assert(a =~= pa.subrange(p.len() as int, pa.len() as int));
            assert(b =~= pb.subrange(p.len() as int, pb.len() as int));
            assert(is_first_difference(a, b, None));
            lemma_first_difference_unique(a, b, r, None);
        },
    }
}

/// Whether two texts are equal, decided on their bytes.
pub fn str_eq(a: &str, b: &str) -> (eq: bool)
    ensures
        eq == (a@ == b@),
{
    let r = first_diff_byte_index(a, b);
    proof { lemma_no_difference_iff_equal(a, b, r); }
    r.is_none()
}

/// `s` padded on the right with spaces to `width` characters, as `{:<width}`
/// writes a string.
pub open spec fn pad_right_spec(s: Seq<char>, width: nat) -> Seq<char> {
    if s.len() < width { s + spaces((width - s.len()) as nat) } else { s }
}

/// `s` padded on the left with spaces to `width` characters, as `{:>width}`
/// (the default for numbers) writes it.
pub open spec fn pad_left_spec(s: Seq<char>, width: nat) -> Seq<char> {
    if s.len() < width { spaces((width - s.len()) as nat) + s } else { s }
}

/// Appends `s` to `out`, padded on the right with spaces to `width` characters.
pub fn push_padded_right(out: &mut String, s: &str, width: usize)
    ensures
        final(out)@ == old(out)@ + pad_right_spec(s@, width as nat),
{
    let n = count_chars_up_to(s, width);
    let ghost start = out@;
    out.append(s);
    push_spaces(out, width - n);
    assert(out@ =~= start + pad_right_spec(s@, width as nat));
}

/// Appends the decimal text of `value` to `out`, padded on the left with
/// spaces to `width` characters.
pub fn push_decimal_padded_left(out: &mut String, value: u128, width: usize)
    ensures
        final(out)@ == old(out)@ + pad_left_spec(decimal(value as nat), width as nat),
{
    let mut digits = String::new();
    push_decimal(&mut digits, value);
    assert(digits@ =~= decimal(value as nat));
    let n = count_chars_up_to(digits.as_str(), width);
    let ghost start = out@;
    push_spaces(out, width - n);
    out.append(digits.as_str());
    assert(out@ =~= start + pad_left_spec(decimal(value as nat), width as nat));
}

} // verus!
