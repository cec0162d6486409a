//! Small text helpers shared by the document generators: decimal formatting,
//! zero padding for sequence ids, and XML escaping.

use vstd::prelude::*;

verus! {

/// Relies on std's String::push: appends the given character to the end of the string.
pub assume_specification[ String::push ](s: &mut String, c: char)
    ensures
        final(s)@ == old(s)@.push(c),
;

/// String equality by contents, stated over the character views.
pub fn str_eq(a: &str, b: &str) -> (r: bool)
    ensures
        r == (a@ == b@),
{
    let x: String = a.to_owned();
    let y: String = b.to_owned();
    x == y
}

/// The character for one decimal digit.
pub open spec fn digit_char(d: nat) -> char {
    if d == 0 { '0' } else if d == 1 { '1' } else if d == 2 { '2' } else if d == 3 { '3' }
    else if d == 4 { '4' } else if d == 5 { '5' } else if d == 6 { '6' } else if d == 7 { '7' }
    else if d == 8 { '8' } else { '9' }
}

/// The decimal digits of `n`, most significant first.
pub open spec fn dec_spec(n: nat) -> Seq<char>
    decreases n,
{
    if n < 10 {
        seq![digit_char(n)]
    } else {
        dec_spec(n / 10) + seq![digit_char(n % 10)]
    }
}

fn digit_str(d: u32) -> (r: &'static str)
    requires
        d < 10,
    ensures
        r@ =~= seq![digit_char(d as nat)],
{
    if d == 0 {
        proof { reveal_strlit("0"); }
        "0"
    } else if d == 1 {
        proof { reveal_strlit("1"); }
        "1"
    } else if d == 2 {
        proof { reveal_strlit("2"); }
        "2"
    } else if d == 3 {
        proof { reveal_strlit("3"); }
        "3"
    } else if d == 4 {
        proof { reveal_strlit("4"); }
        "4"
    } else if d == 5 {
        proof { reveal_strlit("5"); }
        "5"
    } else if d == 6 {
        proof { reveal_strlit("6"); }
        "6"
    } else if d == 7 {
        proof { reveal_strlit("7"); }
        "7"
    } else if d == 8 {
        proof { reveal_strlit("8"); }
        "8"
    } else {
        proof { reveal_strlit("9"); }
        "9"
    }
}

/// Appends the decimal digits of `n` to `out`.
pub fn push_dec(out: &mut String, n: u32)
    ensures
        final(out)@ == old(out)@ + dec_spec(n as nat),
    decreases n,
{
    if n < 10 {
        out.append(digit_str(n));
    } else {
        push_dec(out, n / 10);
        out.append(digit_str(n % 10));
        proof {
            assert(out@ =~= old(out)@ + dec_spec(n as nat));
        }
    }
}

/// The digits of `n`, zero-padded on the left to at least four places.
pub open spec fn pad4_spec(n: nat) -> Seq<char> {
    if n < 10 {
        seq!['0', '0', '0'] + dec_spec(n)
    } else if n < 100 {
        seq!['0', '0'] + dec_spec(n)
    } else if n < 1000 {
        seq!['0'] + dec_spec(n)
    } else {
        dec_spec(n)
    }
}

/// Appends the zero-padded digits of `n` to `out`.
pub fn push_pad4(out: &mut String, n: u32)
    ensures
        final(out)@ == old(out)@ + pad4_spec(n as nat),
{
    proof {
        reveal_strlit("000");
        reveal_strlit("00");
        reveal_strlit("0");
    }
    if n < 10 {
        out.append("000");
    } else if n < 100 {
        out.append("00");
    } else if n < 1000 {
        out.append("0");
    }
    push_dec(out, n);
    proof {
        assert(out@ =~= old(out)@ + pad4_spec(n as nat));
    }
}

pub open spec fn is_digit(c: char) -> bool {
    '0' <= c && c <= '9'
}

pub open spec fn all_digits(s: Seq<char>) -> bool {
    forall|i: int| 0 <= i < s.len() ==> is_digit(#[trigger] s[i])
}

proof fn lemma_dec_digits(n: nat)
    ensures
        all_digits(dec_spec(n)),
        dec_spec(n).len() >= 1,
    decreases n,
{
    if n >= 10 {
        lemma_dec_digits(n / 10);
    }
}

pub proof fn lemma_pad4_digits(n: nat)
    ensures
        all_digits(pad4_spec(n)),
        pad4_spec(n).len() >= 4,
{
    lemma_dec_digits(n);
    lemma_dec_len(n);
}

/// The number that a digit sequence denotes.
pub open spec fn dec_val(s: Seq<char>) -> nat
    decreases s.len(),
{
    if s.len() == 0 {
        0
    } else {
        dec_val(s.drop_last()) * 10 + ((s.last() as u32 - 48) as nat)
    }
}

proof fn lemma_dec_val(n: nat)
    ensures
        dec_val(dec_spec(n)) == n,
    decreases n,
{
    reveal_with_fuel(dec_val, 2);
    if n < 10 {
        assert(dec_spec(n).drop_last() =~= Seq::<char>::empty());
    } else {
        lemma_dec_val(n / 10);
        assert(dec_spec(n).drop_last() =~= dec_spec(n / 10));
        assert(dec_spec(n).last() == digit_char(n % 10));
        assert(n == (n / 10) * 10 + n % 10) by (nonlinear_arith);
    }
}

proof fn lemma_leading_zeros_val(z: nat, s: Seq<char>)
    ensures
        dec_val(Seq::new(z, |i: int| '0') + s) == dec_val(s),
    decreases s.len(),
{
    let zeros = Seq::new(z, |i: int| '0');
    if s.len() == 0 {
        assert(zeros + s =~= zeros);
        lemma_zeros_val(z);
    } else {
        lemma_leading_zeros_val(z, s.drop_last());
        assert((zeros + s).drop_last() =~= zeros + s.drop_last());
    }
}

proof fn lemma_zeros_val(z: nat)
    ensures
        dec_val(Seq::new(z, |i: int| '0')) == 0,
    decreases z,
{
    let zeros = Seq::new(z, |i: int| '0');
    if z > 0 {
        lemma_zeros_val((z - 1) as nat);
        assert(zeros.drop_last() =~= Seq::new((z - 1) as nat, |i: int| '0'));
    }
}

proof fn lemma_dec_len(n: nat)
    ensures
        n < 10 ==> dec_spec(n).len() == 1,
        n < 100 ==> dec_spec(n).len() <= 2,
        n < 1000 ==> dec_spec(n).len() <= 3,
        n < 10000 ==> dec_spec(n).len() <= 4,
        n >= 10 ==> dec_spec(n).len() >= 2,
        n >= 100 ==> dec_spec(n).len() >= 3,
        n >= 1000 ==> dec_spec(n).len() >= 4,
        n >= 10000 ==> dec_spec(n).len() >= 5,
    decreases n,
{
    if n >= 10 {
        lemma_dec_len(n / 10);
    }
}

/// Zero padding keeps the denoted value, so padded ids stay injective.
proof fn lemma_pad4_val(n: nat)
    ensures
        dec_val(pad4_spec(n)) == n,
        pad4_spec(n).len() == 4 || n >= 10000,
{
    lemma_dec_val(n);
    lemma_dec_len(n);
    if n < 10 {
        assert(seq!['0', '0', '0'] =~= Seq::new(3, |i: int| '0'));
        lemma_leading_zeros_val(3, dec_spec(n));
    } else if n < 100 {
        assert(seq!['0', '0'] =~= Seq::new(2, |i: int| '0'));
        lemma_leading_zeros_val(2, dec_spec(n));
    } else if n < 1000 {
        assert(seq!['0'] =~= Seq::new(1, |i: int| '0'));
        lemma_leading_zeros_val(1, dec_spec(n));
    }
}

/// The zero-padded representations of two different numbers differ.
pub proof fn lemma_pad4_injective(a: nat, b: nat)
    requires
        pad4_spec(a) == pad4_spec(b),
    ensures
        a == b,
{
    lemma_pad4_val(a);
    lemma_pad4_val(b);
}

/// What one character becomes in XML text and attribute values.
pub open spec fn esc_char(c: char) -> Seq<char> {
    if c == '&' {
        "&amp;"@
    } else if c == '<' {
        "&lt;"@
    } else if c == '>' {
        "&gt;"@
    } else if c == '"' {
        "&quot;"@
    } else if c == '\'' {
        "&apos;"@
    } else {
        seq![c]
    }
}

/// XML escaping of a whole character sequence.
pub open spec fn esc_spec(s: Seq<char>) -> Seq<char>
    decreases s.len(),
{
    if s.len() == 0 {
        Seq::<char>::empty()
    } else {
        esc_spec(s.drop_last()) + esc_char(s.last())
    }
}

/// Appends `s`, XML-escaped, to `out`.
pub fn push_escaped(out: &mut String, s: &str)
    ensures
        final(out)@ == old(out)@ + esc_spec(s@),
{
    let len = s.unicode_len();
    let mut i: usize = 0;
    proof {
        assert(s@.subrange(0, 0) =~= Seq::<char>::empty());
        assert(out@ =~= old(out)@ + esc_spec(s@.subrange(0, 0)));
    }
    while i < len
        invariant
            i <= len,
            len == s@.len(),
            out@ == old(out)@ + esc_spec(s@.subrange(0, i as int)),
        decreases len - i,
    {
        let c = s.get_char(i);
        if c == '&' {
            out.append("&amp;");
        } else if c == '<' {
            out.append("&lt;");
        } else if c == '>' {
            out.append("&gt;");
        } else if c == '"' {
            out.append("&quot;");
        } else if c == '\'' {
            out.append("&apos;");
        } else {
            out.push(c);
        }
        proof {
            let pre = s@.subrange(0, i as int);
            let post = s@.subrange(0, i + 1);
            assert(post.drop_last() =~= pre);
            assert(post.last() == s@[i as int]);
            assert(out@ =~= old(out)@ + esc_spec(post));
        }
        i = i + 1;
    }
    proof {
        assert(s@.subrange(0, len as int) =~= s@);
    }
}

} // verus!
