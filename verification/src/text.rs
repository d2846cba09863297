//! Small verified text utilities shared by the table and page renderers.

use vstd::prelude::*;

verus! {

/// Compares two string slices for equality of their character sequences.
pub fn str_eq(a: &str, b: &str) -> (r: bool)
    ensures
        r == (a@ == b@),
{
    let oa: String = a.to_owned();
    let ob: String = b.to_owned();
    oa == ob
}

/// Relies on String::push: appends exactly the given character to the string.
#[verifier::external_body]
pub fn push_char(s: &mut String, c: char)
    ensures
        final(s)@ == old(s)@.push(c),
{
    s.push(c);
}

/// A run of `n` space characters.
pub open spec fn spec_spaces(n: nat) -> Seq<char>
    decreases n,
{
    if n == 0 {
        Seq::empty()
    } else {
        spec_spaces((n - 1) as nat).push(' ')
    }
}

/// A run of `n` dash characters.
pub open spec fn spec_dashes(n: nat) -> Seq<char>
    decreases n,
{
    if n == 0 {
        Seq::empty()
    } else {
        spec_dashes((n - 1) as nat).push('-')
    }
}

pub proof fn lemma_spaces_len(n: nat)
    ensures
        spec_spaces(n).len() == n,
    decreases n,
{
    if n > 0 {
        lemma_spaces_len((n - 1) as nat);
    }
}

pub proof fn lemma_dashes_len(n: nat)
    ensures
        spec_dashes(n).len() == n,
    decreases n,
{
    if n > 0 {
        lemma_dashes_len((n - 1) as nat);
    }
}

/// `s` left-aligned in a field of width `w`: the text followed by enough
/// spaces to reach `w` characters; text wider than `w` is kept whole.
pub open spec fn spec_pad(s: Seq<char>, w: nat) -> Seq<char> {
    if s.len() <= w {
        s + spec_spaces((w - s.len()) as nat)
    } else {
        s
    }
}

/// Text no wider than its field prints at exactly the field's width.
pub proof fn lemma_pad_len(s: Seq<char>, w: nat)
    requires
        s.len() <= w,
    ensures
        spec_pad(s, w).len() == w,
{
    lemma_spaces_len((w - s.len()) as nat);
}

/// Builds the left-aligned padding of `s` to width `w`.
pub fn pad(s: &str, w: usize) -> (r: String)
    ensures
        r@ == spec_pad(s@, w as nat),
{
    let mut r: String = s.to_owned();
    let n = s.unicode_len();
    if n >= w {
        proof {
            if s@.len() <= w as nat {
                assert(r@ =~= spec_pad(s@, w as nat));
            }
        }
        return r;
    }
    let mut i: usize = n;
    while i < w
        invariant
            n <= i <= w,
            n == s@.len(),
            r@ == s@ + spec_spaces((i - n) as nat),
        decreases w - i,
    {
        push_char(&mut r, ' ');
        proof {
            assert(spec_spaces((i + 1 - n) as nat) == spec_spaces((i - n) as nat).push(' '));
            assert(r@ =~= s@ + spec_spaces((i + 1 - n) as nat));
        }
        i = i + 1;
    }
    r
}

/// Builds a run of `w` dashes.
pub fn dashes(w: usize) -> (r: String)
    ensures
        r@ == spec_dashes(w as nat),
{
    let mut r = String::new();
    let mut i: usize = 0;
    while i < w
        invariant
            i <= w,
            r@ == spec_dashes(i as nat),
        decreases w - i,
    {
        push_char(&mut r, '-');
        i = i + 1;
    }
    r
}

/// The description transform: every line break becomes a paragraph break
/// (two line breaks); all other characters are kept as they are.
pub open spec fn spec_expand_newlines(s: Seq<char>) -> Seq<char>
    decreases s.len(),
{
    if s.len() == 0 {
        Seq::empty()
    } else {
        spec_expand_newlines(s.drop_last()) + (if s.last() == '\n' {
            seq!['\n', '\n']
        } else {
            seq![s.last()]
        })
    }
}

/// Expands every line break in `s` to a paragraph break.
pub fn expand_newlines(s: &str) -> (r: String)
    ensures
        r@ == spec_expand_newlines(s@),
{
    let n = s.unicode_len();
    let mut r = String::new();
    let mut i: usize = 0;
    while i < n
        invariant
            i <= n,
            n == s@.len(),
            r@ == spec_expand_newlines(s@.take(i as int)),
        decreases n - i,
    {
        let c = s.get_char(i);
        if c == '\n' {
            push_char(&mut r, '\n');
            push_char(&mut r, '\n');
        } else {
            push_char(&mut r, c);
        }
        proof {
            let t = s@.take(i + 1 as int);
            assert(t.drop_last() =~= s@.take(i as int));
            assert(t.last() == s@[i as int]);
            if c == '\n' {
                assert(r@ =~= spec_expand_newlines(s@.take(i as int)) + seq!['\n', '\n']);
            } else {
                assert(r@ =~= spec_expand_newlines(s@.take(i as int)) + seq![c]);
            }
        }
        i = i + 1;
    }
    proof {
        assert(s@.take(n as int) =~= s@);
    }
    r
}

/// The decimal digit character for a value below ten.
pub open spec fn spec_digit(d: nat) -> char {
    if d == 0 {
        '0'
    } else if d == 1 {
        '1'
    } else if d == 2 {
        '2'
    } else if d == 3 {
        '3'
    } else if d == 4 {
        '4'
    } else if d == 5 {
        '5'
    } else if d == 6 {
        '6'
    } else if d == 7 {
        '7'
    } else if d == 8 {
        '8'
    } else {
        '9'
    }
}

/// The usual decimal rendering of `n`, most significant digit first,
/// without leading zeros (a single zero for zero itself).
pub open spec fn spec_dec(n: nat) -> Seq<char>
    decreases n,
{
    if n < 10 {
        seq![spec_digit(n)]
    } else {
        spec_dec(n / 10).push(spec_digit(n % 10))
    }
}

fn digit_char(d: usize) -> (c: char)
    requires
        d < 10,
    ensures
        c == spec_digit(d as nat),
{
    if d == 0 {
        '0'
    } else if d == 1 {
        '1'
    } else if d == 2 {
        '2'
    } else if d == 3 {
        '3'
    } else if d == 4 {
        '4'
    } else if d == 5 {
        '5'
    } else if d == 6 {
        '6'
    } else if d == 7 {
        '7'
    } else if d == 8 {
        '8'
    } else {
        '9'
    }
}

/// Renders `n` in decimal.
pub fn dec_string(n: usize) -> (r: String)
    ensures
        r@ == spec_dec(n as nat),
    decreases n,
{
    if n < 10 {
        let mut r = String::new();
        push_char(&mut r, digit_char(n));
        proof {
            assert(r@ =~= seq![spec_digit(n as nat)]);
        }
        r
    } else {
        let mut r = dec_string(n / 10);
        push_char(&mut r, digit_char(n % 10));
        r
    }
}

/// Strict lexicographic order on character sequences by code point: a
/// proper prefix precedes its extensions, and otherwise the first differing
/// position decides.
pub open spec fn lex_lt(a: Seq<char>, b: Seq<char>) -> bool
    decreases a.len(),
{
    if b.len() == 0 {
        false
    } else if a.len() == 0 {
        true
    } else if a[0] < b[0] {
        true
    } else if a[0] > b[0] {
        false
    } else {
        lex_lt(a.skip(1), b.skip(1))
    }
}

/// Nothing precedes itself.
pub proof fn lemma_lex_lt_irrefl(a: Seq<char>)
    ensures
        !lex_lt(a, a),
    decreases a.len(),
{
    if a.len() > 0 {
        lemma_lex_lt_irrefl(a.skip(1));
    }
}

/// Lexicographic order is transitive.
pub proof fn lemma_lex_lt_trans(a: Seq<char>, b: Seq<char>, c: Seq<char>)
    requires
        lex_lt(a, b),
        lex_lt(b, c),
    ensures
        lex_lt(a, c),
    decreases a.len(),
{
    if b.len() > 0 && a.len() > 0 && c.len() > 0 {
        if a[0] == b[0] && b[0] == c[0] {
            lemma_lex_lt_trans(a.skip(1), b.skip(1), c.skip(1));
        }
    }
}

/// Two sequences neither of which precedes the other are equal.
pub proof fn lemma_lex_lt_connected(a: Seq<char>, b: Seq<char>)
    requires
        !lex_lt(a, b),
        !lex_lt(b, a),
    ensures
        a == b,
    decreases a.len(),
{
    if a.len() == 0 {
        assert(b.len() == 0);
        assert(a =~= b);
    } else {
        assert(b.len() > 0);
        assert(!(a[0] < b[0]));
        assert(!((b[0] as u32) < (a[0] as u32)));
        assert(lex_lt(a, b) == lex_lt(a.skip(1), b.skip(1)));
        assert(lex_lt(b, a) == lex_lt(b.skip(1), a.skip(1)));
        lemma_lex_lt_connected(a.skip(1), b.skip(1));
        assert(a.skip(1) =~= b.skip(1));
        assert(a.skip(1).len() == a.len() - 1);
        assert(b.skip(1).len() == b.len() - 1);
        assert(a.len() == b.len());
        assert(a[0] == b[0]);
        assert forall|i: int| 0 <= i < a.len() implies a[i] == b[i] by {
            if i >= 1 {
                assert(a.skip(1)[i - 1] == a[i]);
                assert(b.skip(1)[i - 1] == b[i]);
            }
        }
        assert(a =~= b);
    }
}

/// Decides whether `a` precedes `b` in lexicographic code-point order.
pub fn str_lex_lt(a: &str, b: &str) -> (r: bool)
    ensures
        r == lex_lt(a@, b@),
{
    let na = a.unicode_len();
    let nb = b.unicode_len();
    let mut i: usize = 0;
    proof {
        assert(a@.skip(0) =~= a@);
        assert(b@.skip(0) =~= b@);
    }
    loop
        invariant
            i <= na,
            i <= nb,
            na == a@.len(),
            nb == b@.len(),
            lex_lt(a@, b@) == lex_lt(a@.skip(i as int), b@.skip(i as int)),
        decreases na - i,
    {
        if i == na {
            return i < nb;
        }
        if i == nb {
            return false;
        }
        let ca = a.get_char(i);
        let cb = b.get_char(i);
        if ca < cb {
            return true;
        }
        if cb < ca {
            return false;
        }
        proof {
            let sa = a@.skip(i as int);
            let sb = b@.skip(i as int);
            assert(sa[0] == a@[i as int]);
            assert(sb[0] == b@[i as int]);
            assert(sa.skip(1) =~= a@.skip(i + 1 as int));
            assert(sb.skip(1) =~= b@.skip(i + 1 as int));
        }
        i = i + 1;
    }
}

} // verus!
