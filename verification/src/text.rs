use vstd::prelude::*;

verus! {

broadcast use vstd::utf8::char_u32_cast;

/// ASCII upper-casing of one character; anything outside 'a'..'z' is kept.
pub open spec fn upper_char(c: char) -> char {
    if 'a' <= c && c <= 'z' {
        (((c as u32) - 32) as u8) as char
    } else {
        c
    }
}

/// ASCII upper-casing of a whole character sequence.
pub open spec fn upper_seq(s: Seq<char>) -> Seq<char> {
    s.map_values(|c: char| upper_char(c))
}

pub fn to_upper_char(c: char) -> (r: char)
    ensures
        r == upper_char(c),
{
    let v = c as u32;
    if 97 <= v && v <= 122 {
        ((v - 32) as u8) as char
    } else {
        c
    }
}

/// Upper-cases a string into its character sequence.
pub fn to_upper_chars(s: &str) -> (v: Vec<char>)
    ensures
        v@ == upper_seq(s@),
{
    let n = s.unicode_len();
    let mut v: Vec<char> = Vec::new();
    let mut i: usize = 0;
    while i < n
        invariant
            i <= n,
            n == s@.len(),
            v@.len() == i,
            forall|j: int| 0 <= j < i ==> v@[j] == upper_char(s@[j]),
        decreases n - i,
    {
        v.push(to_upper_char(s.get_char(i)));
        i = i + 1;
    }
    proof {
        assert(v@ =~= upper_seq(s@));
    }
    v
}

/// Whether a character vector spells exactly the given string.
pub fn chars_is(v: &Vec<char>, lit: &str) -> (r: bool)
    ensures
        r == (v@ == lit@),
{
    let n = lit.unicode_len();
    if v.len() != n {
        return false;
    }
    let mut i: usize = 0;
    while i < n
        invariant
            i <= n,
            n == lit@.len(),
            v@.len() == n,
            forall|j: int| 0 <= j < i ==> v@[j] == lit@[j],
        decreases n - i,
    {
        if v[i] != lit.get_char(i) {
            return false;
        }
        i = i + 1;
    }
    proof {
        assert(v@ =~= lit@);
    }
    true
}

pub open spec fn is_digit(c: char) -> bool {
    '0' <= c && c <= '9'
}

pub open spec fn digit_val(c: char) -> nat {
    ((c as u32) - 48) as nat
}

pub open spec fn all_digits(s: Seq<char>) -> bool {
    forall|i: int| 0 <= i < s.len() ==> is_digit(#[trigger] s[i])
}

/// Numeric value of a digit string, most significant digit first.
pub open spec fn digits_value(s: Seq<char>) -> nat
    decreases s.len(),
{
    if s.len() == 0 {
        0
    } else {
        digits_value(s.drop_last()) * 10 + digit_val(s.last())
    }
}

/// The unsigned value a decimal string parses to: the string must be
/// non-empty, all digits, and fit in 64 bits.
pub open spec fn parsed_u64(s: Seq<char>) -> Option<u64> {
    if s.len() > 0 && all_digits(s) && digits_value(s) <= u64::MAX {
        Some(digits_value(s) as u64)
    } else {
        None
    }
}

/// A longer digit string never has a smaller value.
proof fn lemma_digits_value_monotone(s: Seq<char>, i: int, j: int)
    requires
        0 <= i <= j <= s.len(),
    ensures
        digits_value(s.subrange(0, i)) <= digits_value(s.subrange(0, j)),
    decreases j - i,
{
    if i < j {
        lemma_digits_value_monotone(s, i, j - 1);
        assert(s.subrange(0, j).drop_last() =~= s.subrange(0, j - 1));
    }
}

/// Parses a decimal digit string; any other shape, or a value over 64 bits,
/// gives nothing.
pub fn parse_u64(s: &String) -> (r: Option<u64>)
    ensures
        r == parsed_u64(s@),
{
    let st = s.as_str();
    let n = st.unicode_len();
    if n == 0 {
        return None;
    }
    let mut val: u128 = 0;
    let mut i: usize = 0;
    while i < n
        invariant
            i <= n,
            n == st@.len(),
            st@ == s@,
            n > 0,
            all_digits(s@.subrange(0, i as int)),
            val == digits_value(s@.subrange(0, i as int)),
            val <= u64::MAX,
        decreases n - i,
    {
        let c = st.get_char(i);
        let cv = c as u32;
        if cv < 48 || cv > 57 {
            proof {
                assert(!is_digit(s@[i as int]));
            }
            return None;
        }
        let d = (cv - 48) as u128;
        let next = val * 10 + d;
        proof {
            assert(s@.subrange(0, i + 1).drop_last() =~= s@.subrange(0, i as int));
            assert(next == digits_value(s@.subrange(0, i + 1)));
        }
        if next > u64::MAX as u128 {
            proof {
                lemma_digits_value_monotone(s@, i + 1, n as int);
                assert(s@.subrange(0, n as int) =~= s@);
            }
            return None;
        }
        val = next;
        i = i + 1;
    }
    proof {
        assert(s@.subrange(0, n as int) =~= s@);
    }
    Some(val as u64)
}

pub fn is_digit_char(c: char) -> (r: bool)
    ensures
        r == is_digit(c),
{
    let v = c as u32;
    proof {
        vstd::utf8::char_u32_cast(c, c as u32);
        vstd::utf8::char_u32_cast('0', '0' as u32);
        vstd::utf8::char_u32_cast('9', '9' as u32);
    }
    48 <= v && v <= 57
}

/// Whether every character is a decimal digit.
pub fn is_all_digits(s: &String) -> (r: bool)
    ensures
        r == all_digits(s@),
{
    let st = s.as_str();
    let n = st.unicode_len();
    let mut i: usize = 0;
    while i < n
        invariant
            i <= n,
            n == s@.len(),
            st@ == s@,
            forall|j: int| 0 <= j < i ==> is_digit(#[trigger] s@[j]),
        decreases n - i,
    {
        if !is_digit_char(st.get_char(i)) {
            return false;
        }
        i = i + 1;
    }
    true
}

/// Lexicographic order on character sequences by code point, the order the
/// standard library's string comparison produces.
pub open spec fn lex_le(a: Seq<char>, b: Seq<char>) -> bool
    decreases a.len(),
{
    if a.len() == 0 {
        true
    } else if b.len() == 0 {
        false
    } else if a[0] != b[0] {
        (a[0] as u32) < (b[0] as u32)
    } else {
        lex_le(a.drop_first(), b.drop_first())
    }
}

/// Any two character sequences are comparable.
pub proof fn lemma_lex_total(a: Seq<char>, b: Seq<char>)
    ensures
        lex_le(a, b) || lex_le(b, a),
    decreases a.len(),
{
    if a.len() > 0 && b.len() > 0 {
        if a[0] == b[0] {
            lemma_lex_total(a.drop_first(), b.drop_first());
        } else {
            vstd::utf8::char_u32_cast(a[0], a[0] as u32);
            vstd::utf8::char_u32_cast(b[0], b[0] as u32);
            assert((a[0] as u32) != (b[0] as u32));
        }
    }
}

/// The lexicographic order is transitive.
pub proof fn lemma_lex_trans(a: Seq<char>, b: Seq<char>, c: Seq<char>)
    requires
        lex_le(a, b),
        lex_le(b, c),
    ensures
        lex_le(a, c),
    decreases a.len(),
{
    if a.len() > 0 && b.len() > 0 && c.len() > 0 {
        if a[0] == b[0] && b[0] == c[0] {
            lemma_lex_trans(a.drop_first(), b.drop_first(), c.drop_first());
        }
    }
}

/// Equal prefixes do not affect the comparison of what follows them.
proof fn lemma_lex_skip(a: Seq<char>, b: Seq<char>, i: int)
    requires
        0 <= i <= a.len(),
        i <= b.len(),
        a.subrange(0, i) == b.subrange(0, i),
    ensures
        lex_le(a, b) == lex_le(a.skip(i), b.skip(i)),
    decreases i,
{
    if i > 0 {
        assert(a.subrange(0, i)[0] == b.subrange(0, i)[0]);
        assert(a.subrange(0, i)[0] == a[0]);
        assert(b.subrange(0, i)[0] == b[0]);
        assert(a[0] == b[0]);
        if a.len() > 0 && b.len() > 0 && a[0] == b[0] {
            assert(a.drop_first().subrange(0, i - 1) =~= a.subrange(0, i).drop_first());
            assert(b.drop_first().subrange(0, i - 1) =~= b.subrange(0, i).drop_first());
            lemma_lex_skip(a.drop_first(), b.drop_first(), i - 1);
            assert(a.drop_first().skip(i - 1) =~= a.skip(i));
            assert(b.drop_first().skip(i - 1) =~= b.skip(i));
        }
    } else {
        assert(a.skip(0) =~= a);
        assert(b.skip(0) =~= b);
    }
}

/// Compares two strings in the lexicographic order of their characters.
pub fn str_le(a: &String, b: &String) -> (r: bool)
    ensures
        r == lex_le(a@, b@),
{
    let sa = a.as_str();
    let sb = b.as_str();
    let na = sa.unicode_len();
    let nb = sb.unicode_len();
    let mut i: usize = 0;
    loop
        invariant
            i <= na,
            i <= nb,
            na == a@.len(),
            nb == b@.len(),
            sa@ == a@,
            sb@ == b@,
            a@.subrange(0, i as int) == b@.subrange(0, i as int),
        decreases na - i,
    {
        if i >= na {
            proof {
                lemma_lex_skip(a@, b@, i as int);
            }
            return true;
        }
        if i >= nb {
            proof {
                lemma_lex_skip(a@, b@, i as int);
            }
            return false;
        }
        let ca = sa.get_char(i);
        let cb = sb.get_char(i);
        if ca != cb {
            proof {
                lemma_lex_skip(a@, b@, i as int);
            }
            return (ca as u32) < (cb as u32);
        }
        proof {
            assert(a@.subrange(0, i + 1) =~= b@.subrange(0, i + 1));
        }
        i = i + 1;
    }
}

/// How a character sequence splits at a separator: the pieces between the
/// separator's occurrences, in order; an empty sequence gives one empty
/// piece, as the standard library's split does.
pub open spec fn split_seq(s: Seq<char>, sep: char) -> Seq<Seq<char>>
    decreases s.len(),
{
    if s.len() == 0 {
        seq![Seq::<char>::empty()]
    } else if s[0] == sep {
        seq![Seq::<char>::empty()] + split_seq(s.drop_first(), sep)
    } else {
        let rest = split_seq(s.drop_first(), sep);
        seq![seq![s[0]] + rest[0]] + rest.drop_first()
    }
}

pub proof fn lemma_split_len(s: Seq<char>, sep: char)
    ensures
        split_seq(s, sep).len() >= 1,
    decreases s.len(),
{
    if s.len() > 0 {
        lemma_split_len(s.drop_first(), sep);
    }
}

/// A separator-free sequence is a single piece.
proof fn lemma_split_whole(s: Seq<char>, sep: char)
    requires
        !s.contains(sep),
    ensures
        split_seq(s, sep) == seq![s],
    decreases s.len(),
{
    if s.len() == 0 {
        assert(split_seq(s, sep) =~~= seq![s]);
    } else {
        assert(s[0] != sep);
        assert(forall|i: int|
            0 <= i < s.drop_first().len() ==> #[trigger] s.drop_first()[i] == s[i + 1]);
        assert(!s.drop_first().contains(sep)) by {
            if s.drop_first().contains(sep) {
                let i = choose|i: int|
                    0 <= i < s.drop_first().len() && s.drop_first()[i] == sep;
                assert(s[i + 1] == sep);
            }
        }
        lemma_split_whole(s.drop_first(), sep);
        assert(seq![s[0]] + s.drop_first() =~= s);
        assert(split_seq(s, sep) =~~= seq![s]);
    }
}

/// Splitting a piece, a separator and a remainder yields the piece and the
/// remainder's own pieces.
proof fn lemma_split_step(piece: Seq<char>, rest: Seq<char>, sep: char)
    requires
        !piece.contains(sep),
    ensures
        split_seq(piece + seq![sep] + rest, sep) == seq![piece] + split_seq(rest, sep),
    decreases piece.len(),
{
    let whole = piece + seq![sep] + rest;
    if piece.len() == 0 {
        assert(whole[0] == sep);
        assert(whole.drop_first() =~= rest);
        assert(split_seq(whole, sep) =~~= seq![piece] + split_seq(rest, sep));
    } else {
        assert(whole[0] == piece[0]);
        assert(whole[0] != sep);
        assert(!piece.drop_first().contains(sep)) by {
            if piece.drop_first().contains(sep) {
                let i = choose|i: int|
                    0 <= i < piece.drop_first().len() && piece.drop_first()[i] == sep;
                assert(piece[i + 1] == sep);
            }
        }
        lemma_split_step(piece.drop_first(), rest, sep);
        assert(whole.drop_first() =~= piece.drop_first() + seq![sep] + rest);
        lemma_split_len(rest, sep);
        let inner = split_seq(whole.drop_first(), sep);
        assert(inner == seq![piece.drop_first()] + split_seq(rest, sep));
        assert(inner[0] == piece.drop_first());
        assert(seq![whole[0]] + inner[0] =~= piece);
        assert(inner.drop_first() =~= split_seq(rest, sep));
        assert(split_seq(whole, sep) =~~= seq![piece] + split_seq(rest, sep));
    }
}

/// Splits a string at a separator character, keeping empty pieces, as the
/// standard library's split does.
pub fn split_str(s: &str, sep: char) -> (r: Vec<String>)
    ensures
        r.deep_view() == split_seq(s@, sep),
{
    let n = s.unicode_len();
    let mut pieces: Vec<String> = Vec::new();
    let mut start: usize = 0;
    let mut i: usize = 0;
    proof {
        assert(s@.skip(0) =~= s@);
        assert(pieces.deep_view() =~= Seq::<Seq<char>>::empty());
        assert(pieces.deep_view() + split_seq(s@, sep) =~= split_seq(s@, sep));
        assert(!s@.subrange(0, 0).contains(sep));
    }
    while i < n
        invariant
            start <= i <= n,
            n == s@.len(),
            !s@.subrange(start as int, i as int).contains(sep),
            split_seq(s@, sep) == pieces.deep_view() + split_seq(s@.skip(start as int), sep),
        decreases n - i,
    {
        let c = s.get_char(i);
        if c == sep {
            let piece = s.substring_char(start, i).to_owned();
            proof {
                let tail = s@.skip(start as int);
                let pv = s@.subrange(start as int, i as int);
                assert(tail =~= pv + seq![sep] + s@.skip(i + 1));
                lemma_split_step(pv, s@.skip(i + 1), sep);
                assert((pieces.deep_view() + seq![pv]) + split_seq(s@.skip(i + 1), sep)
                    =~= pieces.deep_view() + (seq![pv] + split_seq(s@.skip(i + 1), sep)));
            }
            pieces.push(piece);
            proof {
                assert(pieces.deep_view() =~= pieces.deep_view().drop_last() + seq![
                    s@.subrange(start as int, i as int),
                ]);
            }
            start = i + 1;
            proof {
                assert(s@.subrange(start as int, i + 1).len() == 0);
                assert(!s@.subrange(start as int, i + 1).contains(sep));
            }
        } else {
            proof {
                let ext = s@.subrange(start as int, i + 1);
                assert(ext.last() != sep);
                assert(ext.drop_last() =~= s@.subrange(start as int, i as int));
                assert(!ext.contains(sep)) by {
                    if ext.contains(sep) {
                        let k = choose|k: int| 0 <= k < ext.len() && ext[k] == sep;
                        if k < ext.len() - 1 {
                            assert(ext.drop_last()[k] == sep);
                        }
                    }
                }
            }
        }
        i = i + 1;
    }
    let last_piece = s.substring_char(start, n).to_owned();
    proof {
        assert(s@.skip(start as int) =~= s@.subrange(start as int, n as int));
        lemma_split_whole(s@.subrange(start as int, n as int), sep);
    }
    pieces.push(last_piece);
    proof {
        assert(pieces.deep_view() =~= pieces.deep_view().drop_last() + seq![
            s@.subrange(start as int, n as int),
        ]);
        assert(pieces.deep_view() =~= split_seq(s@, sep));
    }
    pieces
}

} // verus!
