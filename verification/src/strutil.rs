//! Executable helpers over strings: character pushes, slice equality,
//! ASCII case folding and decimal rendering of machine integers.

use vstd::prelude::*;

verus! {

/// Relies on std's `String::push`: appends exactly one character.
#[verifier::external_body]
pub fn push_char(s: &mut String, c: char)
    ensures
        final(s)@ == old(s)@.push(c),
{
    s.push(c)
}

/// Relies on std's `PartialEq` for `str`: two string slices are equal exactly
/// when they consist of the same characters.
#[verifier::external_body]
pub fn str_eq(a: &str, b: &str) -> (r: bool)
    ensures
        r == (a@ == b@),
{
    a == b
}

/// The ASCII lower-case counterpart of a character: `'A'..'Z'` shift down by
/// one case, every other character stays as it is.
pub open spec fn lower_char(c: char) -> char {
    if 'A' <= c && c <= 'Z' {
        (((c as u32) + 32) as u8) as char
    } else {
        c
    }
}

/// A character sequence folded to ASCII lower case.
pub open spec fn lower_seq(s: Seq<char>) -> Seq<char> {
    s.map_values(|c: char| lower_char(c))
}

/// Folds a string to ASCII lower case, character by character.
pub fn ascii_lowercase(s: &str) -> (r: String)
    ensures
        r@ == lower_seq(s@),
{
    let n: usize = s.unicode_len();
    let mut r = String::new();
    let mut i: usize = 0;
    while i < n
        invariant
            i <= n,
            n == s@.len(),
            r@ == lower_seq(s@).subrange(0, i as int),
        decreases n - i,
    {
        let c = s.get_char(i);
        let u: u32 = c as u32;
        let lc: char = if 65 <= u && u <= 90 {
            ((u + 32) as u8) as char
        } else {
            c
        };
        assert(lc == lower_char(s@[i as int]));
        push_char(&mut r, lc);
        assert(r@ =~= lower_seq(s@).subrange(0, i + 1 as int));
        i = i + 1;
    }
    assert(r@ =~= lower_seq(s@));
    r
}

/// Splitting a character sequence at every occurrence of a separator, as
/// Rust's `str::split` does: always at least one piece, empty pieces kept.
pub open spec fn split_char(s: Seq<char>, sep: char) -> Seq<Seq<char>>
    decreases s.len(),
{
    if s.len() == 0 {
        seq![Seq::<char>::empty()]
    } else if s[0] == sep {
        seq![Seq::<char>::empty()] + split_char(s.drop_first(), sep)
    } else {
        let rest = split_char(s.drop_first(), sep);
        seq![seq![s[0]] + rest[0]] + rest.drop_first()
    }
}

/// A split always yields at least one piece.
pub proof fn lemma_split_char_len(s: Seq<char>, sep: char)
    ensures
        split_char(s, sep).len() >= 1,
    decreases s.len(),
{
    if s.len() > 0 && s[0] != sep {
        lemma_split_char_len(s.drop_first(), sep);
    }
}

/// How a split grows when one character is appended: a separator starts a new
/// empty piece, any other character extends the last piece.
pub proof fn lemma_split_char_push(s: Seq<char>, sep: char, c: char)
    ensures
        c == sep ==> split_char(s.push(c), sep) =~~= split_char(s, sep).push(
            Seq::<char>::empty(),
        ),
        c != sep ==> split_char(s.push(c), sep) =~~= split_char(s, sep).update(
            split_char(s, sep).len() - 1,
            split_char(s, sep).last().push(c),
        ),
    decreases s.len(),
{
    lemma_split_char_len(s, sep);
    let p = s.push(c);
    assert(p.len() == s.len() + 1);
    if s.len() == 0 {
        assert(p[0] == c);
        assert(p.drop_first() =~= Seq::<char>::empty());
        assert(split_char(Seq::<char>::empty(), sep) =~~= seq![Seq::<char>::empty()]);
        assert(split_char(p.drop_first(), sep) =~~= seq![Seq::<char>::empty()]);
        if c == sep {
            assert(split_char(p, sep) =~~= seq![Seq::<char>::empty(), Seq::<char>::empty()]);
            assert(split_char(s, sep).push(Seq::<char>::empty()) =~~= seq![
                Seq::<char>::empty(),
                Seq::<char>::empty(),
            ]);
        } else {
            let rest = split_char(p.drop_first(), sep);
            assert(rest =~~= seq![Seq::<char>::empty()]);
            assert(seq![c] + rest[0] =~= seq![c]);
            assert(split_char(p, sep) =~~= seq![seq![c]]);
            assert(Seq::<char>::empty().push(c) =~= seq![c]);
            assert(split_char(s, sep).update(0, split_char(s, sep).last().push(c)) =~~= seq![
                seq![c],
            ]);
        }
    } else {
        let t = s.drop_first();
        lemma_split_char_push(t, sep, c);
        lemma_split_char_len(t, sep);
        assert(p.drop_first() =~= t.push(c));
        assert(p[0] == s[0]);
        let st = split_char(t, sep);
        let stp = split_char(t.push(c), sep);
        if s[0] == sep {
            assert(split_char(p, sep) =~~= seq![Seq::<char>::empty()] + stp);
            assert(split_char(s, sep) =~~= seq![Seq::<char>::empty()] + st);
            if c == sep {
                assert(seq![Seq::<char>::empty()] + st.push(Seq::<char>::empty()) =~~= (seq![
                    Seq::<char>::empty(),
                ] + st).push(Seq::<char>::empty()));
            } else {
                assert(seq![Seq::<char>::empty()] + st.update(st.len() - 1, st.last().push(c))
                    =~~= (seq![Seq::<char>::empty()] + st).update(st.len() as int, st.last().push(
                    c,
                )));
                assert((seq![Seq::<char>::empty()] + st).last() == st.last());
            }
        } else {
            assert(split_char(p, sep) =~~= seq![seq![s[0]] + stp[0]] + stp.drop_first());
            assert(split_char(s, sep) =~~= seq![seq![s[0]] + st[0]] + st.drop_first());
            if c == sep {
                assert(stp =~~= st.push(Seq::<char>::empty()));
                assert(stp[0] == st[0]);
                assert(stp.drop_first() =~~= st.drop_first().push(Seq::<char>::empty()));
                assert(seq![seq![s[0]] + st[0]] + st.drop_first().push(Seq::<char>::empty()) =~~= (
                seq![seq![s[0]] + st[0]] + st.drop_first()).push(Seq::<char>::empty()));
            } else {
                assert(stp =~~= st.update(st.len() - 1, st.last().push(c)));
                if st.len() == 1 {
                    assert(stp[0] == st[0].push(c));
                    assert(stp.drop_first() =~~= st.drop_first());
                    assert(st.drop_first() =~~= Seq::<Seq<char>>::empty());
                    assert(seq![s[0]] + st[0].push(c) =~= (seq![s[0]] + st[0]).push(c));
                    let whole = seq![seq![s[0]] + st[0]] + st.drop_first();
                    assert(whole.len() == 1);
                    assert(whole.last() == seq![s[0]] + st[0]);
                    assert(split_char(p, sep) =~~= whole.update(0, whole.last().push(c)));
                } else {
                    assert(stp[0] == st[0]);
                    assert(stp.drop_first() =~~= st.drop_first().update(
                        st.len() - 2,
                        st.last().push(c),
                    ));
                    let whole = seq![seq![s[0]] + st[0]] + st.drop_first();
                    assert(whole.last() == st.last());
                    assert(seq![seq![s[0]] + stp[0]] + stp.drop_first() =~~= whole.update(
                        whole.len() - 1,
                        whole.last().push(c),
                    ));
                }
            }
        }
    }
}

/// Splits a string at every occurrence of a separator character.
pub fn split_on_char(s: &str, sep: char) -> (r: Vec<String>)
    ensures
        r.deep_view() == split_char(s@, sep),
{
    let n: usize = s.unicode_len();
    let mut r: Vec<String> = Vec::new();
    let mut cur = String::new();
    let mut i: usize = 0;
    while i < n
        invariant
            i <= n,
            n == s@.len(),
            r.deep_view().push(cur@) =~~= split_char(s@.subrange(0, i as int), sep),
        decreases n - i,
    {
        let c = s.get_char(i);
        proof {
            lemma_split_char_push(s@.subrange(0, i as int), sep, c);
            assert(s@.subrange(0, i as int).push(c) =~= s@.subrange(0, i + 1 as int));
        }
        if c == sep {
            r.push(cur);
            cur = String::new();
        } else {
            push_char(&mut cur, c);
        }
        assert(r.deep_view().push(cur@) =~~= split_char(s@.subrange(0, i + 1 as int), sep));
        i = i + 1;
    }
    assert(s@.subrange(0, n as int) =~= s@);
    r.push(cur);
    proof {
        lemma_split_char_len(s@, sep);
    }
    assert(r.deep_view() =~~= split_char(s@, sep));
    r
}

/// Whether a character sequence is a well-formed decimal numeral: at least
/// one character, digits only.
pub open spec fn is_dec_seq(s: Seq<char>) -> bool {
    s.len() >= 1 && (forall|i: int| 0 <= i < s.len() ==> '0' <= #[trigger] s[i] && s[i] <= '9')
}

/// The value of a decimal numeral.
pub open spec fn dec_val(s: Seq<char>) -> nat
    decreases s.len(),
{
    if s.len() == 0 {
        0
    } else {
        (dec_val(s.take(s.len() - 1)) * 10 + ((s[s.len() - 1] as nat) - 48)) as nat
    }
}

/// A numeral's value never falls below the value of any of its prefixes.
pub proof fn lemma_dec_val_prefix(s: Seq<char>, i: int)
    requires
        0 <= i <= s.len(),
        forall|j: int| 0 <= j < s.len() ==> '0' <= #[trigger] s[j] && s[j] <= '9',
    ensures
        dec_val(s) >= dec_val(s.take(i)),
    decreases s.len() - i,
{
    if i < s.len() {
        lemma_dec_val_prefix(s, i + 1);
        assert(s.take(i + 1).take(i) =~= s.take(i));
        assert(s.take(i + 1).len() == i + 1);
        assert(dec_val(s.take(i + 1)) == dec_val(s.take(i)) * 10 + ((s[i] as nat) - 48));
        assert(dec_val(s.take(i)) * 10 >= dec_val(s.take(i))) by (nonlinear_arith);
    } else {
        assert(s.take(i) =~= s);
    }
}

/// Parses a decimal numeral; `None` exactly when the text is not a numeral
/// or its value does not fit in `usize`.
pub fn parse_usize(s: &str) -> (r: Option<usize>)
    ensures
        r is Some <==> is_dec_seq(s@) && dec_val(s@) <= usize::MAX,
        r is Some ==> r.unwrap() == dec_val(s@),
{
    let n: usize = s.unicode_len();
    if n == 0 {
        return None;
    }
    let mut v: usize = 0;
    let mut i: usize = 0;
    while i < n
        invariant
            i <= n,
            n == s@.len(),
            n >= 1,
            forall|j: int| 0 <= j < i ==> '0' <= #[trigger] s@[j] && s@[j] <= '9',
            v == dec_val(s@.subrange(0, i as int)),
        decreases n - i,
    {
        let c = s.get_char(i);
        let u: u32 = c as u32;
        if !(48 <= u && u <= 57) {
            return None;
        }
        let d: usize = (u - 48) as usize;
        let v10 = match v.checked_mul(10) {
            Some(x) => x,
            None => {
                proof {
                    overflow_means_too_big(s@, i as int);
                }
                return None;
            },
        };
        let next = match v10.checked_add(d) {
            Some(x) => x,
            None => {
                proof {
                    overflow_means_too_big(s@, i as int);
                }
                return None;
            },
        };
        assert(s@.subrange(0, i + 1 as int).take(i as int) =~= s@.subrange(0, i as int));
        v = next;
        i = i + 1;
    }
    assert(s@.subrange(0, n as int) =~= s@);
    Some(v)
}

/// If the numeral up to and including position `i` already exceeds
/// `usize::MAX`, so does the whole numeral.
proof fn overflow_means_too_big(s: Seq<char>, i: int)
    requires
        0 <= i < s.len(),
        forall|j: int| 0 <= j <= i ==> '0' <= #[trigger] s[j] && s[j] <= '9',
        '0' <= s[i] && s[i] <= '9',
        dec_val(s.take(i)) * 10 + ((s[i] as nat) - 48) > usize::MAX,
    ensures
        !(is_dec_seq(s) && dec_val(s) <= usize::MAX),
{
    if is_dec_seq(s) {
        lemma_dec_val_prefix(s, i + 1);
        assert(s.take(i + 1).take(i) =~= s.take(i));
        assert(dec_val(s.take(i + 1)) == dec_val(s.take(i)) * 10 + ((s[i] as nat) - 48));
    }
}

/// The decimal rendering of a natural number, without sign or padding.
pub open spec fn dec_str(n: nat) -> Seq<char>
    decreases n,
{
    if n < 10 {
        seq![((48 + n) as u8) as char]
    } else {
        dec_str(n / 10).push(((48 + (n % 10)) as u8) as char)
    }
}

/// Renders a machine integer in decimal.
pub fn usize_to_dec_string(n: usize) -> (r: String)
    ensures
        r@ == dec_str(n as nat),
{
    let mut digits: Vec<u8> = Vec::new();
    let mut m: usize = n;
    while m >= 10
        invariant
            dec_str(n as nat) =~= dec_str(m as nat) + digits_chars(digits@),
        decreases m,
    {
        let d: u8 = (m % 10) as u8;
        proof {
            assert(dec_str(m as nat) == dec_str((m as nat) / 10).push(
                ((48 + ((m as nat) % 10)) as u8) as char,
            ));
            assert(dec_str((m as nat) / 10).push(((48 + ((m as nat) % 10)) as u8) as char)
                =~= dec_str((m as nat) / 10) + seq![((48 + d) as u8) as char]);
            let dd = digits@.push((48 + d) as u8);
            assert(dd.last() == (48 + d) as u8);
            assert(dd.drop_last() =~= digits@);
            assert(digits_chars(dd) =~= seq![((48 + d) as u8) as char] + digits_chars(digits@));
        }
        digits.push(48 + d);
        m = m / 10;
    }
    proof {
        let dd = digits@.push((48 + m) as u8);
        assert(dd.last() == (48 + m) as u8);
        assert(dd.drop_last() =~= digits@);
        assert(dec_str(m as nat) =~= seq![((48 + m) as u8) as char]);
        assert(digits_chars(dd) =~= dec_str(m as nat) + digits_chars(digits@));
    }
    digits.push(48 + (m as u8));
    let mut r = String::new();
    let k = digits.len();
    assert(digits@.subrange(0, k as int) =~= digits@);
    assert(dec_str(n as nat) =~= digits_chars(digits@.subrange(0, k as int)));
    let mut i: usize = 0;
    while i < k
        invariant
            i <= k,
            k == digits@.len(),
            dec_str(n as nat) =~= r@ + digits_chars(digits@.subrange(0, (k - i) as int)),
        decreases k - i,
    {
        let b = digits[k - 1 - i];
        proof {
            let pre = digits@.subrange(0, (k - i) as int);
            assert(pre.last() == digits@[k - i - 1]);
            assert(pre.drop_last() =~= digits@.subrange(0, (k - i - 1) as int));
            assert(digits_chars(pre) =~= seq![digits@[k - i - 1] as char] + digits_chars(
                digits@.subrange(0, (k - i - 1) as int),
            ));
        }
        push_char(&mut r, b as char);
        i = i + 1;
    }
    assert(digits_chars(digits@.subrange(0, 0)) =~= Seq::<char>::empty());
    assert(r@ =~= dec_str(n as nat));
    r
}

/// The characters of a reversed digit buffer, most significant digit first.
pub open spec fn digits_chars(d: Seq<u8>) -> Seq<char>
    decreases d.len(),
{
    if d.len() == 0 {
        Seq::empty()
    } else {
        seq![d.last() as char] + digits_chars(d.drop_last())
    }
}

} // verus!
