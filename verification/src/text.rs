//! Verified text primitives used by the protocol decoders.
//!
//! The decoders work on strings drained from the engine's pipes.  All
//! splitting, prefix testing and substring searching is done here, with
//! contracts over `Seq<char>` views.

use vstd::prelude::*;

verus! {

/// `p` is a prefix of `s`.
pub open spec fn is_prefix_of(p: Seq<char>, s: Seq<char>) -> bool {
    p.len() <= s.len() && p == s.subrange(0, p.len() as int)
}

/// `n` occurs in `h` starting at position `i`.
pub open spec fn occurs_at(h: Seq<char>, n: Seq<char>, i: int) -> bool {
    0 <= i && i + n.len() <= h.len() && n == h.subrange(i, i + n.len())
}

/// `n` occurs somewhere in `h`.
pub open spec fn contains_seq(h: Seq<char>, n: Seq<char>) -> bool {
    exists|i: int| occurs_at(h, n, i)
}

/// Character-for-character string equality.
pub fn str_eq(a: &str, b: &str) -> (r: bool)
    ensures
        r == (a@ == b@),
{
    let alen = a.unicode_len();
    let blen = b.unicode_len();
    if alen != blen {
        assert(a@ != b@) by {
            assert(a@.len() != b@.len());
        }
        return false;
    }
    let mut i: usize = 0;
    while i < alen
        invariant
            alen == a@.len(),
            alen == b@.len(),
            i <= alen,
            forall|j: int| 0 <= j < i ==> a@[j] == b@[j],
        decreases alen - i,
    {
        if a.get_char(i) != b.get_char(i) {
            return false;
        }
        i += 1;
    }
    proof {
        assert(a@ =~= b@);
    }
    true
}

/// Does `s` start with `p`?
pub fn starts_with(s: &str, p: &str) -> (r: bool)
    ensures
        r == is_prefix_of(p@, s@),
{
    let slen = s.unicode_len();
    let plen = p.unicode_len();
    if plen > slen {
        return false;
    }
    let mut i: usize = 0;
    while i < plen
        invariant
            slen == s@.len(),
            plen == p@.len(),
            plen <= slen,
            i <= plen,
            forall|j: int| 0 <= j < i ==> p@[j] == s@[j],
        decreases plen - i,
    {
        if s.get_char(i) != p.get_char(i) {
            assert(!is_prefix_of(p@, s@)) by {
                assert(p@ != s@.subrange(0, p@.len() as int)) by {
                    assert(s@.subrange(0, p@.len() as int)[i as int] == s@[i as int]);
                }
            }
            return false;
        }
        i += 1;
    }
    proof {
        assert(p@ =~= s@.subrange(0, p@.len() as int));
    }
    true
}

/// Does `n` occur in `h` starting exactly at `i`?
fn occurs_here(h: &str, n: &str, i: usize) -> (r: bool)
    requires
        i + n@.len() <= h@.len(),
    ensures
        r == occurs_at(h@, n@, i as int),
{
    let nlen = n.unicode_len();
    let hlen = h.unicode_len();
    let mut j: usize = 0;
    while j < nlen
        invariant
            nlen == n@.len(),
            hlen == h@.len(),
            i + nlen <= hlen,
            j <= nlen,
            forall|k: int| 0 <= k < j ==> n@[k] == h@[i + k],
        decreases nlen - j,
    {
        if h.get_char(i + j) != n.get_char(j) {
            assert(!occurs_at(h@, n@, i as int)) by {
                assert(h@.subrange(i as int, i + n@.len())[j as int] == h@[i + j]);
            }
            return false;
        }
        j += 1;
    }
    proof {
        assert(n@ =~= h@.subrange(i as int, i + n@.len()));
    }
    true
}

/// Does `n` occur anywhere in `h`?
pub fn contains_str(h: &str, n: &str) -> (r: bool)
    ensures
        r == contains_seq(h@, n@),
{
    let hlen = h.unicode_len();
    let nlen = n.unicode_len();
    if nlen > hlen {
        assert(!contains_seq(h@, n@)) by {
            assert(forall|i: int| !occurs_at(h@, n@, i));
        }
        return false;
    }
    if nlen == 0 {
        assert(occurs_at(h@, n@, 0)) by {
            assert(n@ =~= h@.subrange(0, 0));
        }
        return true;
    }
    let end = hlen - nlen + 1;
    let mut i: usize = 0;
    while i < end
        invariant
            hlen == h@.len(),
            nlen == n@.len(),
            0 < nlen <= hlen,
            end == hlen - nlen + 1,
            i <= end,
            forall|k: int| 0 <= k < i ==> !occurs_at(h@, n@, k),
        decreases end - i,
    {
        if occurs_here(h, n, i) {
            return true;
        }
        i += 1;
    }
    assert(!contains_seq(h@, n@)) by {
        assert(forall|k: int| k >= end ==> !occurs_at(h@, n@, k));
    }
    false
}

/// The views of a sequence of strings.
pub open spec fn views_of(v: Seq<String>) -> Seq<Seq<char>> {
    v.map_values(|t: String| t@)
}

/// Splitting `s` at every `sep`, with `cur` the token under construction
/// and `acc` the tokens already produced.
pub open spec fn split_rec(s: Seq<char>, sep: char, cur: Seq<char>, acc: Seq<Seq<char>>) -> Seq<
    Seq<char>,
>
    decreases s.len(),
{
    if s.len() == 0 {
        acc.push(cur)
    } else if s[0] == sep {
        split_rec(s.drop_first(), sep, Seq::empty(), acc.push(cur))
    } else {
        split_rec(s.drop_first(), sep, cur.push(s[0]), acc)
    }
}

/// The tokens of `s` between occurrences of `sep`.  Always non-empty;
/// separators at the edges produce empty tokens, as `str::split` does.
pub open spec fn split_on(s: Seq<char>, sep: char) -> Seq<Seq<char>> {
    split_rec(s, sep, Seq::empty(), Seq::empty())
}

/// Split `s` at every occurrence of `sep`.
pub fn split_char(s: &str, sep: char) -> (parts: Vec<String>)
    ensures
        views_of(parts@) == split_on(s@, sep),
{
    let n = s.unicode_len();
    let mut parts: Vec<String> = Vec::new();
    let mut start: usize = 0;
    let mut i: usize = 0;
    proof {
        assert(views_of(parts@) =~= Seq::<Seq<char>>::empty());
        assert(s@.skip(0) =~= s@);
        assert(s@.subrange(0, 0) =~= Seq::<char>::empty());
    }
    while i < n
        invariant
            n == s@.len(),
            start <= i <= n,
            split_on(s@, sep) == split_rec(
                s@.skip(i as int),
                sep,
                s@.subrange(start as int, i as int),
                views_of(parts@),
            ),
        decreases n - i,
    {
        proof {
            assert(s@.skip(i as int)[0] == s@[i as int]);
            assert(s@.skip(i as int).drop_first() =~= s@.skip(i + 1));
        }
        let c = s.get_char(i);
        if c == sep {
            let ghost old_views = views_of(parts@);
            let tok = String::from_str(s.substring_char(start, i));
            parts.push(tok);
            proof {
                assert(views_of(parts@) =~= old_views.push(s@.subrange(start as int, i as int)));
                assert(s@.subrange(i + 1, i + 1) =~= Seq::<char>::empty());
            }
            start = i + 1;
        } else {
            proof {
                assert(s@.subrange(start as int, i as int).push(s@[i as int]) =~= s@.subrange(
                    start as int,
                    i + 1,
                ));
            }
        }
        i += 1;
    }
    proof {
        assert(s@.skip(n as int) =~= Seq::<char>::empty());
    }
    let ghost old_views = views_of(parts@);
    let tok = String::from_str(s.substring_char(start, n));
    parts.push(tok);
    proof {
        assert(views_of(parts@) =~= old_views.push(s@.subrange(start as int, n as int)));
    }
    parts
}

/// Lines joined by a separator character.
pub open spec fn join_with(lines: Seq<Seq<char>>, sep: char) -> Seq<char>
    decreases lines.len(),
{
    if lines.len() == 0 {
        Seq::empty()
    } else if lines.len() == 1 {
        lines[0]
    } else {
        lines[0] + seq![sep] + join_with(lines.drop_first(), sep)
    }
}

/// Splitting text that is free of the separator yields one token.
pub proof fn lemma_split_no_sep(s: Seq<char>, sep: char, cur: Seq<char>, acc: Seq<Seq<char>>)
    requires
        forall|i: int| 0 <= i < s.len() ==> s[i] != sep,
    ensures
        split_rec(s, sep, cur, acc) == acc.push(cur + s),
    decreases s.len(),
{
    if s.len() == 0 {
        assert(cur + s =~= cur);
    } else {
        lemma_split_no_sep(s.drop_first(), sep, cur.push(s[0]), acc);
        assert(cur.push(s[0]) + s.drop_first() =~= cur + s);
    }
}

/// Splitting through the first separator: the text before it closes
/// the token under construction.
pub proof fn lemma_split_through_sep(
    a: Seq<char>,
    b: Seq<char>,
    sep: char,
    cur: Seq<char>,
    acc: Seq<Seq<char>>,
)
    requires
        forall|i: int| 0 <= i < a.len() ==> a[i] != sep,
    ensures
        split_rec(a + seq![sep] + b, sep, cur, acc) == split_rec(
            b,
            sep,
            Seq::empty(),
            acc.push(cur + a),
        ),
    decreases a.len(),
{
    let s = a + seq![sep] + b;
    if a.len() == 0 {
        assert(s[0] == sep);
        assert(s.drop_first() =~= b);
        assert(cur + a =~= cur);
    } else {
        assert(s[0] == a[0]);
        assert(s.drop_first() =~= a.drop_first() + seq![sep] + b);
        lemma_split_through_sep(a.drop_first(), b, sep, cur.push(a[0]), acc);
        assert(cur.push(a[0]) + a.drop_first() =~= cur + a);
    }
}

proof fn lemma_split_join_rec(lines: Seq<Seq<char>>, sep: char, acc: Seq<Seq<char>>)
    requires
        lines.len() > 0,
        forall|j: int, i: int| 0 <= j < lines.len() && 0 <= i < lines[j].len() ==> #[trigger] lines[j][i] != sep,
    ensures
        split_rec(join_with(lines, sep), sep, Seq::empty(), acc) == acc + lines,
    decreases lines.len(),
{
    if lines.len() == 1 {
        assert(forall|i: int| 0 <= i < lines[0].len() ==> lines[0][i] != sep);
        lemma_split_no_sep(lines[0], sep, Seq::empty(), acc);
        assert(Seq::<char>::empty() + lines[0] =~= lines[0]);
        assert(acc.push(lines[0]) =~= acc + lines);
    } else {
        let tail = lines.drop_first();
        assert(forall|i: int| 0 <= i < lines[0].len() ==> lines[0][i] != sep);
        lemma_split_through_sep(lines[0], join_with(tail, sep), sep, Seq::empty(), acc);
        assert(Seq::<char>::empty() + lines[0] =~= lines[0]);
        assert forall|j: int, i: int|
            0 <= j < tail.len() && 0 <= i < tail[j].len() implies #[trigger] tail[j][i]
            != sep by {
            assert(tail[j] == lines[j + 1]);
        }
        lemma_split_join_rec(tail, sep, acc.push(lines[0]));
        assert(acc.push(lines[0]) + tail =~= acc + lines);
    }
}

/// Splitting is the inverse of joining, for lines that are free of
/// the separator.
pub proof fn lemma_split_join(lines: Seq<Seq<char>>, sep: char)
    requires
        lines.len() > 0,
        forall|j: int, i: int| 0 <= j < lines.len() && 0 <= i < lines[j].len() ==> #[trigger] lines[j][i] != sep,
    ensures
        split_on(join_with(lines, sep), sep) == lines,
{
    lemma_split_join_rec(lines, sep, Seq::empty());
    assert(Seq::<Seq<char>>::empty() + lines =~= lines);
}

/// A split always yields at least one token beyond what was already
/// accumulated.
pub proof fn lemma_split_min_len(s: Seq<char>, sep: char, cur: Seq<char>, acc: Seq<Seq<char>>)
    ensures
        split_rec(s, sep, cur, acc).len() > acc.len(),
    decreases s.len(),
{
    if s.len() == 0 {
    } else if s[0] == sep {
        lemma_split_min_len(s.drop_first(), sep, Seq::empty(), acc.push(cur));
    } else {
        lemma_split_min_len(s.drop_first(), sep, cur.push(s[0]), acc);
    }
}

/// The ASCII whitespace characters.  The status channel's
/// keyword/payload split happens at the first of them, and the
/// key-listing decoder strips them from line edges.
pub open spec fn is_blank_char(c: char) -> bool {
    c == ' ' || c == '\t' || c == '\n' || c == '\u{B}' || c == '\u{C}' || c == '\r'
}

/// Is `c` an ASCII whitespace character?
pub fn blank_char(c: char) -> (r: bool)
    ensures
        r == is_blank_char(c),
{
    c == ' ' || c == '\t' || c == '\n' || c == '\u{B}' || c == '\u{C}' || c == '\r'
}

/// The keyword part of a status line remainder: everything before the
/// first blank character.
pub open spec fn token_of(s: Seq<char>) -> Seq<char>
    decreases s.len(),
{
    if s.len() == 0 {
        Seq::empty()
    } else if is_blank_char(s[0]) {
        Seq::empty()
    } else {
        seq![s[0]] + token_of(s.drop_first())
    }
}

/// The payload part of a status line remainder: everything after the
/// first blank character, or empty if there is none.
pub open spec fn rest_of(s: Seq<char>) -> Seq<char>
    decreases s.len(),
{
    if s.len() == 0 {
        Seq::empty()
    } else if is_blank_char(s[0]) {
        s.drop_first()
    } else {
        rest_of(s.drop_first())
    }
}

/// If the first `i` characters of `s` are not blank and position `i` is
/// blank (or the end), the keyword/payload split falls exactly there.
pub proof fn lemma_split_point(s: Seq<char>, i: int)
    requires
        0 <= i <= s.len(),
        forall|j: int| 0 <= j < i ==> !is_blank_char(s[j]),
        i == s.len() || is_blank_char(s[i]),
    ensures
        token_of(s) == s.subrange(0, i),
        rest_of(s) == if i == s.len() {
            Seq::<char>::empty()
        } else {
            s.subrange(i + 1, s.len() as int)
        },
    decreases i,
{
    if i == 0 {
        assert(s.subrange(0, 0) =~= Seq::<char>::empty());
        if i < s.len() {
            assert(s.subrange(1, s.len() as int) =~= s.drop_first());
        }
    } else {
        lemma_split_point(s.drop_first(), i - 1);
        assert(seq![s[0]] + s.drop_first().subrange(0, i - 1) =~= s.subrange(0, i));
        if i < s.len() {
            assert(s.drop_first().subrange(i, s.drop_first().len() as int) =~= s.subrange(
                i + 1,
                s.len() as int,
            ));
        }
    }
}

/// Split `s` into the part before the first blank character and the part
/// after it (empty if `s` has no blank character).
pub fn split_first_blank(s: &str) -> (r: (String, String))
    ensures
        r.0@ == token_of(s@),
        r.1@ == rest_of(s@),
{
    let n = s.unicode_len();
    let mut i: usize = 0;
    while i < n
        invariant
            n == s@.len(),
            i <= n,
            forall|j: int| 0 <= j < i ==> !is_blank_char(s@[j]),
        decreases n - i,
    {
        let c = s.get_char(i);
        if blank_char(c) {
            proof {
                lemma_split_point(s@, i as int);
            }
            let kw = String::from_str(s.substring_char(0, i));
            let rest = String::from_str(s.substring_char(i + 1, n));
            return (kw, rest);
        }
        i += 1;
    }
    proof {
        lemma_split_point(s@, n as int);
        assert(s@.subrange(0, n as int) =~= s@);
    }
    (String::from_str(s.substring_char(0, n)), String::new())
}

/// The characters stripped from the edges of a key-listing line: the
/// ASCII whitespace characters.
pub open spec fn is_trim_char(c: char) -> bool {
    is_blank_char(c)
}

/// `s` without leading trim characters.
pub open spec fn trim_start_spec(s: Seq<char>) -> Seq<char>
    decreases s.len(),
{
    if s.len() > 0 && is_trim_char(s[0]) {
        trim_start_spec(s.drop_first())
    } else {
        s
    }
}

/// `s` without trailing trim characters.
pub open spec fn trim_end_spec(s: Seq<char>) -> Seq<char>
    decreases s.len(),
{
    if s.len() > 0 && is_trim_char(s.last()) {
        trim_end_spec(s.drop_last())
    } else {
        s
    }
}

/// `s` without leading and trailing trim characters.
pub open spec fn trim_spec(s: Seq<char>) -> Seq<char> {
    trim_end_spec(trim_start_spec(s))
}

proof fn lemma_trim_start(s: Seq<char>, a: int)
    requires
        0 <= a <= s.len(),
        forall|j: int| 0 <= j < a ==> is_trim_char(s[j]),
        a == s.len() || !is_trim_char(s[a]),
    ensures
        trim_start_spec(s) == s.skip(a),
    decreases a,
{
    if a == 0 {
        assert(s.skip(0) =~= s);
    } else {
        lemma_trim_start(s.drop_first(), a - 1);
        assert(s.drop_first().skip(a - 1) =~= s.skip(a));
    }
}

proof fn lemma_trim_end(s: Seq<char>, b: int)
    requires
        0 <= b <= s.len(),
        forall|j: int| b <= j < s.len() ==> is_trim_char(s[j]),
        b == 0 || !is_trim_char(s[b - 1]),
    ensures
        trim_end_spec(s) == s.take(b),
    decreases s.len() - b,
{
    if b == s.len() {
        assert(s.take(b) =~= s);
    } else {
        lemma_trim_end(s.drop_last(), b);
        assert(s.drop_last().take(b) =~= s.take(b));
    }
}

/// Strip leading and trailing blank, carriage-return and newline
/// characters from `s`.
pub fn trim_str(s: &str) -> (r: String)
    ensures
        r@ == trim_spec(s@),
{
    let n = s.unicode_len();
    let mut a: usize = 0;
    while a < n
        invariant
            n == s@.len(),
            a <= n,
            forall|j: int| 0 <= j < a ==> is_trim_char(s@[j]),
        ensures
            a <= n,
            forall|j: int| 0 <= j < a ==> is_trim_char(s@[j]),
            a == n || !is_trim_char(s@[a as int]),
        decreases n - a,
    {
        let c = s.get_char(a);
        if !blank_char(c) {
            break;
        }
        a += 1;
    }
    proof {
        lemma_trim_start(s@, a as int);
    }
    if a == n {
        proof {
            assert(s@.skip(a as int) =~= Seq::<char>::empty());
        }
        return String::new();
    }
    let mut b: usize = n;
    while b > a + 1
        invariant
            n == s@.len(),
            a < b <= n,
            forall|j: int| b <= j < n ==> is_trim_char(s@[j]),
        ensures
            a < b <= n,
            forall|j: int| b <= j < n ==> is_trim_char(s@[j]),
            b == a + 1 || !is_trim_char(s@[b - 1]),
        decreases b,
    {
        let c = s.get_char(b - 1);
        if !blank_char(c) {
            break;
        }
        b -= 1;
    }
    proof {
        let t = s@.skip(a as int);
        assert(t[b - 1 - a as int] == s@[b - 1]);
        lemma_trim_end(t, b - a as int);
        assert(t.take(b - a as int) =~= s@.subrange(a as int, b as int));
    }
    String::from_str(s.substring_char(a, b))
}

/// Decimal digit characters.
pub open spec fn is_digit_char(c: char) -> bool {
    '0' <= c && c <= '9'
}

/// The character for the decimal digit `d`.
pub open spec fn digit_char(d: nat) -> char {
    ((d + 48) as u8) as char
}

/// The numeric value of a digit character.
pub open spec fn digit_val(c: char) -> nat {
    if is_digit_char(c) {
        (c as u32 - 48) as nat
    } else {
        0
    }
}

/// The decimal representation of `n`, without leading zeros.
pub open spec fn dec_rep(n: nat) -> Seq<char>
    decreases n,
{
    if n < 10 {
        seq![digit_char(n)]
    } else {
        dec_rep(n / 10).push(digit_char(n % 10))
    }
}

/// The numeric value of a digit string.
pub open spec fn dec_val(s: Seq<char>) -> nat
    decreases s.len(),
{
    if s.len() == 0 {
        0
    } else {
        dec_val(s.drop_last()) * 10 + digit_val(s.last())
    }
}

/// A one-character string for the decimal digit `d`.
fn digit_str(d: u8) -> (s: &'static str)
    requires
        d < 10,
    ensures
        s@ == seq![digit_char(d as nat)],
{
    proof {
        reveal_strlit("0");
        reveal_strlit("1");
        reveal_strlit("2");
        reveal_strlit("3");
        reveal_strlit("4");
        reveal_strlit("5");
        reveal_strlit("6");
        reveal_strlit("7");
        reveal_strlit("8");
        reveal_strlit("9");
    }
    match d {
        0 => {
            proof {
                assert("0"@ =~= seq![digit_char(0)]);
            }
            "0"
        },
        1 => {
            proof {
                assert("1"@ =~= seq![digit_char(1)]);
            }
            "1"
        },
        2 => {
            proof {
                assert("2"@ =~= seq![digit_char(2)]);
            }
            "2"
        },
        3 => {
            proof {
                assert("3"@ =~= seq![digit_char(3)]);
            }
            "3"
        },
        4 => {
            proof {
                assert("4"@ =~= seq![digit_char(4)]);
            }
            "4"
        },
        5 => {
            proof {
                assert("5"@ =~= seq![digit_char(5)]);
            }
            "5"
        },
        6 => {
            proof {
                assert("6"@ =~= seq![digit_char(6)]);
            }
            "6"
        },
        7 => {
            proof {
                assert("7"@ =~= seq![digit_char(7)]);
            }
            "7"
        },
        8 => {
            proof {
                assert("8"@ =~= seq![digit_char(8)]);
            }
            "8"
        },
        _ => {
            proof {
                assert("9"@ =~= seq![digit_char(9)]);
            }
            "9"
        },
    }
}

/// The decimal representation of `n` as a string.
pub fn u8_to_dec(n: u8) -> (r: String)
    ensures
        r@ == dec_rep(n as nat),
{
    if n < 10 {
        String::from_str(digit_str(n))
    } else if n < 100 {
        let mut r = String::from_str(digit_str(n / 10));
        r.append(digit_str(n % 10));
        proof {
            let nn = n as nat;
            assert(dec_rep(nn / 10) =~= seq![digit_char(nn / 10)]);
            assert(r@ =~= dec_rep(nn));
        }
        r
    } else {
        let mut r = String::from_str(digit_str(n / 100));
        r.append(digit_str((n / 10) % 10));
        r.append(digit_str(n % 10));
        proof {
            let nn = n as nat;
            vstd::arithmetic::div_mod::lemma_div_denominator(nn as int, 10, 10);
            assert(nn / 10 / 10 == nn / 100);
            assert(dec_rep(nn / 100) =~= seq![digit_char(nn / 100)]);
            assert(dec_rep(nn / 10) =~= seq![digit_char(nn / 100), digit_char((nn / 10) % 10)]);
            assert(r@ =~= dec_rep(nn));
        }
        r
    }
}

} // verus!

