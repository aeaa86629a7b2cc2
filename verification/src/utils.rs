//! The listing decode driver and small argument helpers.

use vstd::prelude::*;

use crate::listkey::{
    append_step, init_list_state, key_views_of, list_step, recognized_keyword, result_of,
    DecodeSt, ListKey, ListKeyResult, ListKeyResultV,
};
use crate::response::CmdResult;
use crate::text::{split_char, split_on, str_eq, trim_spec, trim_str, views_of};

verus! {

broadcast use vstd::string::group_string_axioms;

/// The keyword and columns of one listing line, after trimming.
pub open spec fn line_cols(line: Seq<char>) -> Seq<Seq<char>> {
    split_on(trim_spec(line), ':')
}

/// One line of a listing, folded into the decode state: a recurring
/// `pub`/`sec` keyword first finalizes the current record and clears
/// the seen-keyword set; a recognized keyword is then dispatched and
/// remembered.
pub open spec fn decode_line_step(st: DecodeSt, line: Seq<char>) -> DecodeSt {
    let cols = line_cols(line);
    let kw = cols[0];
    let st1 = if st.processed.contains(kw) && (kw == "pub"@ || kw == "sec"@) {
        DecodeSt { lk: append_step(st.lk), processed: Seq::empty() }
    } else {
        st
    };
    if recognized_keyword(kw) {
        DecodeSt { lk: list_step(st1.lk, kw, cols), processed: st1.processed.push(kw) }
    } else {
        st1
    }
}

/// A sequence of listing lines folded into the decode state, oldest
/// first.
pub open spec fn decode_fold(st: DecodeSt, lines: Seq<Seq<char>>) -> DecodeSt
    decreases lines.len(),
{
    if lines.len() == 0 {
        st
    } else {
        decode_fold(decode_line_step(st, lines[0]), lines.drop_first())
    }
}

/// The prefix of `lines` before the first line that is blank after
/// trimming; a blank line ends the listing early.
pub open spec fn lines_until_blank(lines: Seq<Seq<char>>) -> Seq<Seq<char>>
    decreases lines.len(),
{
    if lines.len() == 0 {
        Seq::empty()
    } else if trim_spec(lines[0]).len() == 0 {
        Seq::empty()
    } else {
        seq![lines[0]] + lines_until_blank(lines.drop_first())
    }
}

/// The fresh decode state.
pub open spec fn init_decode_state() -> DecodeSt {
    DecodeSt { lk: init_list_state(), processed: Seq::empty() }
}

/// The records decoded from a raw listing: its lines up to the first
/// blank one are folded through the decoder, the final record is
/// appended unconditionally, and the record list is returned.
pub open spec fn decode_listing(raw: Seq<char>) -> Seq<ListKeyResultV> {
    let lines = lines_until_blank(split_on(raw, '\n'));
    let st = decode_fold(init_decode_state(), lines);
    result_of(append_step(st.lk))
}

/// The raw output of an outcome, or nothing.
pub open spec fn raw_or_empty(o: Option<Seq<char>>) -> Seq<char> {
    match o {
        Option::None => Seq::empty(),
        Option::Some(r) => r,
    }
}

proof fn lemma_decode_fold_snoc(st: DecodeSt, lines: Seq<Seq<char>>, i: int)
    requires
        0 <= i < lines.len(),
    ensures
        decode_fold(st, lines.take(i + 1)) == decode_line_step(
            decode_fold(st, lines.take(i)),
            lines[i],
        ),
    decreases i,
{
    if i == 0 {
        let st1 = decode_line_step(st, lines[0]);
        let single = seq![lines[0]];
        assert(lines.take(0) =~= Seq::<Seq<char>>::empty());
        assert(lines.take(1) =~= single);
        assert(decode_fold(st, lines.take(0)) == st);
        assert(single.len() == 1 && single[0] == lines[0]);
        assert(single.drop_first() =~= Seq::<Seq<char>>::empty());
        assert(decode_fold(st, single) == decode_fold(st1, single.drop_first()));
        assert(decode_fold(st1, single.drop_first()) == st1);
    } else {
        let st1 = decode_line_step(st, lines[0]);
        let tail = lines.drop_first();
        lemma_decode_fold_snoc(st1, tail, i - 1);
        assert(decode_fold(st, lines.take(i + 1)) == decode_fold(st1, tail.take(i))) by {
            assert(lines.take(i + 1)[0] == lines[0]);
            assert(lines.take(i + 1).drop_first() =~= tail.take(i));
        }
        assert(decode_fold(st, lines.take(i)) == decode_fold(st1, tail.take(i - 1))) by {
            assert(lines.take(i)[0] == lines[0]);
            assert(lines.take(i).drop_first() =~= tail.take(i - 1));
        }
        assert(tail[i - 1] == lines[i]);
    }
}

proof fn lemma_lines_until_blank_take(lines: Seq<Seq<char>>, i: int)
    requires
        0 <= i <= lines.len(),
        forall|j: int| 0 <= j < i ==> trim_spec(#[trigger] lines[j]).len() > 0,
        i == lines.len() || trim_spec(lines[i]).len() == 0,
    ensures
        lines_until_blank(lines) == lines.take(i),
    decreases i,
{
    if i == 0 {
        assert(lines.take(0) =~= Seq::<Seq<char>>::empty());
    } else {
        lemma_lines_until_blank_take(lines.drop_first(), i - 1);
        assert(trim_spec(lines[0]).len() > 0);
        assert(seq![lines[0]] + lines.drop_first().take(i - 1) =~= lines.take(i));
    }
}

/// Is `s` one of the strings in `v`?
fn vec_contains_str(v: &Vec<String>, s: &str) -> (r: bool)
    ensures
        r == views_of(v@).contains(s@),
{
    let mut i: usize = 0;
    while i < v.len()
        invariant
            i <= v@.len(),
            forall|j: int| 0 <= j < i ==> views_of(v@)[j] != s@,
        decreases v@.len() - i,
    {
        if str_eq(v[i].as_str(), s) {
            assert(views_of(v@)[i as int] == s@);
            return true;
        }
        i += 1;
    }
    false
}

/// Does the listing decoder react to this keyword?
fn is_recognized(kw: &str) -> (r: bool)
    ensures
        r == recognized_keyword(kw@),
{
    str_eq(kw, "pub") || str_eq(kw, "uid") || str_eq(kw, "sec") || str_eq(kw, "fpr") || str_eq(
        kw,
        "sub",
    ) || str_eq(kw, "ssb") || str_eq(kw, "sig") || str_eq(kw, "grp")
}

/// Decode the colon-delimited key listing in `result`'s raw output
/// into its key records.
pub fn decode_list_key_result(result: CmdResult) -> (r: Vec<ListKeyResult>)
    ensures
        key_views_of(r@) == decode_listing(raw_or_empty(result@.raw_data)),
{
    let raw: String = match result.get_raw_data() {
        Option::Some(d) => d,
        Option::None => String::new(),
    };
    let lines = split_char(raw.as_str(), '\n');
    let ghost lviews = views_of(lines@);
    let ghost st0 = init_decode_state();
    let mut processed: Vec<String> = Vec::new();
    let mut r = ListKey::init();
    let mut i: usize = 0;
    proof {
        assert(lviews.take(0) =~= Seq::<Seq<char>>::empty());
        assert(views_of(processed@) =~= Seq::<Seq<char>>::empty());
    }
    while i < lines.len()
        invariant
            lviews == views_of(lines@),
            i <= lviews.len(),
            lines@.len() == lviews.len(),
            forall|j: int| 0 <= j < i ==> trim_spec(#[trigger] lviews[j]).len() > 0,
            (DecodeSt { lk: r@, processed: views_of(processed@) }) == decode_fold(
                st0,
                lviews.take(i as int),
            ),
        ensures
            i <= lviews.len(),
            forall|j: int| 0 <= j < i ==> trim_spec(#[trigger] lviews[j]).len() > 0,
            i == lviews.len() || trim_spec(lviews[i as int]).len() == 0,
            (DecodeSt { lk: r@, processed: views_of(processed@) }) == decode_fold(
                st0,
                lviews.take(i as int),
            ),
        decreases lviews.len() - i,
    {
        let l = trim_str(lines[i].as_str());
        if l.as_str().unicode_len() == 0 {
            break;
        }
        proof {
            lemma_decode_fold_snoc(st0, lviews, i as int);
        }
        let ghost pre_st = DecodeSt { lk: r@, processed: views_of(processed@) };
        let cols = split_char(l.as_str(), ':');
        proof {
            crate::text::lemma_split_min_len(l@, ':', Seq::empty(), Seq::empty());
            assert(views_of(cols@) == line_cols(lviews[i as int]));
        }
        let kw = cols[0].as_str();
        proof {
            assert(kw@ == line_cols(lviews[i as int])[0]);
        }
        if vec_contains_str(&processed, kw) && (str_eq(kw, "pub") || str_eq(kw, "sec")) {
            processed.clear();
            r.append_result();
            proof {
                assert(views_of(processed@) =~= Seq::<Seq<char>>::empty());
            }
        }
        if is_recognized(kw) {
            let kw_string = cols[0].clone();
            r.call_method(kw_string.as_str(), &cols);
            let ghost pre_proc = views_of(processed@);
            processed.push(kw_string);
            proof {
                assert(views_of(processed@) =~= pre_proc.push(
                    line_cols(lviews[i as int])[0],
                ));
            }
        }
        i += 1;
    }
    proof {
        lemma_lines_until_blank_take(lviews, i as int);
        assert(raw_or_empty(result@.raw_data) == raw@);
    }
    r.append_result();
    r.get_list_key_result()
}

/// A passphrase is valid when it contains no newline, carriage return
/// or NUL character.
pub open spec fn passphrase_valid(p: Seq<char>) -> bool {
    !p.contains('\n') && !p.contains('\r') && !p.contains('\u{0}')
}

/// Check that a passphrase is free of line breaks and NUL characters.
pub fn is_passphrase_valid(passphrase: &str) -> (r: bool)
    ensures
        r == passphrase_valid(passphrase@),
{
    let n = passphrase.unicode_len();
    let mut i: usize = 0;
    while i < n
        invariant
            n == passphrase@.len(),
            i <= n,
            forall|j: int| 0 <= j < i ==> passphrase@[j] != '\n' && passphrase@[j] != '\r'
                && passphrase@[j] != '\u{0}',
        decreases n - i,
    {
        let c = passphrase.get_char(i);
        if c == '\n' || c == '\r' || c == '\u{0}' {
            return false;
        }
        i += 1;
    }
    proof {
        assert(!passphrase@.contains('\n'));
        assert(!passphrase@.contains('\r'));
        assert(!passphrase@.contains('\u{0}'));
    }
    true
}

/// The argument-vector suffix that routes output to `output`: a
/// confirmation-suppressing flag first when the output path already
/// exists, then the output flag and the path.
pub open spec fn output_args(pre: Seq<Seq<char>>, output: Seq<char>, exists_already: bool) -> Seq<
    Seq<char>,
> {
    let with_yes = if exists_already {
        pre.push("--yes"@)
    } else {
        pre
    };
    with_yes.push("--output"@).push(output)
}

/// Append the output-selection arguments.  `output_exists` says
/// whether the output path is already present on disk; the caller
/// performs that check.
pub fn set_output_without_confirmation(args: &mut Vec<String>, output: &str, output_exists: bool)
    ensures
        views_of(final(args)@) == output_args(views_of(old(args)@), output@, output_exists),
{
    let ghost pre = views_of(args@);
    if output_exists {
        args.push(String::from_str("--yes"));
    }
    let ghost with_yes = views_of(args@);
    proof {
        assert(with_yes =~= if output_exists { pre.push("--yes"@) } else { pre });
    }
    args.push(String::from_str("--output"));
    args.push(String::from_str(output));
    proof {
        assert(views_of(args@) =~= with_yes.push("--output"@).push(output@));
    }
}

/// The characters of `s` after its last occurrence of `c` (all of `s`
/// when `c` does not occur).
pub open spec fn after_last(s: Seq<char>, c: char) -> Seq<char>
    decreases s.len(),
{
    if s.len() == 0 {
        s
    } else if s.last() == c {
        Seq::empty()
    } else {
        after_last(s.drop_last(), c).push(s.last())
    }
}

/// The extension a produced file gets for an input path: the part of
/// the path's final component after its last dot, unless that dot is
/// missing or leads the component, or the component is the
/// parent-directory marker, in which case the engine's default
/// extension is used.
pub open spec fn extension_of(path: Seq<char>) -> Seq<char> {
    let name = after_last(path, '/');
    let tail = after_last(name, '.');
    if name == ".."@ {
        "gpg"@
    } else if name.len() >= tail.len() + 2 {
        tail
    } else {
        "gpg"@
    }
}

proof fn lemma_after_last(s: Seq<char>, c: char, k: int)
    requires
        0 <= k <= s.len(),
        forall|j: int| k <= j < s.len() ==> s[j] != c,
        k == 0 || s[k - 1] == c,
    ensures
        after_last(s, c) == s.skip(k),
    decreases s.len(),
{
    if s.len() == 0 {
        assert(s.skip(0) =~= s);
    } else if k == s.len() {
        assert(s.last() == c);
        assert(s.skip(k) =~= Seq::<char>::empty());
    } else {
        assert(s.last() != c);
        lemma_after_last(s.drop_last(), c, k);
        assert(s.drop_last().skip(k).push(s.last()) =~= s.skip(k));
    }
}

/// Position just after the last occurrence of `c` in `s` (0 when `c`
/// does not occur).
fn find_after_last(s: &str, c: char) -> (k: usize)
    ensures
        k <= s@.len(),
        after_last(s@, c) == s@.skip(k as int),
        forall|j: int| k <= j < s@.len() ==> s@[j] != c,
        k == 0 || s@[k - 1] == c,
{
    let n = s.unicode_len();
    let mut j: usize = n;
    while j > 0
        invariant
            n == s@.len(),
            j <= n,
            forall|i: int| j <= i < n ==> s@[i] != c,
        ensures
            j <= n,
            forall|i: int| j <= i < n ==> s@[i] != c,
            j == 0 || s@[j - 1] == c,
        decreases j,
    {
        if s.get_char(j - 1) == c {
            break;
        }
        j -= 1;
    }
    proof {
        lemma_after_last(s@, c, j as int);
    }
    j
}

/// The output-file extension for an optional input path: taken from
/// the path's final component, with the engine's default when no path
/// or no usable dot is given.
pub fn get_file_extension(file_path: Option<String>) -> (r: String)
    ensures
        r@ == match file_path {
            Option::None => "gpg"@,
            Option::Some(p) => extension_of(p@),
        },
{
    match file_path {
        Option::None => String::from_str("gpg"),
        Option::Some(p) => {
            let s = p.as_str();
            let n = s.unicode_len();
            let slash = find_after_last(s, '/');
            let dot = find_after_last(s, '.');
            proof {
                reveal_strlit("..");
                let name = after_last(s@, '/');
                assert(name == s@.skip(slash as int));
                if dot > slash {
                    // the last dot lies inside the final component
                    assert(after_last(name, '.') == name.skip(dot - slash as int)) by {
                        lemma_after_last(name, '.', dot - slash as int);
                    }
                    assert(name.skip(dot - slash as int) =~= s@.skip(dot as int));
                } else {
                    // the final component has no dot at all
                    assert(after_last(name, '.') == name.skip(0)) by {
                        lemma_after_last(name, '.', 0);
                    }
                    assert(name.skip(0) =~= name);
                }
            }
            let is_parent = n - slash == 2 && s.get_char(slash) == '.' && s.get_char(n - 1)
                == '.';
            proof {
                let name = after_last(s@, '/');
                if is_parent {
                    assert(name =~= ".."@);
                } else {
                    assert(name != ".."@) by {
                        if name == ".."@ {
                            assert(name.len() == 2);
                            assert(name[0] == s@[slash as int]);
                            assert(name[1] == s@[slash + 1]);
                        }
                    }
                }
            }
            if is_parent {
                String::from_str("gpg")
            } else if dot > slash && dot - 1 > slash {
                String::from_str(s.substring_char(dot, n))
            } else {
                String::from_str("gpg")
            }
        },
    }
}

proof fn lemma_fold_unrecognized(st: DecodeSt, lines: Seq<Seq<char>>)
    requires
        forall|j: int|
            0 <= j < lines.len() ==> !recognized_keyword(line_cols(#[trigger] lines[j])[0]),
    ensures
        decode_fold(st, lines) == st,
    decreases lines.len(),
{
    if lines.len() > 0 {
        assert(!recognized_keyword(line_cols(lines[0])[0]));
        assert(decode_line_step(st, lines[0]) == st);
        let tail = lines.drop_first();
        assert forall|j: int|
            0 <= j < tail.len() implies !recognized_keyword(line_cols(#[trigger] tail[j])[0]) by {
            assert(tail[j] == lines[j + 1]);
        }
        lemma_fold_unrecognized(st, tail);
    }
}

/// A listing in which no line up to the first blank one carries a
/// recognized keyword decodes to no records.
pub proof fn lemma_unrecognized_yields_empty(raw: Seq<char>)
    requires
        forall|j: int|
            0 <= j < lines_until_blank(split_on(raw, '\n')).len() ==> !recognized_keyword(
                line_cols(#[trigger] lines_until_blank(split_on(raw, '\n'))[j])[0],
            ),
    ensures
        decode_listing(raw) == Seq::<ListKeyResultV>::empty(),
{
    lemma_fold_unrecognized(init_decode_state(), lines_until_blank(split_on(raw, '\n')));
}

proof fn lemma_two_pub_records_fold(l1: Seq<char>, l2: Seq<char>)
    requires
        line_cols(l1)[0] == "pub"@,
        line_cols(l2)[0] == "pub"@,
        crate::listkey::col_or_unavailable(line_cols(l1), 9).len() > 0,
        crate::listkey::col_or_unavailable(line_cols(l2), 9).len() > 0,
    ensures
        ({
            let recs = result_of(append_step(decode_fold(init_decode_state(), seq![l1, l2]).lk));
            &&& recs.len() == 2
            &&& recs[0].subkeys.len() == 0
            &&& recs[1].subkeys.len() == 0
            &&& recs[0].uids.len() >= 1
            &&& recs[1].uids.len() >= 1
            &&& recs[0].keyid == crate::listkey::col_or_unavailable(line_cols(l1), 4)
            &&& recs[1].keyid == crate::listkey::col_or_unavailable(line_cols(l2), 4)
        }),
{
    let lines = seq![l1, l2];
    let st0 = init_decode_state();
    let st1 = decode_line_step(st0, l1);
    let st2 = decode_line_step(st1, l2);
    assert(lines.drop_first() =~= seq![l2]);
    assert(seq![l2].drop_first() =~= Seq::<Seq<char>>::empty());
    assert(lines[0] == l1 && seq![l2][0] == l2);
    assert(decode_fold(st0, lines) == decode_fold(st1, seq![l2]));
    assert(decode_fold(st1, seq![l2]) == decode_fold(st2, Seq::<Seq<char>>::empty()));
    assert(decode_fold(st2, Seq::<Seq<char>>::empty()) == st2);
    let kw1 = line_cols(l1)[0];
    let kw2 = line_cols(l2)[0];
    assert(recognized_keyword(kw1));
    assert(!st0.processed.contains(kw1));
    assert(st1.processed == seq!["pub"@]);
    assert(st1.processed.contains(kw2)) by {
        assert(st1.processed[0] == "pub"@);
    }
    let k1 = st1.lk.curkey.unwrap();
    assert(k1.uids.len() == 1 && k1.subkeys.len() == 0);
    let k2 = st2.lk.curkey.unwrap();
    assert(k2.uids.len() == 1 && k2.subkeys.len() == 0);
    assert(st2.lk.key_list == Option::Some(seq![k1]));
    let recs = result_of(append_step(st2.lk));
    assert(recs == seq![k1].push(k2));
    assert(recs[0] == k1 && recs[1] == k2);
}

proof fn lemma_subkey_grouping_fold(
    lp: Seq<char>,
    lu: Seq<char>,
    lf1: Seq<char>,
    ls: Seq<char>,
    lf2: Seq<char>,
    lg: Seq<char>,
)
    requires
        line_cols(lp)[0] == "pub"@,
        line_cols(lu)[0] == "uid"@,
        line_cols(lf1)[0] == "fpr"@,
        line_cols(ls)[0] == "sub"@,
        line_cols(lf2)[0] == "fpr"@,
        line_cols(lg)[0] == "grp"@,
        crate::listkey::col_or_unavailable(line_cols(lp), 9).len() > 0,
    ensures
        ({
            let lines = seq![lp, lu, lf1, ls, lf2, lg];
            let recs = result_of(append_step(decode_fold(init_decode_state(), lines).lk));
            &&& recs.len() == 1
            &&& recs[0].uids.len() == 2
            &&& recs[0].subkeys.len() == 1
            &&& recs[0].fingerprint == crate::listkey::col_or_unavailable(line_cols(lf1), 9)
            &&& recs[0].subkeys[0].fingerprint == crate::listkey::col_or_unavailable(
                line_cols(lf2),
                9,
            )
            &&& recs[0].subkeys[0].keygrip == crate::listkey::col_or_unavailable(line_cols(lg), 9)
            &&& recs[0].keygrip == crate::listkey::unavailable()
            &&& recs[0].uids[0] == crate::listkey::col_or_unavailable(line_cols(lp), 9)
            &&& recs[0].uids[1] == crate::listkey::col_or_unavailable(line_cols(lu), 9)
        }),
{
    reveal_strlit("pub");
    reveal_strlit("sec");
    reveal_strlit("uid");
    reveal_strlit("fpr");
    reveal_strlit("sub");
    reveal_strlit("ssb");
    reveal_strlit("sig");
    reveal_strlit("grp");
    let lines = seq![lp, lu, lf1, ls, lf2, lg];
    let st0 = init_decode_state();
    let st1 = decode_line_step(st0, lp);
    let st2 = decode_line_step(st1, lu);
    let st3 = decode_line_step(st2, lf1);
    let st4 = decode_line_step(st3, ls);
    let st5 = decode_line_step(st4, lf2);
    let st6 = decode_line_step(st5, lg);
    let t1 = seq![lu, lf1, ls, lf2, lg];
    let t2 = seq![lf1, ls, lf2, lg];
    let t3 = seq![ls, lf2, lg];
    let t4 = seq![lf2, lg];
    let t5 = seq![lg];
    assert(lines.drop_first() =~= t1);
    assert(t1.drop_first() =~= t2);
    assert(t2.drop_first() =~= t3);
    assert(t3.drop_first() =~= t4);
    assert(t4.drop_first() =~= t5);
    assert(t5.drop_first() =~= Seq::<Seq<char>>::empty());
    assert(decode_fold(st0, lines) == decode_fold(st1, t1));
    assert(decode_fold(st1, t1) == decode_fold(st2, t2));
    assert(decode_fold(st2, t2) == decode_fold(st3, t3));
    assert(decode_fold(st3, t3) == decode_fold(st4, t4));
    assert(decode_fold(st4, t4) == decode_fold(st5, t5));
    assert(decode_fold(st5, t5) == decode_fold(st6, Seq::<Seq<char>>::empty()));
    assert(decode_fold(st6, Seq::<Seq<char>>::empty()) == st6);
    // literal keywords are pairwise distinct once revealed
    assert("pub"@ =~= seq!['p', 'u', 'b']);
    assert("sec"@ =~= seq!['s', 'e', 'c']);
    assert("uid"@ =~= seq!['u', 'i', 'd']);
    assert("fpr"@ =~= seq!['f', 'p', 'r']);
    assert("sub"@ =~= seq!['s', 'u', 'b']);
    assert("ssb"@ =~= seq!['s', 's', 'b']);
    assert("sig"@ =~= seq!['s', 'i', 'g']);
    assert("grp"@ =~= seq!['g', 'r', 'p']);
    assert("uid"@ != "pub"@ && "uid"@ != "sec"@ && "uid"@ != "fpr"@ && "uid"@ != "sub"@ && "uid"@
        != "ssb"@ && "uid"@ != "sig"@ && "uid"@ != "grp"@) by {
        assert("uid"@[0] == 'u' && "uid"@[1] == 'i' && "uid"@[2] == 'd');
    }
    assert("fpr"@ != "pub"@ && "fpr"@ != "sec"@ && "fpr"@ != "sub"@ && "fpr"@ != "ssb"@ && "fpr"@
        != "sig"@ && "fpr"@ != "grp"@) by {
        assert("fpr"@[0] == 'f');
    }
    assert("sub"@ != "pub"@ && "sub"@ != "sec"@ && "sub"@ != "ssb"@ && "sub"@ != "sig"@ && "sub"@
        != "grp"@) by {
        assert("sub"@[0] == 's' && "sub"@[1] == 'u' && "sub"@[2] == 'b');
        assert("sec"@[1] == 'e' && "ssb"@[1] == 's' && "sig"@[1] == 'i');
    }
    assert("grp"@ != "pub"@ && "grp"@ != "sec"@ && "grp"@ != "sub"@ && "grp"@ != "ssb"@ && "grp"@
        != "sig"@) by {
        assert("grp"@[0] == 'g');
    }
    let k1 = st1.lk.curkey.unwrap();
    assert(k1.uids.len() == 1 && k1.subkeys.len() == 0);
    assert(!st1.lk.in_subkey);
    let k2 = st2.lk.curkey.unwrap();
    assert(k2.uids.len() == 2 && k2.subkeys.len() == 0);
    let k3 = st3.lk.curkey.unwrap();
    assert(k3.fingerprint == crate::listkey::col_or_unavailable(line_cols(lf1), 9));
    assert(k3.uids.len() == 2 && k3.subkeys.len() == 0);
    let k4 = st4.lk.curkey.unwrap();
    assert(k4.subkeys.len() == 1 && st4.lk.in_subkey);
    let k5 = st5.lk.curkey.unwrap();
    assert(k5.subkeys.len() == 1);
    assert(k5.subkeys[0].fingerprint == crate::listkey::col_or_unavailable(line_cols(lf2), 9)) by {
        assert(k4.subkeys.last() == k4.subkeys[0]);
    }
    let k6 = st6.lk.curkey.unwrap();
    assert(k6.subkeys.len() == 1);
    assert(k6.subkeys[0].keygrip == crate::listkey::col_or_unavailable(line_cols(lg), 9)) by {
        assert(k5.subkeys.last() == k5.subkeys[0]);
    }
    assert(k6.subkeys[0].fingerprint == crate::listkey::col_or_unavailable(line_cols(lf2), 9));
    assert(k6.fingerprint == crate::listkey::col_or_unavailable(line_cols(lf1), 9));
    assert(k6.keygrip == crate::listkey::unavailable());
    assert(st6.lk.key_list == Option::Some(Seq::<ListKeyResultV>::empty()));
    let recs = result_of(append_step(st6.lk));
    assert(recs == Seq::<ListKeyResultV>::empty().push(k6));
    assert(recs[0] == k6);
}

proof fn lemma_two_pub_uid_fold(l1: Seq<char>, u1: Seq<char>, l2: Seq<char>, u2: Seq<char>)
    requires
        line_cols(l1)[0] == "pub"@,
        line_cols(u1)[0] == "uid"@,
        line_cols(l2)[0] == "pub"@,
        line_cols(u2)[0] == "uid"@,
    ensures
        ({
            let recs = result_of(
                append_step(decode_fold(init_decode_state(), seq![l1, u1, l2, u2]).lk),
            );
            &&& recs.len() == 2
            &&& recs[0].subkeys.len() == 0
            &&& recs[1].subkeys.len() == 0
            &&& recs[0].uids.len() >= 1
            &&& recs[1].uids.len() >= 1
            &&& recs[0].keyid == crate::listkey::col_or_unavailable(line_cols(l1), 4)
            &&& recs[1].keyid == crate::listkey::col_or_unavailable(line_cols(l2), 4)
        }),
{
    reveal_strlit("pub");
    reveal_strlit("sec");
    reveal_strlit("uid");
    assert("pub"@ =~= seq!['p', 'u', 'b']);
    assert("sec"@ =~= seq!['s', 'e', 'c']);
    assert("uid"@ =~= seq!['u', 'i', 'd']);
    assert("uid"@ != "pub"@ && "uid"@ != "sec"@) by {
        assert("uid"@[0] == 'u' && "pub"@[0] == 'p' && "sec"@[0] == 's');
    }
    let lines = seq![l1, u1, l2, u2];
    let st0 = init_decode_state();
    let st1 = decode_line_step(st0, l1);
    let st2 = decode_line_step(st1, u1);
    let st3 = decode_line_step(st2, l2);
    let st4 = decode_line_step(st3, u2);
    let t1 = seq![u1, l2, u2];
    let t2 = seq![l2, u2];
    let t3 = seq![u2];
    assert(lines.drop_first() =~= t1);
    assert(t1.drop_first() =~= t2);
    assert(t2.drop_first() =~= t3);
    assert(t3.drop_first() =~= Seq::<Seq<char>>::empty());
    assert(decode_fold(st0, lines) == decode_fold(st1, t1));
    assert(decode_fold(st1, t1) == decode_fold(st2, t2));
    assert(decode_fold(st2, t2) == decode_fold(st3, t3));
    assert(decode_fold(st3, t3) == decode_fold(st4, Seq::<Seq<char>>::empty()));
    assert(decode_fold(st4, Seq::<Seq<char>>::empty()) == st4);
    assert(!st0.processed.contains(line_cols(l1)[0]));
    assert(st1.processed == seq!["pub"@]);
    let k1 = st2.lk.curkey.unwrap();
    assert(k1.uids.len() >= 1 && k1.subkeys.len() == 0);
    assert(k1.keyid == crate::listkey::col_or_unavailable(line_cols(l1), 4));
    assert(st2.processed == seq!["pub"@, "uid"@]);
    assert(st2.processed.contains("pub"@)) by {
        assert(st2.processed[0] == "pub"@);
    }
    assert(st3.lk.key_list == Option::Some(seq![k1]));
    assert(st3.processed == seq!["pub"@]);
    let k2 = st4.lk.curkey.unwrap();
    assert(k2.uids.len() >= 1 && k2.subkeys.len() == 0);
    assert(k2.keyid == crate::listkey::col_or_unavailable(line_cols(l2), 4));
    let recs = result_of(append_step(st4.lk));
    assert(recs == seq![k1].push(k2));
    assert(recs[0] == k1 && recs[1] == k2);
}

/// A line whose first column is a non-empty keyword is not blank
/// after trimming.
proof fn lemma_keyword_line_nonblank(l: Seq<char>)
    requires
        line_cols(l)[0].len() > 0,
    ensures
        trim_spec(l).len() > 0,
{
    if trim_spec(l).len() == 0 {
        assert(trim_spec(l) =~= Seq::<char>::empty());
        assert(split_on(Seq::<char>::empty(), ':') == Seq::<Seq<char>>::empty().push(
            Seq::<char>::empty(),
        ));
        assert(line_cols(l)[0].len() == 0);
    }
}

/// A listing of two consecutive `pub` lines, whatever their other
/// columns, decodes to exactly two records, each without subkeys and
/// with at least one user id (seeded from the line's own uid column).
pub proof fn lemma_two_pub_records(l1: Seq<char>, l2: Seq<char>)
    requires
        forall|i: int| 0 <= i < l1.len() ==> #[trigger] l1[i] != '\n',
        forall|i: int| 0 <= i < l2.len() ==> #[trigger] l2[i] != '\n',
        line_cols(l1)[0] == "pub"@,
        line_cols(l2)[0] == "pub"@,
        crate::listkey::col_or_unavailable(line_cols(l1), 9).len() > 0,
        crate::listkey::col_or_unavailable(line_cols(l2), 9).len() > 0,
    ensures
        ({
            let recs = decode_listing(crate::text::join_with(seq![l1, l2], '\n'));
            &&& recs.len() == 2
            &&& recs[0].subkeys.len() == 0
            &&& recs[1].subkeys.len() == 0
            &&& recs[0].uids.len() >= 1
            &&& recs[1].uids.len() >= 1
            &&& recs[0].keyid == crate::listkey::col_or_unavailable(line_cols(l1), 4)
            &&& recs[1].keyid == crate::listkey::col_or_unavailable(line_cols(l2), 4)
        }),
{
    reveal_strlit("pub");
    let lines = seq![l1, l2];
    assert forall|j: int, i: int|
        0 <= j < lines.len() && 0 <= i < lines[j].len() implies #[trigger] lines[j][i]
        != '\n' by {
        if j == 0 {
            assert(lines[j] == l1);
        } else {
            assert(lines[j] == l2);
        }
    }
    crate::text::lemma_split_join(lines, '\n');
    lemma_keyword_line_nonblank(l1);
    lemma_keyword_line_nonblank(l2);
    assert forall|j: int| 0 <= j < 2 implies trim_spec(#[trigger] lines[j]).len() > 0 by {
        if j == 0 {
            assert(lines[j] == l1);
        } else {
            assert(lines[j] == l2);
        }
    }
    lemma_lines_until_blank_take(lines, 2);
    assert(lines.take(2) =~= lines);
    lemma_two_pub_records_fold(l1, l2);
}

/// A listing of two `pub` records, each followed by a `uid` line,
/// decodes to exactly two records, each without subkeys and with at
/// least one user id (supplied by the following `uid` line whether or
/// not the `pub` line embeds one).
pub proof fn lemma_two_pub_records_uid_lines(
    l1: Seq<char>,
    u1: Seq<char>,
    l2: Seq<char>,
    u2: Seq<char>,
)
    requires
        forall|i: int| 0 <= i < l1.len() ==> #[trigger] l1[i] != '\n',
        forall|i: int| 0 <= i < u1.len() ==> #[trigger] u1[i] != '\n',
        forall|i: int| 0 <= i < l2.len() ==> #[trigger] l2[i] != '\n',
        forall|i: int| 0 <= i < u2.len() ==> #[trigger] u2[i] != '\n',
        line_cols(l1)[0] == "pub"@,
        line_cols(u1)[0] == "uid"@,
        line_cols(l2)[0] == "pub"@,
        line_cols(u2)[0] == "uid"@,
    ensures
        ({
            let recs = decode_listing(crate::text::join_with(seq![l1, u1, l2, u2], '\n'));
            &&& recs.len() == 2
            &&& recs[0].subkeys.len() == 0
            &&& recs[1].subkeys.len() == 0
            &&& recs[0].uids.len() >= 1
            &&& recs[1].uids.len() >= 1
            &&& recs[0].keyid == crate::listkey::col_or_unavailable(line_cols(l1), 4)
            &&& recs[1].keyid == crate::listkey::col_or_unavailable(line_cols(l2), 4)
        }),
{
    reveal_strlit("pub");
    reveal_strlit("uid");
    let lines = seq![l1, u1, l2, u2];
    assert forall|j: int, i: int|
        0 <= j < lines.len() && 0 <= i < lines[j].len() implies #[trigger] lines[j][i]
        != '\n' by {
        if j == 0 {
            assert(lines[j] == l1);
        } else if j == 1 {
            assert(lines[j] == u1);
        } else if j == 2 {
            assert(lines[j] == l2);
        } else {
            assert(lines[j] == u2);
        }
    }
    crate::text::lemma_split_join(lines, '\n');
    lemma_keyword_line_nonblank(l1);
    lemma_keyword_line_nonblank(u1);
    lemma_keyword_line_nonblank(l2);
    lemma_keyword_line_nonblank(u2);
    assert forall|j: int| 0 <= j < 4 implies trim_spec(#[trigger] lines[j]).len() > 0 by {
        if j == 0 {
            assert(lines[j] == l1);
        } else if j == 1 {
            assert(lines[j] == u1);
        } else if j == 2 {
            assert(lines[j] == l2);
        } else {
            assert(lines[j] == u2);
        }
    }
    lemma_lines_until_blank_take(lines, 4);
    assert(lines.take(4) =~= lines);
    lemma_two_pub_uid_fold(l1, u1, l2, u2);
}

/// Grouping of follow-up lines in a listing: after `pub`, a `uid`
/// line extends the user ids, the first `fpr` line sets the primary
/// fingerprint, and once a `sub` line has opened a subkey the
/// following `fpr` and `grp` lines apply to that subkey, not to the
/// primary key.
pub proof fn lemma_subkey_grouping(
    lp: Seq<char>,
    lu: Seq<char>,
    lf1: Seq<char>,
    ls: Seq<char>,
    lf2: Seq<char>,
    lg: Seq<char>,
)
    requires
        forall|i: int| 0 <= i < lp.len() ==> #[trigger] lp[i] != '\n',
        forall|i: int| 0 <= i < lu.len() ==> #[trigger] lu[i] != '\n',
        forall|i: int| 0 <= i < lf1.len() ==> #[trigger] lf1[i] != '\n',
        forall|i: int| 0 <= i < ls.len() ==> #[trigger] ls[i] != '\n',
        forall|i: int| 0 <= i < lf2.len() ==> #[trigger] lf2[i] != '\n',
        forall|i: int| 0 <= i < lg.len() ==> #[trigger] lg[i] != '\n',
        line_cols(lp)[0] == "pub"@,
        line_cols(lu)[0] == "uid"@,
        line_cols(lf1)[0] == "fpr"@,
        line_cols(ls)[0] == "sub"@,
        line_cols(lf2)[0] == "fpr"@,
        line_cols(lg)[0] == "grp"@,
        crate::listkey::col_or_unavailable(line_cols(lp), 9).len() > 0,
    ensures
        ({
            let recs = decode_listing(
                crate::text::join_with(seq![lp, lu, lf1, ls, lf2, lg], '\n'),
            );
            &&& recs.len() == 1
            &&& recs[0].uids.len() == 2
            &&& recs[0].subkeys.len() == 1
            &&& recs[0].fingerprint == crate::listkey::col_or_unavailable(line_cols(lf1), 9)
            &&& recs[0].subkeys[0].fingerprint == crate::listkey::col_or_unavailable(
                line_cols(lf2),
                9,
            )
            &&& recs[0].subkeys[0].keygrip == crate::listkey::col_or_unavailable(line_cols(lg), 9)
            &&& recs[0].keygrip == crate::listkey::unavailable()
            &&& recs[0].uids[0] == crate::listkey::col_or_unavailable(line_cols(lp), 9)
            &&& recs[0].uids[1] == crate::listkey::col_or_unavailable(line_cols(lu), 9)
        }),
{
    reveal_strlit("pub");
    reveal_strlit("uid");
    reveal_strlit("fpr");
    reveal_strlit("sub");
    reveal_strlit("grp");
    let lines = seq![lp, lu, lf1, ls, lf2, lg];
    assert forall|j: int, i: int|
        0 <= j < lines.len() && 0 <= i < lines[j].len() implies #[trigger] lines[j][i]
        != '\n' by {
        if j == 0 {
            assert(lines[j] == lp);
        } else if j == 1 {
            assert(lines[j] == lu);
        } else if j == 2 {
            assert(lines[j] == lf1);
        } else if j == 3 {
            assert(lines[j] == ls);
        } else if j == 4 {
            assert(lines[j] == lf2);
        } else {
            assert(lines[j] == lg);
        }
    }
    crate::text::lemma_split_join(lines, '\n');
    lemma_keyword_line_nonblank(lp);
    lemma_keyword_line_nonblank(lu);
    lemma_keyword_line_nonblank(lf1);
    lemma_keyword_line_nonblank(ls);
    lemma_keyword_line_nonblank(lf2);
    lemma_keyword_line_nonblank(lg);
    assert forall|j: int| 0 <= j < 6 implies trim_spec(#[trigger] lines[j]).len() > 0 by {
        if j == 0 {
            assert(lines[j] == lp);
        } else if j == 1 {
            assert(lines[j] == lu);
        } else if j == 2 {
            assert(lines[j] == lf1);
        } else if j == 3 {
            assert(lines[j] == ls);
        } else if j == 4 {
            assert(lines[j] == lf2);
        } else {
            assert(lines[j] == lg);
        }
    }
    lemma_lines_until_blank_take(lines, 6);
    assert(lines.take(6) =~= lines);
    lemma_subkey_grouping_fold(lp, lu, lf1, ls, lf2, lg);
}

} // verus!
