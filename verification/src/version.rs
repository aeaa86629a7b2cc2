//! Engine version discovery.
//!
//! The engine reports its version on a `cfg:version:` configuration
//! line.  The version string is captured there and its leading two
//! components are decoded as numbers; the launcher compares them
//! against the threshold above which loopback passphrase entry must be
//! requested explicitly.

use vstd::prelude::*;

use crate::response::CmdResult;
use crate::text::{
    dec_val, is_digit_char, is_prefix_of, lemma_split_min_len, split_char, split_on, views_of,
};

verus! {

/// The configuration-line prefix that carries the engine's version.
pub open spec fn version_marker() -> Seq<char> {
    "cfg:version:"@
}

/// A well-formed version string: non-empty groups of digits separated
/// by single dots.
pub open spec fn is_version_seq(v: Seq<char>) -> bool {
    &&& v.len() > 0
    &&& is_digit_char(v[0])
    &&& is_digit_char(v[v.len() - 1])
    &&& forall|i: int| 0 <= i < v.len() ==> is_digit_char(#[trigger] v[i]) || v[i] == '.'
    &&& forall|i: int| 0 <= i < v.len() - 1 ==> !(#[trigger] v[i] == '.' && v[i + 1] == '.')
}

/// The version pattern matches `data`: it starts with the marker,
/// immediately followed by a digit.
pub open spec fn version_match_exists(data: Seq<char>) -> bool {
    &&& is_prefix_of(version_marker(), data)
    &&& data.len() > version_marker().len()
    &&& is_digit_char(data[version_marker().len() as int])
}

/// `v` is the version string captured from `data`: a well-formed
/// version string, standing right after the marker, and maximal (no
/// longer prefix of the remainder is well-formed).
pub open spec fn is_version_capture(data: Seq<char>, v: Seq<char>) -> bool {
    &&& is_version_seq(v)
    &&& is_prefix_of(version_marker() + v, data)
    &&& forall|m: int|
        v.len() < m <= data.len() - version_marker().len() ==> !is_version_seq(
            #[trigger] data.subrange(
                version_marker().len() as int,
                version_marker().len() + m,
            ),
        )
}

/// Relies on `regex::Regex::captures` with the anchored pattern
/// `^cfg:version:([0-9]+(\.[0-9]+)*)`: a match exists exactly when
/// the haystack starts with the marker followed by an ASCII digit,
/// and the first capture group is then the longest well-formed
/// version string standing there (the quantifiers are greedy and
/// nothing follows them in the pattern).  The explicit `[0-9]` class
/// keeps the match ASCII; regex's `\d` would also accept other
/// Unicode decimal digits.
#[verifier::external_body]
fn capture_version(data: &str) -> (r: Option<String>)
    ensures
        match r {
            Option::Some(v) => is_version_capture(data@, v@),
            Option::None => !version_match_exists(data@),
        },
{
    let re = regex::Regex::new("^cfg:version:([0-9]+(\\.[0-9]+)*)").unwrap();
    match re.captures(data) {
        Option::Some(caps) => Option::Some(caps.get(1).unwrap().as_str().to_string()),
        Option::None => Option::None,
    }
}

/// The engine's version: the leading two numeric components, plus the
/// full version string as reported.
#[derive(Debug)]
pub struct GpgVersion {
    pub major: u32,
    pub minor: u32,
    pub full: String,
}

impl Clone for GpgVersion {
    fn clone(&self) -> (res: Self)
        ensures
            res.major == self.major,
            res.minor == self.minor,
            res.full@ == self.full@,
    {
        GpgVersion { major: self.major, minor: self.minor, full: self.full.clone() }
    }
}

/// `n` clamped to the `u32` range.
pub open spec fn sat_u32(n: nat) -> u32 {
    if n <= u32::MAX {
        n as u32
    } else {
        u32::MAX
    }
}

/// The fallback version when the engine reported none.
pub open spec fn is_default_version(r: GpgVersion) -> bool {
    r.major == 0 && r.minor == 0 && r.full@ == "0.0.0"@
}

/// The numeric major/minor components of a captured version string.
pub open spec fn version_numbers_of(v: Seq<char>, major: u32, minor: u32) -> bool {
    let comps = split_on(v, '.');
    &&& major == sat_u32(dec_val(comps[0]))
    &&& minor == (if comps.len() >= 2 {
        sat_u32(dec_val(comps[1]))
    } else {
        0u32
    })
}

impl GpgVersion {
    /// Is this version at or above `major.minor`?
    pub open spec fn spec_at_least(&self, major: u32, minor: u32) -> bool {
        self.major > major || (self.major == major && self.minor >= minor)
    }

    /// Is this version at or above `major.minor`?
    pub fn at_least(&self, major: u32, minor: u32) -> (r: bool)
        ensures
            r == self.spec_at_least(major, minor),
    {
        self.major > major || (self.major == major && self.minor >= minor)
    }
}

proof fn lemma_split_rec_digits(s: Seq<char>, cur: Seq<char>, acc: Seq<Seq<char>>)
    requires
        forall|i: int| 0 <= i < s.len() ==> is_digit_char(#[trigger] s[i]) || s[i] == '.',
        forall|i: int| 0 <= i < cur.len() ==> is_digit_char(#[trigger] cur[i]),
        forall|j: int, i: int|
            0 <= j < acc.len() && 0 <= i < acc[j].len() ==> is_digit_char(#[trigger] acc[j][i]),
    ensures
        forall|j: int, i: int|
            0 <= j < crate::text::split_rec(s, '.', cur, acc).len() && 0 <= i
                < crate::text::split_rec(s, '.', cur, acc)[j].len() ==> is_digit_char(
                #[trigger] crate::text::split_rec(s, '.', cur, acc)[j][i],
            ),
    decreases s.len(),
{
    let parts = crate::text::split_rec(s, '.', cur, acc);
    if s.len() == 0 {
        assert(parts == acc.push(cur));
        assert forall|j: int, i: int|
            0 <= j < parts.len() && 0 <= i < parts[j].len() implies is_digit_char(
            parts[j][i],
        ) by {
            if j == acc.len() {
                assert(parts[j] == cur);
            } else {
                assert(parts[j] == acc[j]);
            }
        }
    } else if s[0] == '.' {
        let acc2 = acc.push(cur);
        assert forall|j: int, i: int|
            0 <= j < acc2.len() && 0 <= i < acc2[j].len() implies is_digit_char(
            acc2[j][i],
        ) by {
            if j == acc.len() {
                assert(acc2[j] == cur);
            } else {
                assert(acc2[j] == acc[j]);
            }
        }
        lemma_split_rec_digits(s.drop_first(), Seq::empty(), acc2);
        let sub = crate::text::split_rec(s.drop_first(), '.', Seq::empty(), acc2);
        assert(parts == sub);
        assert forall|j: int, i: int|
            0 <= j < parts.len() && 0 <= i < parts[j].len() implies is_digit_char(
            parts[j][i],
        ) by {
            assert(is_digit_char(sub[j][i]));
        }
    } else {
        assert(is_digit_char(s[0]));
        let cur2 = cur.push(s[0]);
        assert forall|i: int| 0 <= i < cur2.len() implies is_digit_char(cur2[i]) by {
            if i == cur.len() {
                assert(cur2[i] == s[0]);
            } else {
                assert(cur2[i] == cur[i]);
            }
        }
        lemma_split_rec_digits(s.drop_first(), cur2, acc);
        let sub = crate::text::split_rec(s.drop_first(), '.', cur2, acc);
        assert(parts == sub);
        assert forall|j: int, i: int|
            0 <= j < parts.len() && 0 <= i < parts[j].len() implies is_digit_char(
            parts[j][i],
        ) by {
            assert(is_digit_char(sub[j][i]));
        }
    }
}

/// Parse a digit string as a number, clamping at the `u32` maximum.
fn parse_u32_sat(s: &str) -> (v: u32)
    requires
        forall|j: int| 0 <= j < s@.len() ==> is_digit_char(#[trigger] s@[j]),
    ensures
        v == sat_u32(dec_val(s@)),
{
    let n = s.unicode_len();
    let mut v: u32 = 0;
    let mut sat: bool = false;
    let mut i: usize = 0;
    proof {
        assert(s@.take(0) =~= Seq::<char>::empty());
    }
    while i < n
        invariant
            n == s@.len(),
            i <= n,
            forall|j: int| 0 <= j < s@.len() ==> is_digit_char(#[trigger] s@[j]),
            !sat ==> v == dec_val(s@.take(i as int)) && dec_val(s@.take(i as int)) <= u32::MAX,
            sat ==> v == u32::MAX && dec_val(s@.take(i as int)) > u32::MAX,
        decreases n - i,
    {
        let c = s.get_char(i);
        assert(is_digit_char(s@[i as int]));
        let d: u32 = (c as u32) - 48;
        proof {
            let t = s@.take(i + 1);
            assert(t.drop_last() =~= s@.take(i as int));
            assert(t.last() == s@[i as int]);
            assert(dec_val(t) == dec_val(s@.take(i as int)) * 10 + crate::text::digit_val(
                s@[i as int],
            ));
        }
        if sat {
            proof {
                let prev = dec_val(s@.take(i as int));
                assert(dec_val(s@.take(i + 1)) >= prev * 10);
                assert(prev * 10 >= prev) by (nonlinear_arith)
                    requires
                        prev > u32::MAX,
                ;
            }
        } else {
            let w: u64 = (v as u64) * 10 + (d as u64);
            if w > u32::MAX as u64 {
                v = u32::MAX;
                sat = true;
            } else {
                v = w as u32;
            }
        }
        i += 1;
    }
    proof {
        assert(s@.take(n as int) =~= s@);
    }
    v
}

/// Read the engine's version from a configuration listing held in
/// `result`'s raw output.  Without a recognizable version line the
/// fallback version is returned.
pub fn get_gpg_version(result: &CmdResult) -> (r: GpgVersion)
    ensures
        match result@.raw_data {
            Option::None => is_default_version(r),
            Option::Some(data) => {
                if version_match_exists(data) {
                    &&& is_version_capture(data, r.full@)
                    &&& version_numbers_of(r.full@, r.major, r.minor)
                } else {
                    is_default_version(r)
                }
            },
        },
{
    let data = match result.get_raw_data() {
        Option::Some(d) => d,
        Option::None => {
            return GpgVersion { major: 0, minor: 0, full: String::from_str("0.0.0") };
        },
    };
    match capture_version(data.as_str()) {
        Option::None => GpgVersion { major: 0, minor: 0, full: String::from_str("0.0.0") },
        Option::Some(vs) => {
            proof {
                let data_v = data@;
                let m = version_marker().len() as int;
                let pv = version_marker() + vs@;
                assert(version_match_exists(data_v)) by {
                    assert(data_v.subrange(0, pv.len() as int) == pv);
                    assert(data_v[m] == data_v.subrange(0, pv.len() as int)[m]);
                    assert(pv[m] == vs@[0]);
                    assert(is_prefix_of(version_marker(), data_v)) by {
                        assert(version_marker() =~= data_v.subrange(0, pv.len() as int).subrange(
                            0,
                            m,
                        ));
                        assert(data_v.subrange(0, pv.len() as int).subrange(0, m) =~= data_v
                            .subrange(0, m));
                    }
                }
            }
            let comps = split_char(vs.as_str(), '.');
            proof {
                lemma_split_min_len(vs@, '.', Seq::empty(), Seq::empty());
                lemma_split_rec_digits(vs@, Seq::empty(), Seq::empty());
                assert(views_of(comps@)[0] == split_on(vs@, '.')[0]);
                assert forall|j: int| 0 <= j < views_of(comps@)[0].len() implies is_digit_char(
                    views_of(comps@)[0][j],
                ) by {
                    assert(is_digit_char(
                        crate::text::split_rec(
                            vs@,
                            '.',
                            Seq::<char>::empty(),
                            Seq::<Seq<char>>::empty(),
                        )[0][j],
                    ));
                }
                assert(comps@[0]@ == views_of(comps@)[0]);
            }
            let major = parse_u32_sat(comps[0].as_str());
            let minor = if comps.len() >= 2 {
                proof {
                    assert(views_of(comps@)[1] == split_on(vs@, '.')[1]);
                    assert forall|j: int| 0 <= j < views_of(comps@)[1].len() implies is_digit_char(
                        views_of(comps@)[1][j],
                    ) by {
                        assert(is_digit_char(
                            crate::text::split_rec(
                                vs@,
                                '.',
                                Seq::<char>::empty(),
                                Seq::<Seq<char>>::empty(),
                            )[1][j],
                        ));
                    }
                    assert(comps@[1]@ == views_of(comps@)[1]);
                }
                parse_u32_sat(comps[1].as_str())
            } else {
                0
            };
            GpgVersion { major, minor, full: vs }
        },
    }
}

} // verus!
