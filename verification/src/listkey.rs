//! The colon-delimited key-listing decoder.
//!
//! A listing is a flat stream of lines.  A `pub`/`sec` line opens a key
//! record; `uid`, `fpr`, `sub`, `ssb`, `sig` and `grp` lines add to the
//! record most recently opened.  The decoder tracks whether the current
//! context is the primary key or its latest subkey, and finalizes a
//! record when a `pub`/`sec` keyword recurs.

use vstd::prelude::*;

use crate::text::views_of;

verus! {

/// The marker stored in a column the listing did not supply.
pub open spec fn unavailable() -> Seq<char> {
    "Unavailable"@
}

/// Column `i` of a listing line, or the unavailable marker when the
/// line is too short.
pub open spec fn col_or_unavailable(cols: Seq<Seq<char>>, i: int) -> Seq<char> {
    if 0 <= i < cols.len() {
        cols[i]
    } else {
        unavailable()
    }
}

/// Column `i` of a listing line as an owned string.
fn col(args: &Vec<String>, i: usize) -> (r: String)
    ensures
        r@ == col_or_unavailable(views_of(args@), i as int),
{
    if i < args.len() {
        args[i].clone()
    } else {
        String::from_str("Unavailable")
    }
}

/// One subordinate key of a primary key record.
#[derive(Debug)]
pub struct Subkey {
    pub key_type: String,
    pub validity: String,
    pub length: String,
    pub algo: String,
    pub keyid: String,
    pub date: String,
    pub expires: String,
    pub dummy: String,
    pub ownertrust: String,
    pub uid: String,
    pub sig: String,
    pub cap: String,
    pub issuer: String,
    pub flag: String,
    pub token: String,
    pub hash: String,
    pub curve: String,
    pub compliance: String,
    pub updated: String,
    pub keygrip: String,
    pub fingerprint: String,
}

/// The mathematical value of a `Subkey`.
pub struct SubkeyV {
    pub key_type: Seq<char>,
    pub validity: Seq<char>,
    pub length: Seq<char>,
    pub algo: Seq<char>,
    pub keyid: Seq<char>,
    pub date: Seq<char>,
    pub expires: Seq<char>,
    pub dummy: Seq<char>,
    pub ownertrust: Seq<char>,
    pub uid: Seq<char>,
    pub sig: Seq<char>,
    pub cap: Seq<char>,
    pub issuer: Seq<char>,
    pub flag: Seq<char>,
    pub token: Seq<char>,
    pub hash: Seq<char>,
    pub curve: Seq<char>,
    pub compliance: Seq<char>,
    pub updated: Seq<char>,
    pub keygrip: Seq<char>,
    pub fingerprint: Seq<char>,
}

impl View for Subkey {
    type V = SubkeyV;

    open spec fn view(&self) -> SubkeyV {
        SubkeyV {
            key_type: self.key_type@,
            validity: self.validity@,
            length: self.length@,
            algo: self.algo@,
            keyid: self.keyid@,
            date: self.date@,
            expires: self.expires@,
            dummy: self.dummy@,
            ownertrust: self.ownertrust@,
            uid: self.uid@,
            sig: self.sig@,
            cap: self.cap@,
            issuer: self.issuer@,
            flag: self.flag@,
            token: self.token@,
            hash: self.hash@,
            curve: self.curve@,
            compliance: self.compliance@,
            updated: self.updated@,
            keygrip: self.keygrip@,
            fingerprint: self.fingerprint@,
        }
    }
}

/// The subkey decoded from the columns of one `sub`/`ssb` line: the
/// first nineteen columns in order, absent trailing columns replaced
/// by the unavailable marker, keygrip and fingerprint initially empty.
pub open spec fn subkey_from_cols(cols: Seq<Seq<char>>) -> SubkeyV {
    SubkeyV {
        key_type: col_or_unavailable(cols, 0),
        validity: col_or_unavailable(cols, 1),
        length: col_or_unavailable(cols, 2),
        algo: col_or_unavailable(cols, 3),
        keyid: col_or_unavailable(cols, 4),
        date: col_or_unavailable(cols, 5),
        expires: col_or_unavailable(cols, 6),
        dummy: col_or_unavailable(cols, 7),
        ownertrust: col_or_unavailable(cols, 8),
        uid: col_or_unavailable(cols, 9),
        sig: col_or_unavailable(cols, 10),
        cap: col_or_unavailable(cols, 11),
        issuer: col_or_unavailable(cols, 12),
        flag: col_or_unavailable(cols, 13),
        token: col_or_unavailable(cols, 14),
        hash: col_or_unavailable(cols, 15),
        curve: col_or_unavailable(cols, 16),
        compliance: col_or_unavailable(cols, 17),
        updated: col_or_unavailable(cols, 18),
        keygrip: Seq::empty(),
        fingerprint: Seq::empty(),
    }
}

impl Subkey {
    /// Decode a subkey from the columns of one `sub`/`ssb` line.
    pub fn new(args: &Vec<String>) -> (r: Subkey)
        ensures
            r@ == subkey_from_cols(views_of(args@)),
    {
        Subkey {
            key_type: col(args, 0),
            validity: col(args, 1),
            length: col(args, 2),
            algo: col(args, 3),
            keyid: col(args, 4),
            date: col(args, 5),
            expires: col(args, 6),
            dummy: col(args, 7),
            ownertrust: col(args, 8),
            uid: col(args, 9),
            sig: col(args, 10),
            cap: col(args, 11),
            issuer: col(args, 12),
            flag: col(args, 13),
            token: col(args, 14),
            hash: col(args, 15),
            curve: col(args, 16),
            compliance: col(args, 17),
            updated: col(args, 18),
            keygrip: String::new(),
            fingerprint: String::new(),
        }
    }
}

impl Clone for Subkey {
    fn clone(&self) -> (res: Self)
        ensures
            res@ == self@,
    {
        Subkey {
            key_type: self.key_type.clone(),
            validity: self.validity.clone(),
            length: self.length.clone(),
            algo: self.algo.clone(),
            keyid: self.keyid.clone(),
            date: self.date.clone(),
            expires: self.expires.clone(),
            dummy: self.dummy.clone(),
            ownertrust: self.ownertrust.clone(),
            uid: self.uid.clone(),
            sig: self.sig.clone(),
            cap: self.cap.clone(),
            issuer: self.issuer.clone(),
            flag: self.flag.clone(),
            token: self.token.clone(),
            hash: self.hash.clone(),
            curve: self.curve.clone(),
            compliance: self.compliance.clone(),
            updated: self.updated.clone(),
            keygrip: self.keygrip.clone(),
            fingerprint: self.fingerprint.clone(),
        }
    }
}

/// One primary key record of a listing.
#[derive(Debug)]
pub struct ListKeyResult {
    pub key_type: String,
    pub validity: String,
    pub length: String,
    pub algo: String,
    pub keyid: String,
    pub date: String,
    pub expires: String,
    pub dummy: String,
    pub ownertrust: String,
    pub uid: String,
    pub sig: String,
    pub cap: String,
    pub issuer: String,
    pub flag: String,
    pub token: String,
    pub hash: String,
    pub curve: String,
    pub compliance: String,
    pub updated: String,
    pub origin: String,
    pub comment: String,
    pub keygrip: String,
    pub uids: Vec<String>,
    pub sigs: Vec<Vec<String>>,
    pub subkeys: Vec<Subkey>,
    pub fingerprint: String,
}

/// The mathematical value of a `ListKeyResult`.
pub struct ListKeyResultV {
    pub key_type: Seq<char>,
    pub validity: Seq<char>,
    pub length: Seq<char>,
    pub algo: Seq<char>,
    pub keyid: Seq<char>,
    pub date: Seq<char>,
    pub expires: Seq<char>,
    pub dummy: Seq<char>,
    pub ownertrust: Seq<char>,
    pub uid: Seq<char>,
    pub sig: Seq<char>,
    pub cap: Seq<char>,
    pub issuer: Seq<char>,
    pub flag: Seq<char>,
    pub token: Seq<char>,
    pub hash: Seq<char>,
    pub curve: Seq<char>,
    pub compliance: Seq<char>,
    pub updated: Seq<char>,
    pub origin: Seq<char>,
    pub comment: Seq<char>,
    pub keygrip: Seq<char>,
    pub uids: Seq<Seq<char>>,
    pub sigs: Seq<Seq<Seq<char>>>,
    pub subkeys: Seq<SubkeyV>,
    pub fingerprint: Seq<char>,
}

/// The views of a sequence of string lists.
pub open spec fn deep_views_of(v: Seq<Vec<String>>) -> Seq<Seq<Seq<char>>> {
    v.map_values(|t: Vec<String>| views_of(t@))
}

/// The views of a sequence of subkeys.
pub open spec fn subkey_views_of(v: Seq<Subkey>) -> Seq<SubkeyV> {
    v.map_values(|s: Subkey| s@)
}

impl View for ListKeyResult {
    type V = ListKeyResultV;

    open spec fn view(&self) -> ListKeyResultV {
        ListKeyResultV {
            key_type: self.key_type@,
            validity: self.validity@,
            length: self.length@,
            algo: self.algo@,
            keyid: self.keyid@,
            date: self.date@,
            expires: self.expires@,
            dummy: self.dummy@,
            ownertrust: self.ownertrust@,
            uid: self.uid@,
            sig: self.sig@,
            cap: self.cap@,
            issuer: self.issuer@,
            flag: self.flag@,
            token: self.token@,
            hash: self.hash@,
            curve: self.curve@,
            compliance: self.compliance@,
            updated: self.updated@,
            origin: self.origin@,
            comment: self.comment@,
            keygrip: self.keygrip@,
            uids: views_of(self.uids@),
            sigs: deep_views_of(self.sigs@),
            subkeys: subkey_views_of(self.subkeys@),
            fingerprint: self.fingerprint@,
        }
    }
}

/// The record decoded from the columns of one `pub`/`sec` line: the
/// first twenty columns in order (the last of them recorded as the
/// free-text comment), absent trailing columns replaced by the
/// unavailable marker, nested collections empty, fingerprint empty.
pub open spec fn key_from_cols(cols: Seq<Seq<char>>) -> ListKeyResultV {
    ListKeyResultV {
        key_type: col_or_unavailable(cols, 0),
        validity: col_or_unavailable(cols, 1),
        length: col_or_unavailable(cols, 2),
        algo: col_or_unavailable(cols, 3),
        keyid: col_or_unavailable(cols, 4),
        date: col_or_unavailable(cols, 5),
        expires: col_or_unavailable(cols, 6),
        dummy: col_or_unavailable(cols, 7),
        ownertrust: col_or_unavailable(cols, 8),
        uid: col_or_unavailable(cols, 9),
        sig: col_or_unavailable(cols, 10),
        cap: col_or_unavailable(cols, 11),
        issuer: col_or_unavailable(cols, 12),
        flag: col_or_unavailable(cols, 13),
        token: col_or_unavailable(cols, 14),
        hash: col_or_unavailable(cols, 15),
        curve: col_or_unavailable(cols, 16),
        compliance: col_or_unavailable(cols, 17),
        updated: col_or_unavailable(cols, 18),
        origin: unavailable(),
        comment: col_or_unavailable(cols, 19),
        keygrip: unavailable(),
        uids: Seq::empty(),
        sigs: Seq::empty(),
        subkeys: Seq::empty(),
        fingerprint: Seq::empty(),
    }
}

impl ListKeyResult {
    /// Decode a primary record from the columns of one `pub`/`sec`
    /// line.
    pub fn new(args: &Vec<String>) -> (r: ListKeyResult)
        ensures
            r@ == key_from_cols(views_of(args@)),
    {
        let r = ListKeyResult {
            key_type: col(args, 0),
            validity: col(args, 1),
            length: col(args, 2),
            algo: col(args, 3),
            keyid: col(args, 4),
            date: col(args, 5),
            expires: col(args, 6),
            dummy: col(args, 7),
            ownertrust: col(args, 8),
            uid: col(args, 9),
            sig: col(args, 10),
            cap: col(args, 11),
            issuer: col(args, 12),
            flag: col(args, 13),
            token: col(args, 14),
            hash: col(args, 15),
            curve: col(args, 16),
            compliance: col(args, 17),
            updated: col(args, 18),
            origin: String::from_str("Unavailable"),
            comment: col(args, 19),
            keygrip: String::from_str("Unavailable"),
            uids: Vec::new(),
            sigs: Vec::new(),
            subkeys: Vec::new(),
            fingerprint: String::new(),
        };
        proof {
            assert(views_of(r.uids@) =~= Seq::<Seq<char>>::empty());
            assert(deep_views_of(r.sigs@) =~= Seq::<Seq<Seq<char>>>::empty());
            assert(subkey_views_of(r.subkeys@) =~= Seq::<SubkeyV>::empty());
        }
        r
    }
}

/// Copy of a list of string lists, by view.
fn clone_vec_vec_string(v: &Vec<Vec<String>>) -> (r: Vec<Vec<String>>)
    ensures
        deep_views_of(r@) == deep_views_of(v@),
{
    let mut r: Vec<Vec<String>> = Vec::new();
    let mut i: usize = 0;
    while i < v.len()
        invariant
            i <= v@.len(),
            r@.len() == i,
            forall|j: int| 0 <= j < i ==> views_of(r@[j]@) == views_of(v@[j]@),
        decreases v@.len() - i,
    {
        let mut inner: Vec<String> = Vec::new();
        let mut k: usize = 0;
        while k < v[i].len()
            invariant
                i < v@.len(),
                k <= v@[i as int]@.len(),
                inner@.len() == k,
                forall|j: int| 0 <= j < k ==> inner@[j]@ == v@[i as int]@[j]@,
            decreases v@[i as int]@.len() - k,
        {
            inner.push(v[i][k].clone());
            k += 1;
        }
        proof {
            assert(views_of(inner@) =~= views_of(v@[i as int]@));
        }
        r.push(inner);
        i += 1;
    }
    proof {
        assert(deep_views_of(r@) =~= deep_views_of(v@));
    }
    r
}

/// Copy of a subkey list, by view.
fn clone_vec_subkey(v: &Vec<Subkey>) -> (r: Vec<Subkey>)
    ensures
        subkey_views_of(r@) == subkey_views_of(v@),
{
    let mut r: Vec<Subkey> = Vec::new();
    let mut i: usize = 0;
    while i < v.len()
        invariant
            i <= v@.len(),
            r@.len() == i,
            forall|j: int| 0 <= j < i ==> r@[j]@ == v@[j]@,
        decreases v@.len() - i,
    {
        r.push(v[i].clone());
        i += 1;
    }
    proof {
        assert(subkey_views_of(r@) =~= subkey_views_of(v@));
    }
    r
}

/// Copy of a string list, by view.
fn clone_vec_string(v: &Vec<String>) -> (r: Vec<String>)
    ensures
        views_of(r@) == views_of(v@),
{
    let mut r: Vec<String> = Vec::new();
    let mut i: usize = 0;
    while i < v.len()
        invariant
            i <= v@.len(),
            r@.len() == i,
            forall|j: int| 0 <= j < i ==> r@[j]@ == v@[j]@,
        decreases v@.len() - i,
    {
        r.push(v[i].clone());
        i += 1;
    }
    proof {
        assert(views_of(r@) =~= views_of(v@));
    }
    r
}

/// The views of a sequence of key records.
pub open spec fn key_views_of(v: Seq<ListKeyResult>) -> Seq<ListKeyResultV> {
    v.map_values(|k: ListKeyResult| k@)
}

/// The decoder state while walking a listing.
pub struct ListKey {
    in_subkey: bool,
    key_list: Option<Vec<ListKeyResult>>,
    curkey: Option<ListKeyResult>,
    fingerprints: Option<Vec<String>>,
}

/// The mathematical value of a `ListKey`.
pub struct ListKeyV {
    /// Whether the current context is the latest subkey rather than
    /// the primary key.
    pub in_subkey: bool,
    /// The finalized records, oldest first.
    pub key_list: Option<Seq<ListKeyResultV>>,
    /// The record under construction.
    pub curkey: Option<ListKeyResultV>,
    /// Every primary fingerprint seen so far.
    pub fingerprints: Option<Seq<Seq<char>>>,
}

impl View for ListKey {
    type V = ListKeyV;

    closed spec fn view(&self) -> ListKeyV {
        ListKeyV {
            in_subkey: self.in_subkey,
            key_list: match self.key_list {
                Option::None => Option::None,
                Option::Some(l) => Option::Some(key_views_of(l@)),
            },
            curkey: match self.curkey {
                Option::None => Option::None,
                Option::Some(k) => Option::Some(k@),
            },
            fingerprints: match self.fingerprints {
                Option::None => Option::None,
                Option::Some(f) => Option::Some(views_of(f@)),
            },
        }
    }
}

/// The decode driver's state: the decoder proper plus the set of
/// keywords already seen for the current record.
pub struct DecodeSt {
    pub lk: ListKeyV,
    pub processed: Seq<Seq<char>>,
}

/// A fresh decoder state.
pub open spec fn init_list_state() -> ListKeyV {
    ListKeyV {
        in_subkey: false,
        key_list: Option::Some(Seq::empty()),
        curkey: Option::None,
        fingerprints: Option::Some(Seq::empty()),
    }
}

/// Appending to the (lazily created) fingerprint list.
pub open spec fn push_fingerprint(o: Option<Seq<Seq<char>>>, x: Seq<char>) -> Option<
    Seq<Seq<char>>,
> {
    match o {
        Option::None => Option::Some(seq![x]),
        Option::Some(v) => Option::Some(v.push(x)),
    }
}

/// Appending to the (lazily created) record list.
pub open spec fn push_record(o: Option<Seq<ListKeyResultV>>, k: ListKeyResultV) -> Option<
    Seq<ListKeyResultV>,
> {
    match o {
        Option::None => Option::Some(seq![k]),
        Option::Some(v) => Option::Some(v.push(k)),
    }
}

/// A `pub`/`sec` line: open a fresh record, seed its user ids with the
/// embedded uid column when that is non-empty, leave subkey context.
pub open spec fn pub_step(st: ListKeyV, cols: Seq<Seq<char>>) -> ListKeyV {
    let k = key_from_cols(cols);
    let k2 = if k.uid.len() > 0 {
        ListKeyResultV { uids: seq![k.uid], ..k }
    } else {
        k
    };
    ListKeyV { in_subkey: false, curkey: Option::Some(k2), ..st }
}

/// A `uid` line: append the uid column to the current record's user
/// ids.  Without a current record the line is ignored.
pub open spec fn uid_step(st: ListKeyV, cols: Seq<Seq<char>>) -> ListKeyV {
    match st.curkey {
        Option::None => st,
        Option::Some(k) => ListKeyV {
            curkey: Option::Some(
                ListKeyResultV { uids: k.uids.push(col_or_unavailable(cols, 9)), ..k },
            ),
            ..st
        },
    }
}

/// An `fpr` line: record the fingerprint on the current record, or on
/// its latest subkey when in subkey context.  Primary fingerprints are
/// also collected in the decoder's fingerprint list.
pub open spec fn fpr_step(st: ListKeyV, cols: Seq<Seq<char>>) -> ListKeyV {
    let fp = col_or_unavailable(cols, 9);
    match st.curkey {
        Option::None => st,
        Option::Some(k) => if !st.in_subkey {
            ListKeyV {
                curkey: Option::Some(ListKeyResultV { fingerprint: fp, ..k }),
                fingerprints: push_fingerprint(st.fingerprints, fp),
                ..st
            }
        } else if k.subkeys.len() > 0 {
            ListKeyV {
                curkey: Option::Some(
                    ListKeyResultV {
                        subkeys: k.subkeys.update(
                            k.subkeys.len() - 1,
                            SubkeyV { fingerprint: fp, ..k.subkeys.last() },
                        ),
                        ..k
                    },
                ),
                ..st
            }
        } else {
            st
        },
    }
}

/// A `sub`/`ssb` line: append a new subkey and enter subkey context.
pub open spec fn sub_step(st: ListKeyV, cols: Seq<Seq<char>>) -> ListKeyV {
    match st.curkey {
        Option::None => st,
        Option::Some(k) => ListKeyV {
            in_subkey: true,
            curkey: Option::Some(
                ListKeyResultV { subkeys: k.subkeys.push(subkey_from_cols(cols)), ..k },
            ),
            ..st
        },
    }
}

/// A `sig` line: append the (class, key id, user id) triple.
pub open spec fn sig_step(st: ListKeyV, cols: Seq<Seq<char>>) -> ListKeyV {
    match st.curkey {
        Option::None => st,
        Option::Some(k) => ListKeyV {
            curkey: Option::Some(
                ListKeyResultV {
                    sigs: k.sigs.push(
                        seq![
                            col_or_unavailable(cols, 4),
                            col_or_unavailable(cols, 9),
                            col_or_unavailable(cols, 10),
                        ],
                    ),
                    ..k
                },
            ),
            ..st
        },
    }
}

/// A `grp` line: record the keygrip on the current record, or on its
/// latest subkey when in subkey context.
pub open spec fn grp_step(st: ListKeyV, cols: Seq<Seq<char>>) -> ListKeyV {
    let grp = col_or_unavailable(cols, 9);
    match st.curkey {
        Option::None => st,
        Option::Some(k) => if !st.in_subkey {
            ListKeyV { curkey: Option::Some(ListKeyResultV { keygrip: grp, ..k }), ..st }
        } else if k.subkeys.len() > 0 {
            ListKeyV {
                curkey: Option::Some(
                    ListKeyResultV {
                        subkeys: k.subkeys.update(
                            k.subkeys.len() - 1,
                            SubkeyV { keygrip: grp, ..k.subkeys.last() },
                        ),
                        ..k
                    },
                ),
                ..st
            }
        } else {
            st
        },
    }
}

/// The line keywords the listing decoder reacts to.
pub open spec fn recognized_keyword(kw: Seq<char>) -> bool {
    ||| kw == "pub"@
    ||| kw == "uid"@
    ||| kw == "sec"@
    ||| kw == "fpr"@
    ||| kw == "sub"@
    ||| kw == "ssb"@
    ||| kw == "sig"@
    ||| kw == "grp"@
}

/// Dispatch one listing line on its keyword; unrecognized keywords
/// leave the state unchanged.
pub open spec fn list_step(st: ListKeyV, kw: Seq<char>, cols: Seq<Seq<char>>) -> ListKeyV {
    if kw == "pub"@ || kw == "sec"@ {
        pub_step(st, cols)
    } else if kw == "uid"@ {
        uid_step(st, cols)
    } else if kw == "fpr"@ {
        fpr_step(st, cols)
    } else if kw == "sub"@ || kw == "ssb"@ {
        sub_step(st, cols)
    } else if kw == "sig"@ {
        sig_step(st, cols)
    } else if kw == "grp"@ {
        grp_step(st, cols)
    } else {
        st
    }
}

/// Finalizing the record under construction, if any.
pub open spec fn append_step(st: ListKeyV) -> ListKeyV {
    match st.curkey {
        Option::None => st,
        Option::Some(k) => ListKeyV { key_list: push_record(st.key_list, k), ..st },
    }
}

/// The decoder's final output: the record list, or nothing when no
/// record was ever opened.
pub open spec fn result_of(st: ListKeyV) -> Seq<ListKeyResultV> {
    match st.curkey {
        Option::None => Seq::empty(),
        Option::Some(_) => match st.key_list {
            Option::None => Seq::empty(),
            Option::Some(l) => l,
        },
    }
}

/// The decoder's context invariant: in subkey context there is always
/// a record under construction with at least one subkey, so a
/// fingerprint or keygrip line always finds its target.
pub open spec fn wf_list_state(st: ListKeyV) -> bool {
    st.in_subkey ==> match st.curkey {
        Option::None => false,
        Option::Some(k) => k.subkeys.len() > 0,
    }
}

/// A fresh decoder state satisfies the context invariant.
pub proof fn lemma_init_list_state_wf()
    ensures
        wf_list_state(init_list_state()),
{
}

/// Every listing line, and finalizing a record, preserves the context
/// invariant.
pub proof fn lemma_list_step_preserves_wf(st: ListKeyV, kw: Seq<char>, cols: Seq<Seq<char>>)
    requires
        wf_list_state(st),
    ensures
        wf_list_state(list_step(st, kw, cols)),
        wf_list_state(append_step(st)),
{
}

impl ListKey {
    /// A fresh decoder state.
    pub fn init() -> (r: ListKey)
        ensures
            r@ == init_list_state(),
    {
        let r = ListKey {
            in_subkey: false,
            key_list: Option::Some(Vec::new()),
            curkey: Option::None,
            fingerprints: Option::Some(Vec::new()),
        };
        proof {
            assert(key_views_of(Seq::<ListKeyResult>::empty()) =~= Seq::<ListKeyResultV>::empty());
            assert(views_of(Seq::<String>::empty()) =~= Seq::<Seq<char>>::empty());
        }
        r
    }

    /// Handle a `pub`/`sec` line.
    pub fn pub_t(&mut self, args: &Vec<String>)
        ensures
            final(self)@ == pub_step(old(self)@, views_of(args@)),
    {
        let mut k = ListKeyResult::new(args);
        if k.uid.unicode_len() > 0 {
            let u = k.uid.clone();
            let ghost pre_uids = views_of(k.uids@);
            k.uids.push(u);
            proof {
                assert(views_of(k.uids@) =~= pre_uids.push(k.uid@));
                assert(views_of(k.uids@) =~= seq![k.uid@]);
            }
        }
        self.curkey = Option::Some(k);
        self.in_subkey = false;
    }

    /// Handle a `uid` line.
    pub fn uid(&mut self, args: &Vec<String>)
        ensures
            final(self)@ == uid_step(old(self)@, views_of(args@)),
    {
        match self.curkey.take() {
            Option::None => {},
            Option::Some(mut k) => {
                let ghost pre_uids = views_of(k.uids@);
                k.uids.push(col(args, 9));
                proof {
                    assert(views_of(k.uids@) =~= pre_uids.push(
                        col_or_unavailable(views_of(args@), 9),
                    ));
                }
                self.curkey = Option::Some(k);
            },
        }
    }

    /// Handle an `fpr` line.
    pub fn fpr(&mut self, args: &Vec<String>)
        ensures
            final(self)@ == fpr_step(old(self)@, views_of(args@)),
    {
        match self.curkey.take() {
            Option::None => {},
            Option::Some(mut k) => {
                let fingerprint = col(args, 9);
                if !self.in_subkey {
                    k.fingerprint = fingerprint.clone();
                    match self.fingerprints.take() {
                        Option::None => {
                            let mut f: Vec<String> = Vec::new();
                            f.push(fingerprint);
                            proof {
                                assert(views_of(f@) =~= seq![
                                    col_or_unavailable(views_of(args@), 9),
                                ]);
                            }
                            self.fingerprints = Option::Some(f);
                        },
                        Option::Some(mut f) => {
                            let ghost pre = views_of(f@);
                            f.push(fingerprint);
                            proof {
                                assert(views_of(f@) =~= pre.push(
                                    col_or_unavailable(views_of(args@), 9),
                                ));
                            }
                            self.fingerprints = Option::Some(f);
                        },
                    }
                } else if k.subkeys.len() > 0 {
                    let ghost pre_subs = subkey_views_of(k.subkeys@);
                    let mut sk = k.subkeys.pop().unwrap();
                    sk.fingerprint = fingerprint;
                    k.subkeys.push(sk);
                    proof {
                        assert(subkey_views_of(k.subkeys@) =~= pre_subs.update(
                            pre_subs.len() - 1,
                            SubkeyV {
                                fingerprint: col_or_unavailable(views_of(args@), 9),
                                ..pre_subs.last()
                            },
                        ));
                    }
                }
                self.curkey = Option::Some(k);
            },
        }
    }

    /// Handle a `sub` line.
    pub fn sub(&mut self, args: &Vec<String>)
        ensures
            final(self)@ == sub_step(old(self)@, views_of(args@)),
    {
        match self.curkey.take() {
            Option::None => {},
            Option::Some(mut k) => {
                let ghost pre_subs = subkey_views_of(k.subkeys@);
                k.subkeys.push(Subkey::new(args));
                proof {
                    assert(subkey_views_of(k.subkeys@) =~= pre_subs.push(
                        subkey_from_cols(views_of(args@)),
                    ));
                }
                self.curkey = Option::Some(k);
                self.in_subkey = true;
            },
        }
    }

    /// Handle an `ssb` line (same effect as `sub`).
    pub fn ssb(&mut self, args: &Vec<String>)
        ensures
            final(self)@ == sub_step(old(self)@, views_of(args@)),
    {
        self.sub(args);
    }

    /// Handle a `sig` line.
    pub fn sig(&mut self, args: &Vec<String>)
        ensures
            final(self)@ == sig_step(old(self)@, views_of(args@)),
    {
        match self.curkey.take() {
            Option::None => {},
            Option::Some(mut k) => {
                let mut triple: Vec<String> = Vec::new();
                triple.push(col(args, 4));
                triple.push(col(args, 9));
                triple.push(col(args, 10));
                let ghost pre_sigs = deep_views_of(k.sigs@);
                let ghost cols = views_of(args@);
                proof {
                    assert(views_of(triple@) =~= seq![
                        col_or_unavailable(cols, 4),
                        col_or_unavailable(cols, 9),
                        col_or_unavailable(cols, 10),
                    ]);
                }
                k.sigs.push(triple);
                proof {
                    assert(deep_views_of(k.sigs@) =~= pre_sigs.push(
                        seq![
                            col_or_unavailable(cols, 4),
                            col_or_unavailable(cols, 9),
                            col_or_unavailable(cols, 10),
                        ],
                    ));
                }
                self.curkey = Option::Some(k);
            },
        }
    }

    /// Handle a `grp` line.
    pub fn grp(&mut self, args: &Vec<String>)
        ensures
            final(self)@ == grp_step(old(self)@, views_of(args@)),
    {
        match self.curkey.take() {
            Option::None => {},
            Option::Some(mut k) => {
                let grp = col(args, 9);
                if !self.in_subkey {
                    k.keygrip = grp;
                } else if k.subkeys.len() > 0 {
                    let ghost pre_subs = subkey_views_of(k.subkeys@);
                    let mut sk = k.subkeys.pop().unwrap();
                    sk.keygrip = grp;
                    k.subkeys.push(sk);
                    proof {
                        assert(subkey_views_of(k.subkeys@) =~= pre_subs.update(
                            pre_subs.len() - 1,
                            SubkeyV {
                                keygrip: col_or_unavailable(views_of(args@), 9),
                                ..pre_subs.last()
                            },
                        ));
                    }
                }
                self.curkey = Option::Some(k);
            },
        }
    }

    /// Dispatch one listing line on its keyword.
    pub fn call_method(&mut self, keyword: &str, args: &Vec<String>)
        ensures
            final(self)@ == list_step(old(self)@, keyword@, views_of(args@)),
    {
        if crate::text::str_eq(keyword, "pub") || crate::text::str_eq(keyword, "sec") {
            self.pub_t(args);
        } else if crate::text::str_eq(keyword, "uid") {
            self.uid(args);
        } else if crate::text::str_eq(keyword, "fpr") {
            self.fpr(args);
        } else if crate::text::str_eq(keyword, "sub") || crate::text::str_eq(keyword, "ssb") {
            self.sub(args);
        } else if crate::text::str_eq(keyword, "sig") {
            self.sig(args);
        } else if crate::text::str_eq(keyword, "grp") {
            self.grp(args);
        }
    }

    /// Finalize the record under construction, if any.
    pub fn append_result(&mut self)
        ensures
            final(self)@ == append_step(old(self)@),
    {
        match &self.curkey {
            Option::None => {},
            Option::Some(k) => {
                let ck = k.clone();
                match self.key_list.take() {
                    Option::None => {
                        let mut l: Vec<ListKeyResult> = Vec::new();
                        l.push(ck);
                        proof {
                            assert(key_views_of(l@) =~= seq![old(self)@.curkey.unwrap()]);
                        }
                        self.key_list = Option::Some(l);
                    },
                    Option::Some(mut l) => {
                        let ghost pre = key_views_of(l@);
                        l.push(ck);
                        proof {
                            assert(key_views_of(l@) =~= pre.push(old(self)@.curkey.unwrap()));
                        }
                        self.key_list = Option::Some(l);
                    },
                }
            },
        }
    }

    /// The finalized records, or nothing when no record was opened.
    pub fn get_list_key_result(&mut self) -> (r: Vec<ListKeyResult>)
        ensures
            *final(self) == *old(self),
            key_views_of(r@) == result_of(old(self)@),
    {
        if self.curkey.is_none() {
            let r: Vec<ListKeyResult> = Vec::new();
            proof {
                assert(key_views_of(r@) =~= Seq::<ListKeyResultV>::empty());
            }
            return r;
        }
        match &self.key_list {
            Option::None => {
                let r: Vec<ListKeyResult> = Vec::new();
                proof {
                    assert(key_views_of(r@) =~= Seq::<ListKeyResultV>::empty());
                }
                r
            },
            Option::Some(l) => {
                let mut r: Vec<ListKeyResult> = Vec::new();
                let mut i: usize = 0;
                while i < l.len()
                    invariant
                        i <= l@.len(),
                        r@.len() == i,
                        forall|j: int| 0 <= j < i ==> r@[j]@ == l@[j]@,
                    decreases l@.len() - i,
                {
                    r.push(l[i].clone());
                    i += 1;
                }
                proof {
                    assert(key_views_of(r@) =~= key_views_of(l@));
                }
                r
            },
        }
    }
}

impl Clone for ListKeyResult {
    fn clone(&self) -> (res: Self)
        ensures
            res@ == self@,
    {
        ListKeyResult {
            key_type: self.key_type.clone(),
            validity: self.validity.clone(),
            length: self.length.clone(),
            algo: self.algo.clone(),
            keyid: self.keyid.clone(),
            date: self.date.clone(),
            expires: self.expires.clone(),
            dummy: self.dummy.clone(),
            ownertrust: self.ownertrust.clone(),
            uid: self.uid.clone(),
            sig: self.sig.clone(),
            cap: self.cap.clone(),
            issuer: self.issuer.clone(),
            flag: self.flag.clone(),
            token: self.token.clone(),
            hash: self.hash.clone(),
            curve: self.curve.clone(),
            compliance: self.compliance.clone(),
            updated: self.updated.clone(),
            origin: self.origin.clone(),
            comment: self.comment.clone(),
            keygrip: self.keygrip.clone(),
            uids: clone_vec_string(&self.uids),
            sigs: clone_vec_vec_string(&self.sigs),
            subkeys: clone_vec_subkey(&self.subkeys),
            fingerprint: self.fingerprint.clone(),
        }
    }
}

} // verus!
