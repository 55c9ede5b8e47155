//! Semantic versions and their precedence ordering.
//!
//! A version is parsed by the `semver` crate (validation of the textual
//! form is its job, behind a trusted wrapper); precedence between parsed
//! versions is the resolver's own logic and is verified here. Precedence
//! follows semantic versioning: the numeric triple compares numerically, a
//! pre-release sorts below its corresponding release, and pre-release
//! identifiers compare one by one, numeric identifiers numerically and
//! alphanumeric ones in ASCII order. Build metadata has no precedence.
//!
//! Numeric identifiers carry no leading zeroes (the parser rejects them),
//! so comparing digit strings by length and then byte-wise equals numeric
//! comparison and cannot overflow.

use vstd::prelude::*;

verus! {

/// A parsed semantic version: the numeric triple and the raw bytes of the
/// pre-release component (empty for a release).
pub struct Version {
    pub major: u64,
    pub minor: u64,
    pub patch: u64,
    pub pre: Vec<u8>,
}

/// The mathematical model of a version.
pub ghost struct SemVer {
    pub major: int,
    pub minor: int,
    pub patch: int,
    pub pre: Seq<u8>,
}

impl View for Version {
    type V = SemVer;

    open spec fn view(&self) -> SemVer {
        SemVer {
            major: self.major as int,
            minor: self.minor as int,
            patch: self.patch as int,
            pre: self.pre@,
        }
    }
}

/// What `semver::Version::parse` returns for a version string: the numeric
/// triple and the pre-release bytes, or `None` when the string is not a
/// valid semantic version. The result depends on the string alone.
pub uninterp spec fn semver_parts(s: Seq<char>) -> Option<(int, int, int, Seq<u8>)>;

/// The parsed model of a version string, built from `semver_parts`.
pub open spec fn spec_parse_version(s: Seq<char>) -> Option<SemVer> {
    match semver_parts(s) {
        Some(t) => Some(SemVer { major: t.0, minor: t.1, patch: t.2, pre: t.3 }),
        None => None,
    }
}

/// The parsed model of a version string, or the all-zero release when the
/// string does not parse; used only where parsing is known to succeed.
pub open spec fn parsed_or_default(s: Seq<char>) -> SemVer {
    match spec_parse_version(s) {
        Some(v) => v,
        None => SemVer { major: 0, minor: 0, patch: 0, pre: Seq::empty() },
    }
}

/// Relies on `semver::Version::parse`: it accepts exactly the valid
/// semantic version strings and splits one into its numeric triple,
/// pre-release and build metadata. Build metadata takes no part in
/// precedence, so it is dropped here.
#[verifier::external_body]
pub(crate) fn parse_version(s: &str) -> (r: Option<Version>)
    ensures
        r matches Some(v) ==> semver_parts(s@) == Some(
            (v.major as int, v.minor as int, v.patch as int, v.pre@),
        ),
        r is None ==> semver_parts(s@) is None,
{
    match semver::Version::parse(s) {
        Ok(v) => Some(Version {
            major: v.major,
            minor: v.minor,
            patch: v.patch,
            pre: v.pre.as_str().as_bytes().to_vec(),
        }),
        Err(_) => None,
    }
}

/// The byte that separates pre-release identifiers.
pub open spec fn dot() -> u8 {
    46
}

/// Whether a byte is an ASCII digit.
pub open spec fn is_digit(b: u8) -> bool {
    48 <= b <= 57
}

/// Whether every byte of an identifier is a digit: a numeric identifier.
pub open spec fn all_digits(s: Seq<u8>) -> bool {
    forall|i: int| 0 <= i < s.len() ==> is_digit(s[i])
}

/// The length of the first identifier: the index of the first dot, or the
/// whole length when there is none.
pub open spec fn ident_end(s: Seq<u8>) -> nat
    decreases s.len(),
{
    if s.len() == 0 {
        0
    } else if s[0] == dot() {
        0
    } else {
        1 + ident_end(s.drop_first())
    }
}

/// The pre-release bytes split at dots into identifiers.
pub open spec fn split_idents(s: Seq<u8>) -> Seq<Seq<u8>>
    decreases s.len(),
{
    if s.len() == 0 {
        seq![]
    } else {
        let d = ident_end(s);
        if d >= s.len() {
            seq![s]
        } else {
            seq![s.take(d as int)] + split_idents(s.skip(d + 1 as int))
        }
    }
}

/// Byte-wise lexicographic order, a proper prefix sorting first.
pub open spec fn lex_lt(a: Seq<u8>, b: Seq<u8>) -> bool
    decreases a.len(),
{
    if b.len() == 0 {
        false
    } else if a.len() == 0 {
        true
    } else if a[0] < b[0] {
        true
    } else if a[0] > b[0] {
        false
    } else {
        lex_lt(a.drop_first(), b.drop_first())
    }
}

/// Numeric order on digit strings without leading zeroes: a shorter string
/// is a smaller number, equal lengths compare byte-wise.
pub open spec fn num_lt(a: Seq<u8>, b: Seq<u8>) -> bool {
    a.len() < b.len() || (a.len() == b.len() && lex_lt(a, b))
}

/// Precedence between two pre-release identifiers: numeric identifiers
/// sort below alphanumeric ones, numeric ones compare numerically,
/// alphanumeric ones in ASCII order.
pub open spec fn ident_lt(a: Seq<u8>, b: Seq<u8>) -> bool {
    if all_digits(a) && !all_digits(b) {
        true
    } else if !all_digits(a) && all_digits(b) {
        false
    } else if all_digits(a) {
        num_lt(a, b)
    } else {
        lex_lt(a, b)
    }
}

/// Precedence between two identifier sequences: identifier by identifier,
/// a proper prefix sorting first.
pub open spec fn idents_lt(a: Seq<Seq<u8>>, b: Seq<Seq<u8>>) -> bool
    decreases a.len(),
{
    if b.len() == 0 {
        false
    } else if a.len() == 0 {
        true
    } else if ident_lt(a[0], b[0]) {
        true
    } else if ident_lt(b[0], a[0]) {
        false
    } else {
        idents_lt(a.drop_first(), b.drop_first())
    }
}

/// Precedence between two pre-release components of versions whose numeric
/// triples are equal: a pre-release sorts below the release (the empty
/// component), two pre-releases compare by their identifiers.
pub open spec fn pre_lt(a: Seq<u8>, b: Seq<u8>) -> bool {
    if a.len() == 0 {
        false
    } else if b.len() == 0 {
        true
    } else {
        idents_lt(split_idents(a), split_idents(b))
    }
}

/// Strict semantic-version precedence.
pub open spec fn spec_version_lt(a: SemVer, b: SemVer) -> bool {
    a.major < b.major || (a.major == b.major && (a.minor < b.minor || (a.minor == b.minor && (
    a.patch < b.patch || (a.patch == b.patch && pre_lt(a.pre, b.pre))))))
}

/// Two versions of equal precedence: equal numeric triples and equal
/// pre-release identifier sequences.
pub open spec fn spec_version_equiv(a: SemVer, b: SemVer) -> bool {
    a.major == b.major && a.minor == b.minor && a.patch == b.patch && (a.pre.len() == 0) == (
    b.pre.len() == 0) && split_idents(a.pre) =~~= split_idents(b.pre)
}

/// Non-strict semantic-version precedence.
pub open spec fn spec_version_le(a: SemVer, b: SemVer) -> bool {
    spec_version_lt(a, b) || spec_version_equiv(a, b)
}

/// Decides strict precedence between two parsed versions.
pub fn version_lt(a: &Version, b: &Version) -> (r: bool)
    ensures
        r == spec_version_lt(a@, b@),
{
    if a.major != b.major {
        a.major < b.major
    } else if a.minor != b.minor {
        a.minor < b.minor
    } else if a.patch != b.patch {
        a.patch < b.patch
    } else if a.pre.len() == 0 {
        false
    } else if b.pre.len() == 0 {
        true
    } else {
        let sa = split_idents_exec(&a.pre);
        let sb = split_idents_exec(&b.pre);
        proof {
            assert(seqs_of(sa@).skip(0) =~~= seqs_of(sa@));
            assert(seqs_of(sb@).skip(0) =~~= seqs_of(sb@));
        }
        idents_lt_from(&sa, &sb, 0)
    }
}

/// A sequence is determined by its head and its tail.
proof fn lemma_head_tail_eq<A>(a: Seq<A>, b: Seq<A>)
    requires
        a.len() > 0,
        b.len() > 0,
        a[0] == b[0],
        a.drop_first() == b.drop_first(),
    ensures
        a == b,
{
    assert(a =~= b) by {
        assert(a.drop_first().len() == a.len() - 1);
        assert(b.drop_first().len() == b.len() - 1);
        assert(a.len() == b.len());
        assert forall|i: int| 0 <= i < a.len() implies a[i] == b[i] by {
            if i >= 1 {
                assert(a[i] == a.drop_first()[i - 1]);
                assert(b[i] == b.drop_first()[i - 1]);
            }
        }
    }
}

/// `lex_lt` is asymmetric.
proof fn lemma_lex_asym(a: Seq<u8>, b: Seq<u8>)
    requires
        lex_lt(a, b),
    ensures
        !lex_lt(b, a),
    decreases a.len(),
{
    if b.len() == 0 {
    } else if a.len() == 0 {
    } else if a[0] == b[0] {
        lemma_lex_asym(a.drop_first(), b.drop_first());
    }
}

/// `lex_lt` is total: two strings are ordered or equal.
proof fn lemma_lex_total(a: Seq<u8>, b: Seq<u8>)
    ensures
        lex_lt(a, b) || lex_lt(b, a) || a =~= b,
    decreases a.len(),
{
    if a.len() == 0 && b.len() == 0 {
        assert(a =~= b);
    } else if a.len() != 0 && b.len() != 0 && a[0] == b[0] {
        lemma_lex_total(a.drop_first(), b.drop_first());
        if !lex_lt(a.drop_first(), b.drop_first()) && !lex_lt(b.drop_first(), a.drop_first()) {
            assert(a.drop_first() =~= b.drop_first());
            lemma_head_tail_eq(a, b);
        }
    }
}

/// `lex_lt` is transitive.
proof fn lemma_lex_trans(a: Seq<u8>, b: Seq<u8>, c: Seq<u8>)
    requires
        lex_lt(a, b),
        lex_lt(b, c),
    ensures
        lex_lt(a, c),
    decreases a.len(),
{
    if a.len() != 0 && b.len() != 0 && c.len() != 0 && a[0] == b[0] && b[0] == c[0] {
        lemma_lex_trans(a.drop_first(), b.drop_first(), c.drop_first());
    }
}

/// `ident_lt` is asymmetric.
proof fn lemma_ident_asym(a: Seq<u8>, b: Seq<u8>)
    requires
        ident_lt(a, b),
    ensures
        !ident_lt(b, a),
{
    if all_digits(a) && all_digits(b) {
        if a.len() == b.len() {
            lemma_lex_asym(a, b);
        }
    } else if !all_digits(a) && !all_digits(b) {
        lemma_lex_asym(a, b);
    }
}

/// `ident_lt` is total: two identifiers are ordered or equal.
proof fn lemma_ident_total(a: Seq<u8>, b: Seq<u8>)
    ensures
        ident_lt(a, b) || ident_lt(b, a) || a =~= b,
{
    if all_digits(a) == all_digits(b) {
        lemma_lex_total(a, b);
        if a =~= b {
        } else if all_digits(a) {
            if a.len() == b.len() {
                assert(lex_lt(a, b) || lex_lt(b, a));
            }
        }
    }
}

/// `ident_lt` is transitive.
proof fn lemma_ident_trans(a: Seq<u8>, b: Seq<u8>, c: Seq<u8>)
    requires
        ident_lt(a, b),
        ident_lt(b, c),
    ensures
        ident_lt(a, c),
{
    let da = all_digits(a);
    let db = all_digits(b);
    let dc = all_digits(c);
    if da && db && dc {
        if a.len() == c.len() {
            assert(a.len() == b.len());
            lemma_lex_trans(a, b, c);
        }
    } else if !da && !db && !dc {
        lemma_lex_trans(a, b, c);
    }
}

/// `idents_lt` is asymmetric.
proof fn lemma_idents_asym(a: Seq<Seq<u8>>, b: Seq<Seq<u8>>)
    requires
        idents_lt(a, b),
    ensures
        !idents_lt(b, a),
    decreases a.len(),
{
    if b.len() == 0 {
    } else if a.len() == 0 {
    } else if ident_lt(a[0], b[0]) {
        lemma_ident_asym(a[0], b[0]);
    } else if !ident_lt(b[0], a[0]) {
        lemma_idents_asym(a.drop_first(), b.drop_first());
    }
}

/// `idents_lt` is total: two identifier sequences are ordered or equal.
proof fn lemma_idents_total(a: Seq<Seq<u8>>, b: Seq<Seq<u8>>)
    ensures
        idents_lt(a, b) || idents_lt(b, a) || a =~~= b,
    decreases a.len(),
{
    if a.len() == 0 && b.len() == 0 {
        assert(a =~~= b);
    } else if a.len() != 0 && b.len() != 0 {
        lemma_ident_total(a[0], b[0]);
        if !ident_lt(a[0], b[0]) && !ident_lt(b[0], a[0]) {
            assert(a[0] =~= b[0]);
            lemma_idents_total(a.drop_first(), b.drop_first());
            if !idents_lt(a.drop_first(), b.drop_first()) && !idents_lt(
                b.drop_first(),
                a.drop_first(),
            ) {
                assert(a.drop_first() =~~= b.drop_first());
                lemma_head_tail_eq(a, b);
            }
        }
    }
}

/// `idents_lt` is transitive.
proof fn lemma_idents_trans(a: Seq<Seq<u8>>, b: Seq<Seq<u8>>, c: Seq<Seq<u8>>)
    requires
        idents_lt(a, b),
        idents_lt(b, c),
    ensures
        idents_lt(a, c),
    decreases a.len(),
{
    if a.len() == 0 {
    } else {
        let a0 = a[0];
        let b0 = b[0];
        let c0 = c[0];
        if ident_lt(a0, b0) {
            if ident_lt(b0, c0) {
                lemma_ident_trans(a0, b0, c0);
            } else {
                lemma_ident_total(b0, c0);
                assert(b0 =~= c0);
            }
        } else {
            lemma_ident_total(a0, b0);
            assert(a0 =~= b0);
            if !ident_lt(b0, c0) {
                lemma_ident_total(b0, c0);
                assert(b0 =~= c0);
                lemma_idents_trans(a.drop_first(), b.drop_first(), c.drop_first());
            }
        }
    }
}

/// `pre_lt` is asymmetric.
proof fn lemma_pre_asym(a: Seq<u8>, b: Seq<u8>)
    requires
        pre_lt(a, b),
    ensures
        !pre_lt(b, a),
{
    if a.len() != 0 && b.len() != 0 {
        lemma_idents_asym(split_idents(a), split_idents(b));
    }
}

/// `pre_lt` is total up to equal identifier sequences.
proof fn lemma_pre_total(a: Seq<u8>, b: Seq<u8>)
    ensures
        pre_lt(a, b) || pre_lt(b, a) || ((a.len() == 0) == (b.len() == 0) && split_idents(a)
            =~~= split_idents(b)),
{
    if a.len() == 0 && b.len() == 0 {
        assert(split_idents(a) =~~= split_idents(b));
    } else if a.len() != 0 && b.len() != 0 {
        lemma_idents_total(split_idents(a), split_idents(b));
    }
}

/// `pre_lt` is transitive.
proof fn lemma_pre_trans(a: Seq<u8>, b: Seq<u8>, c: Seq<u8>)
    requires
        pre_lt(a, b),
        pre_lt(b, c),
    ensures
        pre_lt(a, c),
{
    if c.len() != 0 {
        assert(a.len() != 0 && b.len() != 0);
        lemma_idents_trans(split_idents(a), split_idents(b), split_idents(c));
    }
}

/// Strict version precedence is transitive.
pub proof fn lemma_version_order_transitive(a: SemVer, b: SemVer, c: SemVer)
    requires
        spec_version_lt(a, b),
        spec_version_lt(b, c),
    ensures
        spec_version_lt(a, c),
{
    if a.major == b.major && b.major == c.major && a.minor == b.minor && b.minor == c.minor
        && a.patch == b.patch && b.patch == c.patch {
        lemma_pre_trans(a.pre, b.pre, c.pre);
    }
}

/// Version precedence is total: two versions are ordered or of equal
/// precedence.
pub proof fn lemma_version_order_total(a: SemVer, b: SemVer)
    ensures
        spec_version_lt(a, b) || spec_version_lt(b, a) || spec_version_equiv(a, b),
{
    if a.major == b.major && a.minor == b.minor && a.patch == b.patch {
        lemma_pre_total(a.pre, b.pre);
    }
}

/// Strict version precedence is asymmetric.
pub proof fn lemma_version_order_asymmetric(a: SemVer, b: SemVer)
    requires
        spec_version_lt(a, b),
    ensures
        !spec_version_lt(b, a),
{
    if a.major == b.major && a.minor == b.minor && a.patch == b.patch {
        lemma_pre_asym(a.pre, b.pre);
    }
}

/// Equal precedence on the left of a strict comparison can be replaced.
proof fn lemma_equiv_lt(a: SemVer, b: SemVer, c: SemVer)
    requires
        spec_version_equiv(a, b),
        spec_version_lt(b, c),
    ensures
        spec_version_lt(a, c),
{
    if b.major == c.major && b.minor == c.minor && b.patch == c.patch {
        assert(pre_lt(b.pre, c.pre));
        if c.pre.len() != 0 {
            assert(b.pre.len() != 0 && a.pre.len() != 0);
            assert(split_idents(a.pre) == split_idents(b.pre));
        }
    }
}

/// Equal precedence on the right of a strict comparison can be replaced.
proof fn lemma_lt_equiv(a: SemVer, b: SemVer, c: SemVer)
    requires
        spec_version_lt(a, b),
        spec_version_equiv(b, c),
    ensures
        spec_version_lt(a, c),
{
    if a.major == b.major && a.minor == b.minor && a.patch == b.patch {
        assert(pre_lt(a.pre, b.pre));
        if b.pre.len() != 0 {
            assert(split_idents(b.pre) == split_idents(c.pre));
        }
    }
}

/// Non-strict version precedence is transitive.
pub proof fn lemma_version_le_transitive(a: SemVer, b: SemVer, c: SemVer)
    requires
        spec_version_le(a, b),
        spec_version_le(b, c),
    ensures
        spec_version_le(a, c),
{
    if spec_version_lt(a, b) && spec_version_lt(b, c) {
        lemma_version_order_transitive(a, b, c);
    } else if spec_version_lt(a, b) {
        lemma_lt_equiv(a, b, c);
    } else if spec_version_lt(b, c) {
        lemma_equiv_lt(a, b, c);
    }
}

/// The views of a vector of byte vectors.
pub open spec fn seqs_of(v: Seq<Vec<u8>>) -> Seq<Seq<u8>> {
    Seq::new(v.len(), |i: int| v[i]@)
}

/// `ident_end` is the position of the first dot, or the length.
proof fn lemma_ident_end_at(s: Seq<u8>, k: int)
    requires
        0 <= k <= s.len(),
        forall|j: int| 0 <= j < k ==> s[j] != dot(),
        k < s.len() ==> s[k] == dot(),
    ensures
        ident_end(s) == k,
    decreases s.len(),
{
    if s.len() == 0 {
    } else if s[0] == dot() {
        assert(k == 0);
    } else {
        assert(k >= 1);
        let t = s.drop_first();
        assert(forall|j: int| 0 <= j < k - 1 ==> t[j] == s[j + 1] && t[j] != dot());
        lemma_ident_end_at(t, k - 1);
    }
}

/// Finds the end of the identifier that starts at `from`.
fn find_ident_end(s: &Vec<u8>, from: usize) -> (r: usize)
    requires
        from <= s.len(),
    ensures
        from <= r <= s.len(),
        r - from == ident_end(s@.skip(from as int)),
{
    let mut i: usize = from;
    while i < s.len() && s[i] != 46u8
        invariant
            from <= i <= s.len(),
            forall|j: int| from <= j < i ==> s@[j] != dot(),
        decreases s.len() - i,
    {
        i = i + 1;
    }
    proof {
        let t = s@.skip(from as int);
        assert(forall|j: int| 0 <= j < i - from ==> t[j] == s@[j + from] && t[j] != dot());
        lemma_ident_end_at(t, i - from);
    }
    i
}

/// Copies `s[from..to]` into a fresh vector.
fn copy_range(s: &Vec<u8>, from: usize, to: usize) -> (r: Vec<u8>)
    requires
        from <= to <= s.len(),
    ensures
        r@ == s@.subrange(from as int, to as int),
{
    let mut r: Vec<u8> = Vec::new();
    let mut i: usize = from;
    while i < to
        invariant
            from <= i <= to <= s.len(),
            r@ == s@.subrange(from as int, i as int),
        decreases to - i,
    {
        r.push(s[i]);
        proof {
            assert(r@ =~= s@.subrange(from as int, i + 1 as int));
        }
        i = i + 1;
    }
    r
}

/// Splits pre-release bytes at dots into their identifiers.
fn split_idents_exec(s: &Vec<u8>) -> (r: Vec<Vec<u8>>)
    ensures
        seqs_of(r@) =~~= split_idents(s@),
{
    let mut out: Vec<Vec<u8>> = Vec::new();
    let mut pos: usize = 0;
    proof {
        assert(s@.skip(0) =~= s@);
        assert(seqs_of(out@) + split_idents(s@) =~~= split_idents(s@));
    }
    while pos < s.len()
        invariant
            pos <= s.len(),
            seqs_of(out@) + split_idents(s@.skip(pos as int)) =~~= split_idents(s@),
        decreases s.len() - pos,
    {
        let d = find_ident_end(s, pos);
        let seg = copy_range(s, pos, d);
        proof {
            let rem = s@.skip(pos as int);
            assert(rem.len() > 0);
            assert(rem.take(ident_end(rem) as int) =~= s@.subrange(pos as int, d as int));
            if d < s.len() {
                assert(rem.skip(ident_end(rem) + 1 as int) =~= s@.skip(d + 1 as int));
            } else {
                assert(rem =~= s@.subrange(pos as int, d as int));
            }
        }
        let ghost old_out = out@;
        out.push(seg);
        proof {
            assert(seqs_of(out@) =~~= seqs_of(old_out).push(seg@));
        }
        if d == s.len() {
            pos = s.len();
            proof {
                assert(s@.skip(pos as int) =~= Seq::<u8>::empty());
            }
        } else {
            pos = d + 1;
        }
    }
    proof {
        assert(s@.skip(pos as int) =~= Seq::<u8>::empty());
    }
    out
}

/// Whether every byte of an identifier is a digit.
fn all_digits_exec(s: &Vec<u8>) -> (r: bool)
    ensures
        r == all_digits(s@),
{
    let mut i: usize = 0;
    while i < s.len()
        invariant
            i <= s.len(),
            forall|j: int| 0 <= j < i ==> is_digit(s@[j]),
        decreases s.len() - i,
    {
        if s[i] < 48u8 || s[i] > 57u8 {
            return false;
        }
        i = i + 1;
    }
    true
}

/// Decides `lex_lt` from position `i` on.
fn lex_lt_from(a: &Vec<u8>, b: &Vec<u8>, i: usize) -> (r: bool)
    requires
        i <= a.len(),
        i <= b.len(),
    ensures
        r == lex_lt(a@.skip(i as int), b@.skip(i as int)),
    decreases a.len() - i,
{
    proof {
        if i < a.len() && i < b.len() {
            assert(a@.skip(i as int).drop_first() =~= a@.skip(i + 1 as int));
            assert(b@.skip(i as int).drop_first() =~= b@.skip(i + 1 as int));
        }
    }
    if i == b.len() {
        false
    } else if i == a.len() {
        true
    } else if a[i] < b[i] {
        true
    } else if a[i] > b[i] {
        false
    } else {
        lex_lt_from(a, b, i + 1)
    }
}

/// Decides precedence between two identifiers.
fn ident_lt_exec(a: &Vec<u8>, b: &Vec<u8>) -> (r: bool)
    ensures
        r == ident_lt(a@, b@),
{
    let da = all_digits_exec(a);
    let db = all_digits_exec(b);
    if da && !db {
        true
    } else if !da && db {
        false
    } else if da {
        if a.len() != b.len() {
            a.len() < b.len()
        } else {
            proof {
                assert(a@.skip(0) =~= a@);
                assert(b@.skip(0) =~= b@);
            }
            lex_lt_from(a, b, 0)
        }
    } else {
        proof {
            assert(a@.skip(0) =~= a@);
            assert(b@.skip(0) =~= b@);
        }
        lex_lt_from(a, b, 0)
    }
}

/// Decides `idents_lt` from position `i` on.
fn idents_lt_from(a: &Vec<Vec<u8>>, b: &Vec<Vec<u8>>, i: usize) -> (r: bool)
    requires
        i <= a.len(),
        i <= b.len(),
    ensures
        r == idents_lt(seqs_of(a@).skip(i as int), seqs_of(b@).skip(i as int)),
    decreases a.len() - i,
{
    proof {
        if i < a.len() && i < b.len() {
            assert(seqs_of(a@).skip(i as int).drop_first() =~= seqs_of(a@).skip(i + 1 as int));
            assert(seqs_of(b@).skip(i as int).drop_first() =~= seqs_of(b@).skip(i + 1 as int));
        }
    }
    if i == b.len() {
        false
    } else if i == a.len() {
        true
    } else if ident_lt_exec(&a[i], &b[i]) {
        true
    } else if ident_lt_exec(&b[i], &a[i]) {
        false
    } else {
        idents_lt_from(a, b, i + 1)
    }
}

} // verus!
