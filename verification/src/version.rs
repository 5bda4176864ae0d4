//! Semantic versions: parsing and precedence.
//!
//! A version string is `MAJOR.MINOR.PATCH`, optionally followed by
//! `-` and a dot-separated pre-release, optionally followed by `+` and
//! dot-separated build metadata. Precedence compares the three numbers,
//! then the pre-release identifiers; build metadata is ignored.

use vstd::prelude::*;

verus! {

// ---------------------------------------------------------------------------
// Character classes
// ---------------------------------------------------------------------------

pub open spec fn is_digit(c: char) -> bool {
    '0' as u32 <= c as u32 && c as u32 <= '9' as u32
}

pub open spec fn digit_val(c: char) -> nat {
    (c as u32 - '0' as u32) as nat
}

pub open spec fn is_letter(c: char) -> bool {
    ('a' as u32 <= c as u32 && c as u32 <= 'z' as u32)
        || ('A' as u32 <= c as u32 && c as u32 <= 'Z' as u32)
}

/// Characters allowed in pre-release and build identifiers.
pub open spec fn is_ident_char(c: char) -> bool {
    is_digit(c) || is_letter(c) || c == '-'
}

pub open spec fn all_digits(s: Seq<char>) -> bool {
    forall|i: int| 0 <= i < s.len() ==> is_digit(#[trigger] s[i])
}

pub open spec fn all_ident_chars(s: Seq<char>) -> bool {
    forall|i: int| 0 <= i < s.len() ==> is_ident_char(#[trigger] s[i])
}

/// A numeric identifier: digits only, no leading zero.
pub open spec fn is_numeric_ident(s: Seq<char>) -> bool {
    s.len() > 0 && all_digits(s) && (s.len() == 1 || s[0] != '0')
}

/// A pre-release identifier: non-empty, identifier characters only, and
/// if it is all digits it must not have a leading zero.
pub open spec fn is_pre_ident(s: Seq<char>) -> bool {
    s.len() > 0 && all_ident_chars(s) && (all_digits(s) ==> (s.len() == 1 || s[0] != '0'))
}

/// A build identifier: non-empty, identifier characters only.
pub open spec fn is_build_ident(s: Seq<char>) -> bool {
    s.len() > 0 && all_ident_chars(s)
}

// ---------------------------------------------------------------------------
// Numeric value of a digit string
// ---------------------------------------------------------------------------

pub open spec fn digits_val(s: Seq<char>) -> nat
    decreases s.len(),
{
    if s.len() == 0 {
        0
    } else {
        digits_val(s.drop_last()) * 10 + digit_val(s.last())
    }
}

// ---------------------------------------------------------------------------
// Scanning
// ---------------------------------------------------------------------------

/// Index of the first occurrence of `c` in `s[i..m]`, or `m` if there is none.
pub open spec fn find_upto(s: Seq<char>, c: char, i: int, m: int) -> int
    decreases m - i,
{
    if !(0 <= i && i < m && m <= s.len()) {
        m
    } else if s[i] == c {
        i
    } else {
        find_upto(s, c, i + 1, m)
    }
}

pub proof fn lemma_find_upto(s: Seq<char>, c: char, i: int, m: int)
    requires
        0 <= i <= m <= s.len(),
    ensures
        i <= find_upto(s, c, i, m) <= m,
        find_upto(s, c, i, m) < m ==> s[find_upto(s, c, i, m)] == c,
        forall|j: int| i <= j < find_upto(s, c, i, m) ==> s[j] != c,
    decreases m - i,
{
    if i < m && s[i] != c {
        lemma_find_upto(s, c, i + 1, m);
    }
}

/// The dot-separated pieces of `s[i..m]`.
pub open spec fn split_upto(s: Seq<char>, i: int, m: int) -> Seq<Seq<char>>
    decreases m - i,
    when 0 <= i <= m <= s.len()
    via split_upto_dec
{
    let d = find_upto(s, '.', i, m);
    if d == m {
        seq![s.subrange(i, m)]
    } else {
        seq![s.subrange(i, d)] + split_upto(s, d + 1, m)
    }
}

#[via_fn]
proof fn split_upto_dec(s: Seq<char>, i: int, m: int) {
    if 0 <= i <= m && m <= s.len() {
        lemma_find_upto(s, '.', i, m);
    }
}

// ---------------------------------------------------------------------------
// The parsed form of a version string (mathematical model)
// ---------------------------------------------------------------------------

pub struct SpecVersion {
    pub major: nat,
    pub minor: nat,
    pub patch: nat,
    pub pre: Seq<Seq<char>>,
}

/// A core number: numeric identifier whose value fits in a `u64`.
pub open spec fn valid_core_number(s: Seq<char>) -> bool {
    is_numeric_ident(s) && digits_val(s) <= u64::MAX as nat
}

pub open spec fn valid_pre_ids(ids: Seq<Seq<char>>) -> bool {
    forall|k: int| 0 <= k < ids.len() ==> is_pre_ident(#[trigger] ids[k])
}

pub open spec fn valid_build_ids(ids: Seq<Seq<char>>) -> bool {
    forall|k: int| 0 <= k < ids.len() ==> is_build_ident(#[trigger] ids[k])
}

/// Parse a whole version string. `None` means the string is not a
/// well-formed semantic version.
pub open spec fn parse_semver(s: Seq<char>) -> Option<SpecVersion> {
    let n = s.len() as int;
    let plus = find_upto(s, '+', 0, n);
    let dash = find_upto(s, '-', 0, plus);
    let d1 = find_upto(s, '.', 0, dash);
    let d2 = find_upto(s, '.', d1 + 1, dash);
    let d3 = find_upto(s, '.', d2 + 1, dash);
    let ok_core = d1 < dash && d2 < dash && d3 == dash && valid_core_number(s.subrange(0, d1))
        && valid_core_number(s.subrange(d1 + 1, d2)) && valid_core_number(
        s.subrange(d2 + 1, dash),
    );
    let ok_pre = dash == plus || valid_pre_ids(split_upto(s, dash + 1, plus));
    let ok_build = plus == n || valid_build_ids(split_upto(s, plus + 1, n));
    if ok_core && ok_pre && ok_build {
        Some(
            SpecVersion {
                major: digits_val(s.subrange(0, d1)),
                minor: digits_val(s.subrange(d1 + 1, d2)),
                patch: digits_val(s.subrange(d2 + 1, dash)),
                pre: if dash == plus {
                    Seq::empty()
                } else {
                    split_upto(s, dash + 1, plus)
                },
            },
        )
    } else {
        None
    }
}

// ---------------------------------------------------------------------------
// Precedence (mathematical model)
// ---------------------------------------------------------------------------

/// Lexicographic order on character sequences, by code point.
pub open spec fn lex_lt(a: Seq<char>, b: Seq<char>) -> bool
    decreases a.len(),
{
    if b.len() == 0 {
        false
    } else if a.len() == 0 {
        true
    } else if a[0] != b[0] {
        (a[0] as u32) < (b[0] as u32)
    } else {
        lex_lt(a.drop_first(), b.drop_first())
    }
}

/// Order on single pre-release identifiers: numeric identifiers compare
/// numerically and precede alphanumeric ones; alphanumeric identifiers
/// compare lexically.
pub open spec fn ident_lt(a: Seq<char>, b: Seq<char>) -> bool {
    if all_digits(a) && all_digits(b) {
        digits_val(a) < digits_val(b)
    } else if all_digits(a) {
        true
    } else if all_digits(b) {
        false
    } else {
        lex_lt(a, b)
    }
}

/// Order on two non-empty pre-release identifier lists: identifiers are
/// compared left to right; a list that is a proper prefix of the other
/// precedes it.
pub open spec fn pre_ids_lt(a: Seq<Seq<char>>, b: Seq<Seq<char>>) -> bool
    decreases a.len(),
{
    if b.len() == 0 {
        false
    } else if a.len() == 0 {
        true
    } else if a[0] == b[0] {
        pre_ids_lt(a.drop_first(), b.drop_first())
    } else {
        ident_lt(a[0], b[0])
    }
}

/// Semantic-version precedence: compare major, minor, patch, then the
/// pre-release: a version with a pre-release precedes the same core
/// without one.
pub open spec fn spec_version_lt(a: SpecVersion, b: SpecVersion) -> bool {
    if a.major != b.major {
        a.major < b.major
    } else if a.minor != b.minor {
        a.minor < b.minor
    } else if a.patch != b.patch {
        a.patch < b.patch
    } else if a.pre.len() == 0 {
        false
    } else if b.pre.len() == 0 {
        true
    } else {
        pre_ids_lt(a.pre, b.pre)
    }
}

/// What `is_update_available` decides: both strings parse, and the
/// latest strictly follows the current under precedence.
pub open spec fn spec_update_available(cur: Seq<char>, latest: Seq<char>) -> bool {
    match (parse_semver(cur), parse_semver(latest)) {
        (Some(a), Some(b)) => spec_version_lt(a, b),
        _ => false,
    }
}

// ---------------------------------------------------------------------------
// Numeric order on digit strings equals length order, then lexical order
// ---------------------------------------------------------------------------

pub open spec fn pow10(n: nat) -> nat
    decreases n,
{
    if n == 0 {
        1
    } else {
        pow10((n - 1) as nat) * 10
    }
}

/// Distinct characters have distinct code points.
pub proof fn lemma_char_cast_injective(c1: char, c2: char)
    requires
        c1 as u32 == c2 as u32,
    ensures
        c1 == c2,
{
    vstd::utf8::char_u32_cast(c1, c1 as u32);
    vstd::utf8::char_u32_cast(c2, c2 as u32);
}

pub proof fn lemma_digits_val_upper(s: Seq<char>)
    requires
        all_digits(s),
    ensures
        digits_val(s) < pow10(s.len()),
    decreases s.len(),
{
    if s.len() > 0 {
        assert(all_digits(s.drop_last())) by {
            assert(forall|i: int|
                0 <= i < s.drop_last().len() ==> #[trigger] s.drop_last()[i] == s[i]);
        }
        lemma_digits_val_upper(s.drop_last());
        assert(digit_val(s.last()) <= 9);
    }
}

pub proof fn lemma_digits_val_lower(s: Seq<char>)
    requires
        all_digits(s),
        s.len() > 0,
        s[0] != '0',
    ensures
        digits_val(s) >= pow10((s.len() - 1) as nat),
    decreases s.len(),
{
    if s.len() == 1 {
        assert(is_digit(s[0]));
        if digit_val(s[0]) == 0 {
            lemma_char_cast_injective(s[0], '0');
        }
        assert(digit_val(s[0]) >= 1);
        assert(digits_val(s) == digits_val(s.drop_last()) * 10 + digit_val(s.last()));
    } else {
        let t = s.drop_last();
        assert(all_digits(t)) by {
            assert(forall|i: int| 0 <= i < t.len() ==> #[trigger] t[i] == s[i]);
        }
        assert(t[0] == s[0]);
        lemma_digits_val_lower(t);
    }
}

/// Decompose the value of a digit string around its first character.
pub proof fn lemma_digits_val_front(s: Seq<char>)
    requires
        s.len() > 0,
    ensures
        digits_val(s) == digit_val(s[0]) * pow10((s.len() - 1) as nat) + digits_val(
            s.drop_first(),
        ),
    decreases s.len(),
{
    if s.len() == 1 {
        assert(s.drop_last() =~= Seq::<char>::empty());
        assert(s.drop_first() =~= Seq::<char>::empty());
        assert(digits_val(s) == digits_val(s.drop_last()) * 10 + digit_val(s.last()));
        assert(digits_val(Seq::<char>::empty()) == 0);
        assert(pow10(0) == 1);
        assert(s.last() == s[0]);
        assert(pow10((s.len() - 1) as nat) == 1);
        assert(digits_val(s.drop_first()) == 0);
        assert(digits_val(s.drop_last()) == 0);
        assert(digits_val(s) == digit_val(s[0]));
        assert(digit_val(s[0]) * pow10((s.len() - 1) as nat) == digit_val(s[0]))
            by (nonlinear_arith)
            requires
                pow10((s.len() - 1) as nat) == 1,
        ;
        assert(digits_val(s) == digit_val(s[0]) * pow10((s.len() - 1) as nat) + digits_val(
            s.drop_first(),
        ));
    } else {
        let t = s.drop_last();
        let st = s.drop_first();
        lemma_digits_val_front(t);
        let p = pow10((t.len() - 1) as nat);
        assert(t[0] == s[0]);
        assert(st.drop_last() =~= t.drop_first());
        assert(st.last() == s.last());
        assert(digits_val(st) == digits_val(t.drop_first()) * 10 + digit_val(s.last()));
        assert(digits_val(s) == digits_val(t) * 10 + digit_val(s.last()));
        assert(pow10((s.len() - 1) as nat) == p * 10);
        assert(digits_val(t) * 10 == (digit_val(s[0]) * p + digits_val(t.drop_first())) * 10);
        assert((digit_val(s[0]) * p + digits_val(t.drop_first())) * 10 == digit_val(s[0]) * (p
            * 10) + digits_val(t.drop_first()) * 10) by (nonlinear_arith);
        assert(digits_val(s) == digit_val(s[0]) * (p * 10) + digits_val(t.drop_first()) * 10
            + digit_val(s.last()));
        assert(digits_val(s) == digit_val(s[0]) * pow10((s.len() - 1) as nat) + digits_val(st));
    }
}

/// For equal-length digit strings, lexical order is numeric order.
pub proof fn lemma_lex_is_numeric_same_len(a: Seq<char>, b: Seq<char>)
    requires
        all_digits(a),
        all_digits(b),
        a.len() == b.len(),
    ensures
        lex_lt(a, b) == (digits_val(a) < digits_val(b)),
    decreases a.len(),
{
    if a.len() == 0 {
    } else {
        lemma_digits_val_front(a);
        lemma_digits_val_front(b);
        let p = pow10((a.len() - 1) as nat);
        let at = a.drop_first();
        let bt = b.drop_first();
        assert(all_digits(at) && all_digits(bt)) by {
            assert(forall|i: int| 0 <= i < at.len() ==> #[trigger] at[i] == a[i + 1]);
            assert(forall|i: int| 0 <= i < bt.len() ==> #[trigger] bt[i] == b[i + 1]);
        }
        lemma_digits_val_upper(at);
        lemma_digits_val_upper(bt);
        assert(pow10(at.len()) == p);
        if a[0] == b[0] {
            lemma_lex_is_numeric_same_len(at, bt);
        } else {
            assert(is_digit(a[0]) && is_digit(b[0]));
            if a[0] as u32 == b[0] as u32 {
                lemma_char_cast_injective(a[0], b[0]);
            }
            if (a[0] as u32) < (b[0] as u32) {
                assert(digit_val(a[0]) < digit_val(b[0]));
                assert(digit_val(a[0]) * p + p <= digit_val(b[0]) * p) by (nonlinear_arith)
                    requires
                        digit_val(a[0]) < digit_val(b[0]),
                        p >= 1,
                ;
                assert(digits_val(a) < digits_val(b));
            } else {
                assert((b[0] as u32) < (a[0] as u32));
                assert(digit_val(b[0]) < digit_val(a[0]));
                assert(digit_val(b[0]) * p + p <= digit_val(a[0]) * p) by (nonlinear_arith)
                    requires
                        digit_val(b[0]) < digit_val(a[0]),
                        p >= 1,
                ;
                assert(digits_val(b) < digits_val(a));
            }
        }
    }
}

pub proof fn lemma_pow10_le(m: nat, n: nat)
    requires
        m <= n,
    ensures
        pow10(m) <= pow10(n),
    decreases n,
{
    if m < n {
        lemma_pow10_le(m, (n - 1) as nat);
        assert(pow10(n) == pow10((n - 1) as nat) * 10);
    }
}

/// For digit strings without leading zeros, numeric order is decided by
/// the length first, then lexically.
pub proof fn lemma_numeric_order(a: Seq<char>, b: Seq<char>)
    requires
        all_digits(a),
        a.len() > 0,
        a.len() == 1 || a[0] != '0',
        all_digits(b),
        b.len() > 0,
        b.len() == 1 || b[0] != '0',
    ensures
        (digits_val(a) < digits_val(b)) == (a.len() < b.len() || (a.len() == b.len() && lex_lt(
            a,
            b,
        ))),
{
    if a.len() < b.len() {
        lemma_digits_val_upper(a);
        assert(b[0] != '0');
        lemma_digits_val_lower(b);
        lemma_pow10_le(a.len(), (b.len() - 1) as nat);
    } else if a.len() > b.len() {
        lemma_digits_val_upper(b);
        assert(a[0] != '0');
        lemma_digits_val_lower(a);
        lemma_pow10_le(b.len(), (a.len() - 1) as nat);
    } else {
        lemma_lex_is_numeric_same_len(a, b);
    }
}

// ---------------------------------------------------------------------------
// Basic order facts
// ---------------------------------------------------------------------------

pub proof fn lemma_lex_lt_irreflexive(a: Seq<char>)
    ensures
        !lex_lt(a, a),
    decreases a.len(),
{
    if a.len() > 0 {
        lemma_lex_lt_irreflexive(a.drop_first());
    }
}

pub proof fn lemma_pre_ids_lt_irreflexive(a: Seq<Seq<char>>)
    ensures
        !pre_ids_lt(a, a),
    decreases a.len(),
{
    if a.len() > 0 {
        lemma_pre_ids_lt_irreflexive(a.drop_first());
    }
}

/// Equal versions never count as an update.
pub proof fn lemma_version_lt_irreflexive(v: SpecVersion)
    ensures
        !spec_version_lt(v, v),
{
    lemma_pre_ids_lt_irreflexive(v.pre);
}

// ---------------------------------------------------------------------------
// Laws of the comparator
// ---------------------------------------------------------------------------

/// For well-formed version strings, an update is reported exactly when
/// the latest version strictly follows the current one under
/// semantic-version precedence; in particular, equal versions report none.
pub proof fn lemma_update_iff_precedence(cur: Seq<char>, latest: Seq<char>)
    requires
        parse_semver(cur) is Some,
        parse_semver(latest) is Some,
    ensures
        spec_update_available(cur, latest) == spec_version_lt(
            parse_semver(cur)->Some_0,
            parse_semver(latest)->Some_0,
        ),
        parse_semver(cur) == parse_semver(latest) ==> !spec_update_available(cur, latest),
{
    lemma_version_lt_irreflexive(parse_semver(latest)->Some_0);
}

/// A malformed version string on either side means no update and no
/// failure: the decision is simply `false`.
pub proof fn lemma_malformed_means_no_update(cur: Seq<char>, latest: Seq<char>)
    requires
        parse_semver(cur) is None || parse_semver(latest) is None,
    ensures
        !spec_update_available(cur, latest),
{
}

// ---------------------------------------------------------------------------
// Executable form
// ---------------------------------------------------------------------------

/// The sequences of characters of a list of identifiers.
pub open spec fn pre_seq(ids: Seq<Vec<char>>) -> Seq<Seq<char>> {
    Seq::new(ids.len(), |i: int| ids[i]@)
}

/// A parsed semantic version. `pre` holds the pre-release identifiers,
/// outermost first; build metadata carries no precedence and is not kept.
pub struct Version {
    pub major: u64,
    pub minor: u64,
    pub patch: u64,
    pub pre: Vec<Vec<char>>,
}

impl View for Version {
    type V = SpecVersion;

    open spec fn view(&self) -> SpecVersion {
        SpecVersion {
            major: self.major as nat,
            minor: self.minor as nat,
            patch: self.patch as nat,
            pre: pre_seq(self.pre@),
        }
    }
}

impl Version {
    pub open spec fn wf(&self) -> bool {
        valid_pre_ids(self@.pre)
    }
}

fn chars_of(s: &str) -> (r: Vec<char>)
    ensures
        r@ == s@,
{
    let n = s.unicode_len();
    let mut r: Vec<char> = Vec::new();
    let mut i: usize = 0;
    while i < n
        invariant
            i <= n == s@.len(),
            r@ == s@.subrange(0, i as int),
        decreases n - i,
    {
        r.push(s.get_char(i));
        i += 1;
        proof {
            assert(r@ =~= s@.subrange(0, i as int));
        }
    }
    proof {
        assert(r@ =~= s@);
    }
    r
}

fn find_char_upto(cs: &Vec<char>, c: char, from: usize, upto: usize) -> (r: usize)
    requires
        from <= upto <= cs@.len(),
    ensures
        r as int == find_upto(cs@, c, from as int, upto as int),
        from <= r <= upto,
{
    proof {
        lemma_find_upto(cs@, c, from as int, upto as int);
    }
    let mut i = from;
    while i < upto && cs[i] != c
        invariant
            from <= i <= upto <= cs@.len(),
            find_upto(cs@, c, from as int, upto as int) == find_upto(cs@, c, i as int, upto as int),
        decreases upto - i,
    {
        i += 1;
    }
    i
}

fn subvec(cs: &Vec<char>, a: usize, b: usize) -> (r: Vec<char>)
    requires
        a <= b <= cs@.len(),
    ensures
        r@ == cs@.subrange(a as int, b as int),
{
    let mut r: Vec<char> = Vec::new();
    let mut i = a;
    while i < b
        invariant
            a <= i <= b <= cs@.len(),
            r@ == cs@.subrange(a as int, i as int),
        decreases b - i,
    {
        r.push(cs[i]);
        i += 1;
        proof {
            assert(r@ =~= cs@.subrange(a as int, i as int));
        }
    }
    r
}

/// `digits_val` can only grow when more characters follow.
pub proof fn lemma_digits_val_prefix_le(s: Seq<char>, j: int)
    requires
        0 <= j <= s.len(),
    ensures
        digits_val(s) >= digits_val(s.subrange(0, j)),
    decreases s.len(),
{
    if j < s.len() {
        assert(s.drop_last().subrange(0, j) =~= s.subrange(0, j));
        lemma_digits_val_prefix_le(s.drop_last(), j);
        assert(digits_val(s.drop_last()) * 10 >= digits_val(s.drop_last()));
    } else {
        assert(s.subrange(0, j) =~= s);
    }
}

/// Parse `cs[a..b]` as a core number: digits only, no leading zero,
/// value within `u64`.
fn parse_number(cs: &Vec<char>, a: usize, b: usize) -> (r: Option<u64>)
    requires
        a <= b <= cs@.len(),
    ensures
        ({
            let t = cs@.subrange(a as int, b as int);
            match r {
                Some(v) => valid_core_number(t) && v as nat == digits_val(t),
                None => !valid_core_number(t),
            }
        }),
{
    let ghost t = cs@.subrange(a as int, b as int);
    if a == b {
        return None;
    }
    if b - a > 1 && cs[a] as u32 == '0' as u32 {
        proof {
            lemma_char_cast_injective(cs@[a as int], '0');
            assert(t[0] == cs@[a as int]);
        }
        return None;
    }
    let mut val: u64 = 0;
    let mut i = a;
    while i < b
        invariant
            a <= i <= b <= cs@.len(),
            t == cs@.subrange(a as int, b as int),
            all_digits(t.subrange(0, i - a)),
            val as nat == digits_val(t.subrange(0, i - a)),
        decreases b - i,
    {
        let u = cs[i] as u32;
        if u < '0' as u32 || u > '9' as u32 {
            proof {
                assert(t[i - a] == cs@[i as int]);
                assert(!is_digit(t[i - a]));
            }
            return None;
        }
        let d = (u - '0' as u32) as u64;
        proof {
            assert(t.subrange(0, i - a + 1).drop_last() =~= t.subrange(0, i - a));
            assert(t.subrange(0, i - a + 1).last() == t[i - a]);
            assert(t[i - a] == cs@[i as int]);
            assert(is_digit(t[i - a]));
            assert(digit_val(t[i - a]) == d as nat);
            assert(digits_val(t.subrange(0, i - a + 1)) == digits_val(t.subrange(0, i - a)) * 10
                + digit_val(t[i - a]));
        }
        let next = match val.checked_mul(10) {
            Some(v) => v.checked_add(d),
            None => None,
        };
        match next {
            Some(v) => {
                proof {
                    let p1 = t.subrange(0, i - a + 1);
                    let p0 = t.subrange(0, i - a);
                    assert forall|j: int| 0 <= j < p1.len() implies is_digit(#[trigger] p1[j]) by {
                        if j < p0.len() {
                            assert(p1[j] == p0[j]);
                        } else {
                            assert(p1[j] == t[i - a]);
                        }
                    }
                    assert(all_digits(p1));
                }
                val = v;
                i += 1;
            },
            None => {
                proof {
                    assert(digits_val(t.subrange(0, i - a + 1)) > u64::MAX as nat);
                    lemma_digits_val_prefix_le(t, i - a + 1);
                }
                return None;
            },
        }
    }
    proof {
        assert(t.subrange(0, i - a) =~= t);
        if t.len() > 1 {
            assert(t[0] == cs@[a as int]);
            assert(cs@[a as int] as u32 != '0' as u32);
        }
    }
    Some(val)
}

/// Scan `cs[a..b]`: are all characters identifier characters, and are
/// they all digits?
fn scan_ident(cs: &Vec<char>, a: usize, b: usize) -> (r: (bool, bool))
    requires
        a <= b <= cs@.len(),
    ensures
        r.0 == all_ident_chars(cs@.subrange(a as int, b as int)),
        r.1 == all_digits(cs@.subrange(a as int, b as int)),
{
    let ghost t = cs@.subrange(a as int, b as int);
    let mut digits = true;
    let mut i = a;
    while i < b
        invariant
            a <= i <= b <= cs@.len(),
            t == cs@.subrange(a as int, b as int),
            all_ident_chars(t.subrange(0, i - a)),
            digits == all_digits(t.subrange(0, i - a)),
        decreases b - i,
    {
        let u = cs[i] as u32;
        let is_dig = '0' as u32 <= u && u <= '9' as u32;
        let is_alpha = ('a' as u32 <= u && u <= 'z' as u32) || ('A' as u32 <= u && u <= 'Z'
            as u32);
        let is_dash = cs[i] == '-';
        proof {
            assert(t[i - a] == cs@[i as int]);
        }
        if !(is_dig || is_alpha || is_dash) {
            proof {
                assert(!is_ident_char(t[i - a]));
                assert(!is_digit(t[i - a]));
            }
            return (false, false);
        }
        proof {
            let p1 = t.subrange(0, i - a + 1);
            let p0 = t.subrange(0, i - a);
            assert(p1[p1.len() - 1] == t[i - a]);
            assert(is_ident_char(t[i - a]));
            assert forall|j: int| 0 <= j < p1.len() implies is_ident_char(#[trigger] p1[j]) by {
                if j < p0.len() {
                    assert(p1[j] == p0[j]);
                } else {
                    assert(p1[j] == t[i - a]);
                }
            }
            assert(all_ident_chars(p1));
            if digits && is_digit(t[i - a]) {
                assert forall|j: int| 0 <= j < p1.len() implies is_digit(#[trigger] p1[j]) by {
                    if j < p0.len() {
                        assert(p1[j] == p0[j]);
                    } else {
                        assert(p1[j] == t[i - a]);
                    }
                }
                assert(all_digits(p1));
            }
            if !digits {
                let jw = choose|j: int| 0 <= j < p0.len() && !is_digit(#[trigger] p0[j]);
                assert(p1[jw] == p0[jw]);
                assert(!is_digit(p1[jw]));
            }
        }
        if !is_dig {
            digits = false;
        }
        i += 1;
    }
    proof {
        assert(t.subrange(0, i - a) =~= t);
    }
    (true, digits)
}

/// Is `cs[a..b]` a valid pre-release identifier?
fn check_pre_ident(cs: &Vec<char>, a: usize, b: usize) -> (r: bool)
    requires
        a <= b <= cs@.len(),
    ensures
        r == is_pre_ident(cs@.subrange(a as int, b as int)),
{
    let ghost t = cs@.subrange(a as int, b as int);
    if a == b {
        return false;
    }
    let (ok, digits) = scan_ident(cs, a, b);
    if !ok {
        return false;
    }
    if digits && b - a > 1 && cs[a] as u32 == '0' as u32 {
        proof {
            lemma_char_cast_injective(cs@[a as int], '0');
            assert(t[0] == cs@[a as int]);
        }
        return false;
    }
    proof {
        if t.len() > 1 && all_digits(t) {
            assert(t[0] == cs@[a as int]);
            assert(cs@[a as int] as u32 != '0' as u32);
        }
    }
    true
}

/// Do the identifiers of `cs[start..m]`, split on dots, all validate as
/// pre-release identifiers? If so, return them.
fn parse_pre_ids(cs: &Vec<char>, start: usize, m: usize) -> (r: Option<Vec<Vec<char>>>)
    requires
        start <= m <= cs@.len(),
    ensures
        match r {
            Some(ids) => pre_seq(ids@) == split_upto(cs@, start as int, m as int) && valid_pre_ids(
                pre_seq(ids@),
            ),
            None => !valid_pre_ids(split_upto(cs@, start as int, m as int)),
        },
{
    let ghost whole = split_upto(cs@, start as int, m as int);
    let mut ids: Vec<Vec<char>> = Vec::new();
    let mut i = start;
    proof {
        assert(pre_seq(ids@) =~= Seq::<Seq<char>>::empty());
        assert(whole =~= pre_seq(ids@) + split_upto(cs@, i as int, m as int));
    }
    loop
        invariant
            start <= i <= m <= cs@.len(),
            whole == split_upto(cs@, start as int, m as int),
            whole == pre_seq(ids@) + split_upto(cs@, i as int, m as int),
            valid_pre_ids(pre_seq(ids@)),
        decreases m - i,
    {
        let d = find_char_upto(cs, '.', i, m);
        proof {
            lemma_find_upto(cs@, '.', i as int, m as int);
        }
        let ghost seg_spec = cs@.subrange(i as int, d as int);
        let ghost rest = split_upto(cs@, i as int, m as int);
        proof {
            assert(rest[0] == seg_spec);
            assert(whole[pre_seq(ids@).len() as int] == seg_spec);
        }
        let ok = check_pre_ident(cs, i, d);
        if !ok {
            proof {
                assert(!is_pre_ident(whole[pre_seq(ids@).len() as int]));
            }
            return None;
        }
        let seg = subvec(cs, i, d);
        let ghost old_ids = ids@;
        ids.push(seg);
        proof {
            assert(pre_seq(ids@) =~= pre_seq(old_ids).push(seg_spec));
        }
        if d == m {
            proof {
                assert(rest =~= seq![seg_spec]);
                assert(whole =~= pre_seq(ids@));
            }
            return Some(ids);
        }
        i = d + 1;
        proof {
            assert(whole =~= pre_seq(ids@) + split_upto(cs@, i as int, m as int));
        }
    }
}

/// Are the identifiers of `cs[start..m]`, split on dots, all valid build
/// identifiers?
fn check_build_ids(cs: &Vec<char>, start: usize, m: usize) -> (r: bool)
    requires
        start <= m <= cs@.len(),
    ensures
        r == valid_build_ids(split_upto(cs@, start as int, m as int)),
{
    let ghost whole = split_upto(cs@, start as int, m as int);
    let ghost done: Seq<Seq<char>> = Seq::empty();
    let mut i = start;
    let mut count: usize = 0;
    proof {
        assert(whole =~= whole.subrange(0, 0) + split_upto(cs@, i as int, m as int));
    }
    loop
        invariant
            start <= i <= m <= cs@.len(),
            whole == split_upto(cs@, start as int, m as int),
            count <= whole.len(),
            count <= i - start,
            whole == whole.subrange(0, count as int) + split_upto(cs@, i as int, m as int),
            forall|k: int| 0 <= k < count ==> is_build_ident(#[trigger] whole[k]),
        decreases m - i,
    {
        let d = find_char_upto(cs, '.', i, m);
        proof {
            lemma_find_upto(cs@, '.', i as int, m as int);
        }
        let ghost seg_spec = cs@.subrange(i as int, d as int);
        proof {
            assert(split_upto(cs@, i as int, m as int)[0] == seg_spec);
            assert(whole[count as int] == seg_spec);
        }
        let empty_seg = i == d;
        let (ok, _) = scan_ident(cs, i, d);
        if empty_seg || !ok {
            proof {
                assert(!is_build_ident(whole[count as int]));
            }
            return false;
        }
        if d == m {
            proof {
                assert(split_upto(cs@, i as int, m as int) =~= seq![seg_spec]);
                assert(whole =~= whole.subrange(0, count as int).push(seg_spec));
                assert(forall|k: int| 0 <= k < whole.len() ==> is_build_ident(#[trigger] whole[k]));
            }
            return true;
        }
        count += 1;
        i = d + 1;
        proof {
            assert(whole.subrange(0, count as int) =~= whole.subrange(0, count - 1).push(seg_spec));
            assert(whole =~= whole.subrange(0, count as int) + split_upto(cs@, i as int, m as int));
        }
    }
}

/// Parse a version string; `None` exactly when the string is not a
/// well-formed semantic version.
pub fn parse_version(s: &str) -> (r: Option<Version>)
    ensures
        match r {
            Some(v) => parse_semver(s@) == Some(v@) && v.wf(),
            None => parse_semver(s@) is None,
        },
{
    let cs = chars_of(s);
    let n = cs.len();
    let plus = find_char_upto(&cs, '+', 0, n);
    let dash = find_char_upto(&cs, '-', 0, plus);
    let d1 = find_char_upto(&cs, '.', 0, dash);
    if d1 == dash {
        return None;
    }
    let d2 = find_char_upto(&cs, '.', d1 + 1, dash);
    if d2 == dash {
        return None;
    }
    let d3 = find_char_upto(&cs, '.', d2 + 1, dash);
    if d3 < dash {
        return None;
    }
    let major = match parse_number(&cs, 0, d1) {
        Some(v) => v,
        None => {
            return None;
        },
    };
    let minor = match parse_number(&cs, d1 + 1, d2) {
        Some(v) => v,
        None => {
            return None;
        },
    };
    let patch = match parse_number(&cs, d2 + 1, dash) {
        Some(v) => v,
        None => {
            return None;
        },
    };
    let pre: Vec<Vec<char>> = if dash < plus {
        match parse_pre_ids(&cs, dash + 1, plus) {
            Some(ids) => ids,
            None => {
                return None;
            },
        }
    } else {
        Vec::new()
    };
    if plus < n {
        if !check_build_ids(&cs, plus + 1, n) {
            return None;
        }
    }
    let v = Version { major, minor, patch, pre };
    proof {
        if dash == plus {
            assert(pre_seq(v.pre@) =~= Seq::<Seq<char>>::empty());
        }
        assert(parse_semver(s@) == Some(v@));
    }
    Some(v)
}

fn lex_less(x: &Vec<char>, y: &Vec<char>) -> (r: bool)
    ensures
        r == lex_lt(x@, y@),
{
    let mut i: usize = 0;
    proof {
        assert(x@.skip(0) =~= x@);
        assert(y@.skip(0) =~= y@);
    }
    loop
        invariant
            i <= x@.len(),
            i <= y@.len(),
            lex_lt(x@, y@) == lex_lt(x@.skip(i as int), y@.skip(i as int)),
        decreases x@.len() - i,
    {
        if i == y.len() {
            proof {
                assert(y@.skip(i as int).len() == 0);
            }
            return false;
        }
        if i == x.len() {
            proof {
                assert(x@.skip(i as int).len() == 0);
                assert(y@.skip(i as int).len() > 0);
            }
            return true;
        }
        let cx = x[i];
        let cy = y[i];
        proof {
            assert(x@.skip(i as int)[0] == x@[i as int]);
            assert(y@.skip(i as int)[0] == y@[i as int]);
        }
        if cx != cy {
            return (cx as u32) < (cy as u32);
        }
        proof {
            assert(x@.skip(i as int).drop_first() =~= x@.skip(i as int + 1));
            assert(y@.skip(i as int).drop_first() =~= y@.skip(i as int + 1));
        }
        i += 1;
    }
}

fn chars_eq(x: &Vec<char>, y: &Vec<char>) -> (r: bool)
    ensures
        r == (x@ == y@),
{
    if x.len() != y.len() {
        return false;
    }
    let mut i: usize = 0;
    while i < x.len()
        invariant
            i <= x@.len() == y@.len(),
            forall|j: int| 0 <= j < i ==> x@[j] == y@[j],
        decreases x@.len() - i,
    {
        if x[i] != y[i] {
            return false;
        }
        i += 1;
    }
    proof {
        assert(x@ =~= y@);
    }
    true
}

/// Compare two pre-release identifiers.
fn ident_less(x: &Vec<char>, y: &Vec<char>) -> (r: bool)
    requires
        is_pre_ident(x@),
        is_pre_ident(y@),
    ensures
        r == ident_lt(x@, y@),
{
    let (_, xd) = scan_ident(x, 0, x.len());
    let (_, yd) = scan_ident(y, 0, y.len());
    proof {
        assert(x@.subrange(0, x@.len() as int) =~= x@);
        assert(y@.subrange(0, y@.len() as int) =~= y@);
    }
    if xd && yd {
        proof {
            lemma_numeric_order(x@, y@);
        }
        if x.len() != y.len() {
            return x.len() < y.len();
        }
        lex_less(x, y)
    } else if xd {
        true
    } else if yd {
        false
    } else {
        lex_less(x, y)
    }
}

fn pre_list_less(a: &Vec<Vec<char>>, b: &Vec<Vec<char>>) -> (r: bool)
    requires
        valid_pre_ids(pre_seq(a@)),
        valid_pre_ids(pre_seq(b@)),
    ensures
        r == pre_ids_lt(pre_seq(a@), pre_seq(b@)),
{
    let ghost av = pre_seq(a@);
    let ghost bv = pre_seq(b@);
    let mut i: usize = 0;
    proof {
        assert(av.skip(0) =~= av);
        assert(bv.skip(0) =~= bv);
    }
    loop
        invariant
            i <= av.len(),
            i <= bv.len(),
            av == pre_seq(a@),
            bv == pre_seq(b@),
            valid_pre_ids(av),
            valid_pre_ids(bv),
            pre_ids_lt(av, bv) == pre_ids_lt(av.skip(i as int), bv.skip(i as int)),
        decreases av.len() - i,
    {
        if i == b.len() {
            proof {
                assert(bv.skip(i as int).len() == 0);
            }
            return false;
        }
        if i == a.len() {
            proof {
                assert(av.skip(i as int).len() == 0);
                assert(bv.skip(i as int).len() > 0);
            }
            return true;
        }
        proof {
            assert(av.skip(i as int)[0] == av[i as int]);
            assert(bv.skip(i as int)[0] == bv[i as int]);
            assert(av[i as int] == a@[i as int]@);
            assert(bv[i as int] == b@[i as int]@);
        }
        if chars_eq(&a[i], &b[i]) {
            proof {
                assert(av.skip(i as int).drop_first() =~= av.skip(i as int + 1));
                assert(bv.skip(i as int).drop_first() =~= bv.skip(i as int + 1));
            }
            i += 1;
        } else {
            return ident_less(&a[i], &b[i]);
        }
    }
}

/// Does `b` strictly follow `a` under semantic-version precedence?
pub fn precedes(a: &Version, b: &Version) -> (r: bool)
    requires
        a.wf(),
        b.wf(),
    ensures
        r == spec_version_lt(a@, b@),
{
    if a.major != b.major {
        return a.major < b.major;
    }
    if a.minor != b.minor {
        return a.minor < b.minor;
    }
    if a.patch != b.patch {
        return a.patch < b.patch;
    }
    if a.pre.len() == 0 {
        return false;
    }
    if b.pre.len() == 0 {
        return true;
    }
    pre_list_less(&a.pre, &b.pre)
}

/// Decide whether `latest_version` is a newer release than
/// `current_version`. Both are parsed as semantic versions; if either is
/// malformed the answer is `false`, never a failure: a corrupt version
/// string must not trigger an update cycle.
pub fn is_update_available(current_version: &str, latest_version: &str) -> (r: bool)
    ensures
        r == spec_update_available(current_version@, latest_version@),
{
    let cur = parse_version(current_version);
    let lat = parse_version(latest_version);
    match (cur, lat) {
        (Some(a), Some(b)) => precedes(&a, &b),
        _ => false,
    }
}

} // verus!
