//! Credentials and session tokens.
//!
//! A session token is an opaque 128-bit identifier rendered as a 32-char
//! lowercase hex string; it is the sole credential for all post-login
//! operations. Credentials are verified by hashing the presented password
//! and comparing against the stored hash.

use vstd::prelude::*;

verus! {

/// A username/password pair as presented by a client.
pub struct BasicAuth {
    pub user: String,
    pub pass: String,
}

/// A mismatch between the account named in the request path and the
/// account the credentials name.
pub struct AuthError {
    pub path_user: String,
    pub auth_user: String,
}

impl AuthError {
    /// A readable description of the mismatch.
    pub fn describe(&self) -> (r: String) {
        let mut s = String::new();
        s.append("path-username (");
        s.append(self.path_user.as_str());
        s.append(") <-> auth-username (");
        s.append(self.auth_user.as_str());
        s.append(") mismatch");
        s
    }
}

/// Credentials whose username has been checked against the request path:
/// the only form the login operation accepts.
pub struct AuthAttempt {
    pub auth: BasicAuth,
}

impl BasicAuth {
    /// Packs a username/password pair.
    pub fn new(user: String, pass: String) -> (r: BasicAuth)
        ensures
            r.user@ == user@,
            r.pass@ == pass@,
    {
        BasicAuth { user, pass }
    }

    /// Admits these credentials for `username`'s resources exactly when
    /// they name that same account.
    pub fn with_path_username(self, username: &str) -> (r: Result<AuthAttempt, AuthError>)
        ensures
            self.user@ == username@ ==> (r matches Ok(a) && a.auth.user@ == self.user@
                && a.auth.pass@ == self.pass@),
            self.user@ != username@ ==> (r matches Err(e) && e.path_user@ == username@
                && e.auth_user@ == self.user@),
    {
        if crate::strutil::str_eq(self.user.as_str(), username) {
            Ok(AuthAttempt { auth: self })
        } else {
            Err(AuthError { path_user: username.to_owned(), auth_user: self.user })
        }
    }
}

/// The name for what `sha256::digest` returns on a string: the SHA-256
/// digest of its UTF-8 bytes, rendered as lowercase hex. A function of the
/// input alone, identical across processes and machines.
pub uninterp spec fn sha256_hex_of(s: Seq<char>) -> Seq<char>;

/// The stored one-way hash of a password.
///
/// Relies on `sha256::digest` on a `&str`: it returns the SHA-256 digest
/// of the string's UTF-8 bytes as 64 lowercase hex characters (two per
/// digest byte), and depends on the input alone.
#[verifier::external_body]
pub fn pwhash(s: &str) -> (r: String)
    ensures
        r@ == sha256_hex_of(s@),
        r@.len() == 64,
{
    sha256::digest(s)
}

impl AuthAttempt {
    /// The account these credentials name.
    pub fn user(&self) -> (r: &str)
        ensures
            r@ == self.auth.user@,
    {
        self.auth.user.as_str()
    }

    /// The one-way hash of the presented password, for comparison against
    /// the stored hash.
    pub fn calc_pwhash(&self) -> (r: String)
        ensures
            r@ == sha256_hex_of(self.auth.pass@),
    {
        pwhash(self.auth.pass.as_str())
    }
}

/// An opaque 128-bit session token.
#[derive(Debug, Clone, Copy, PartialEq, Eq, Structural)]
pub struct SessionId(pub(crate) u128);

/// Relies on `uuid::Uuid::new_v4` and `Uuid::as_u128`: a freshly drawn
/// random 128-bit identifier. Nothing can be promised of the value.
#[verifier::external_body]
fn fresh_token() -> u128 {
    uuid::Uuid::new_v4().as_u128()
}

/// The hex digit for a value below sixteen.
pub open spec fn nibble_char(d: int) -> char {
    if d == 0 { '0' } else if d == 1 { '1' } else if d == 2 { '2' } else if d == 3 { '3' }
    else if d == 4 { '4' } else if d == 5 { '5' } else if d == 6 { '6' } else if d == 7 { '7' }
    else if d == 8 { '8' } else if d == 9 { '9' } else if d == 10 { 'a' } else if d == 11 { 'b' }
    else if d == 12 { 'c' } else if d == 13 { 'd' } else if d == 14 { 'e' } else { 'f' }
}

/// The last `n` hex digits of `v`, most significant first.
pub open spec fn hex_seq_rec(v: int, n: nat) -> Seq<char>
    decreases n,
{
    if n == 0 {
        Seq::empty()
    } else {
        hex_seq_rec(v / 16, (n - 1) as nat).push(nibble_char(v % 16))
    }
}

/// The canonical rendering of a 128-bit token: 32 lowercase hex digits.
pub open spec fn session_hex(v: u128) -> Seq<char> {
    hex_seq_rec(v as int, 32)
}

/// The value of a hex digit, or a negative number for any other character.
pub open spec fn hex_digit_val(c: char) -> int {
    if '0' as int <= c as int && c as int <= '9' as int {
        c as int - '0' as int
    } else if 'a' as int <= c as int && c as int <= 'f' as int {
        c as int - 'a' as int + 10
    } else if 'A' as int <= c as int && c as int <= 'F' as int {
        c as int - 'A' as int + 10
    } else {
        -1
    }
}

/// Whether every character of `s` is a hex digit.
pub open spec fn all_hex(s: Seq<char>) -> bool {
    forall|i: int| 0 <= i < s.len() ==> hex_digit_val(s[i]) >= 0
}

/// The number a hex digit sequence denotes, most significant digit first.
pub open spec fn parse_hex_rec(s: Seq<char>) -> int
    decreases s.len(),
{
    if s.len() == 0 {
        0
    } else {
        parse_hex_rec(s.drop_last()) * 16 + hex_digit_val(s.last())
    }
}

/// Sixteen to the `n`th power.
pub open spec fn pow16(n: nat) -> int
    decreases n,
{
    if n == 0 {
        1
    } else {
        16 * pow16((n - 1) as nat)
    }
}

/// Whether `s` has the shape of a canonical hyphenated token: 36
/// characters with hyphens after the 8th, 12th, 16th and 20th digit.
pub open spec fn hyphens_ok(s: Seq<char>) -> bool {
    s.len() == 36 && s[8] == '-' && s[13] == '-' && s[18] == '-' && s[23] == '-'
}

/// A hyphenated token with its hyphens removed: the 32 digits.
pub open spec fn strip_hyphens(s: Seq<char>) -> Seq<char> {
    s.subrange(0, 8) + s.subrange(9, 13) + s.subrange(14, 18) + s.subrange(19, 23) + s.subrange(
        24,
        36,
    )
}

/// What parsing a session token string yields: the denoted value for 32
/// hex digits (either case), bare or in the canonical hyphenated
/// grouping; nothing for anything else.
pub open spec fn spec_parse_session(s: Seq<char>) -> Option<u128> {
    if s.len() == 32 && all_hex(s) {
        Some(parse_hex_rec(s) as u128)
    } else if hyphens_ok(s) && all_hex(strip_hyphens(s)) {
        Some(parse_hex_rec(strip_hyphens(s)) as u128)
    } else {
        None
    }
}

/// Reading a concatenation of digit runs: the left run is shifted past
/// the right one.
proof fn lemma_parse_hex_concat(a: Seq<char>, b: Seq<char>)
    ensures
        parse_hex_rec(a + b) == parse_hex_rec(a) * pow16(b.len()) + parse_hex_rec(b),
    decreases b.len(),
{
    if b.len() == 0 {
        assert(a + b =~= a);
    } else {
        lemma_parse_hex_concat(a, b.drop_last());
        assert((a + b).drop_last() =~= a + b.drop_last());
        assert((a + b).last() == b.last());
        assert(parse_hex_rec(a) * pow16((b.len() - 1) as nat) * 16 == parse_hex_rec(a) * pow16(
            b.len(),
        )) by (nonlinear_arith)
            requires
                pow16(b.len()) == 16 * pow16((b.len() - 1) as nat),
        ;
    }
}

/// A hex digit sequence denotes a value below sixteen to its length.
pub proof fn lemma_parse_hex_bound(s: Seq<char>)
    requires
        all_hex(s),
    ensures
        0 <= parse_hex_rec(s) < pow16(s.len()),
    decreases s.len(),
{
    if s.len() > 0 {
        assert(all_hex(s.drop_last())) by {
            assert(forall|i: int| 0 <= i < s.len() - 1 ==> s.drop_last()[i] == s[i]);
        }
        lemma_parse_hex_bound(s.drop_last());
        assert(hex_digit_val(s.last()) <= 15);
    }
}

/// `pow16` grows with its argument.
pub proof fn lemma_pow16_le(a: nat, b: nat)
    requires
        a <= b,
    ensures
        pow16(a) <= pow16(b),
        pow16(a) >= 1,
    decreases b,
{
    if a < b {
        lemma_pow16_le(a, (b - 1) as nat);
    } else if a > 0 {
        lemma_pow16_le((a - 1) as nat, (b - 1) as nat);
    }
}

/// The value of a single hex digit character.
fn hex_val(c: char) -> (r: Option<u8>)
    ensures
        match r {
            Some(d) => hex_digit_val(c) == d as int && d < 16,
            None => hex_digit_val(c) < 0,
        },
{
    let u = c as u32;
    if 48 <= u && u <= 57 {
        Some((u - 48) as u8)
    } else if 97 <= u && u <= 102 {
        Some((u - 97 + 10) as u8)
    } else if 65 <= u && u <= 70 {
        Some((u - 65 + 10) as u8)
    } else {
        None
    }
}

/// The one-character string for a hex digit.
fn digit_str(d: u64) -> (r: &'static str)
    requires
        d < 16,
    ensures
        r@ =~= seq![nibble_char(d as int)],
{
    proof {
        reveal_strlit("0");
        reveal_strlit("1");
        reveal_strlit("2");
        reveal_strlit("3");
        reveal_strlit("4");
        reveal_strlit("5");
        reveal_strlit("6");
        reveal_strlit("7");
        reveal_strlit("8");
        reveal_strlit("9");
        reveal_strlit("a");
        reveal_strlit("b");
        reveal_strlit("c");
        reveal_strlit("d");
        reveal_strlit("e");
        reveal_strlit("f");
    }
    if d == 0 { "0" } else if d == 1 { "1" } else if d == 2 { "2" } else if d == 3 { "3" }
    else if d == 4 { "4" } else if d == 5 { "5" } else if d == 6 { "6" } else if d == 7 { "7" }
    else if d == 8 { "8" } else if d == 9 { "9" } else if d == 10 { "a" } else if d == 11 { "b" }
    else if d == 12 { "c" } else if d == 13 { "d" } else if d == 14 { "e" } else { "f" }
}

/// Renders the last `n` hex digits of `v`, most significant first.
fn hex_render(v: u128, n: usize) -> (r: String)
    ensures
        r@ == hex_seq_rec(v as int, n as nat),
    decreases n,
{
    if n == 0 {
        String::new()
    } else {
        let mut s = hex_render(v / 16, n - 1);
        let d = (v % 16) as u64;
        s.append(digit_str(d));
        proof {
            assert((v / 16) as int == (v as int) / 16);
            assert(d as int == (v as int) % 16);
            assert(s@ =~= hex_seq_rec(v as int, n as nat));
        }
        s
    }
}

impl SessionId {
    /// The token value.
    pub closed spec fn value(self) -> u128 {
        self.0
    }

    /// Mints a fresh random token.
    pub fn new() -> Self {
        SessionId(fresh_token())
    }

    /// Wraps a known token value.
    pub fn from_u128(v: u128) -> (r: Self)
        ensures
            r.value() == v,
    {
        SessionId(v)
    }

    /// The canonical rendering of this token: 32 lowercase hex digits.
    pub fn hex_string(&self) -> (r: String)
        ensures
            r@ == session_hex(self.value()),
    {
        hex_render(self.0, 32)
    }

    /// Reads a token back from its rendering: 32 hex digits (either
    /// case), bare or in the canonical hyphenated grouping. Anything else
    /// is rejected.
    pub fn parse(s: &str) -> (r: Result<SessionId, ()>)
        ensures
            match spec_parse_session(s@) {
                Some(v) => r matches Ok(id) && id.value() == v,
                None => r == Err::<SessionId, ()>(()),
            },
    {
        let n = s.unicode_len();
        if n == 32 {
            let hi = match hex_segment(s, 0, 16) {
                Ok(v) => v,
                Err(()) => {
                    proof {
                        lemma_not_all_hex_part(s@, 0, 16);
                    }
                    return Err(());
                },
            };
            let lo = match hex_segment(s, 16, 32) {
                Ok(v) => v,
                Err(()) => {
                    proof {
                        lemma_not_all_hex_part(s@, 16, 32);
                    }
                    return Err(());
                },
            };
            proof {
                reveal_with_fuel(pow16, 17);
                assert(s@ =~= s@.subrange(0, 16) + s@.subrange(16, 32));
                lemma_parse_hex_concat(s@.subrange(0, 16), s@.subrange(16, 32));
                assert(all_hex(s@)) by {
                    assert(forall|i: int|
                        0 <= i < 16 ==> s@[i] == s@.subrange(0, 16)[i]);
                    assert(forall|i: int|
                        16 <= i < 32 ==> s@[i] == s@.subrange(16, 32)[i - 16]);
                }
            }
            let v: u128 = (hi as u128) * 0x1_0000_0000_0000_0000u128 + (lo as u128);
            Ok(SessionId(v))
        } else if n == 36 {
            Self::parse_hyphenated(s)
        } else {
            Err(())
        }
    }

    /// Reads the canonical hyphenated grouping.
    fn parse_hyphenated(s: &str) -> (r: Result<SessionId, ()>)
        requires
            s@.len() == 36,
        ensures
            match spec_parse_session(s@) {
                Some(v) => r matches Ok(id) && id.value() == v,
                None => r == Err::<SessionId, ()>(()),
            },
    {
        if s.get_char(8) != '-' || s.get_char(13) != '-' || s.get_char(18) != '-' || s.get_char(23)
            != '-' {
            return Err(());
        }
        let ghost a = s@.subrange(0, 8);
        let ghost b = s@.subrange(9, 13);
        let ghost c = s@.subrange(14, 18);
        let ghost d = s@.subrange(19, 23);
        let ghost e = s@.subrange(24, 36);
        let ghost stripped = strip_hyphens(s@);
        proof {
            assert(hyphens_ok(s@));
            assert forall|i: int| 0 <= i < 32 implies stripped_at(s@, i) by {}
        }
        let s1 = match hex_segment(s, 0, 8) {
            Ok(v) => v,
            Err(()) => {
                proof {
                    lemma_segment_not_hex(s@, 0, 8, 0);
                }
                return Err(());
            },
        };
        let s2 = match hex_segment(s, 9, 13) {
            Ok(v) => v,
            Err(()) => {
                proof {
                    lemma_segment_not_hex(s@, 9, 13, 8);
                }
                return Err(());
            },
        };
        let s3 = match hex_segment(s, 14, 18) {
            Ok(v) => v,
            Err(()) => {
                proof {
                    lemma_segment_not_hex(s@, 14, 18, 12);
                }
                return Err(());
            },
        };
        let s4 = match hex_segment(s, 19, 23) {
            Ok(v) => v,
            Err(()) => {
                proof {
                    lemma_segment_not_hex(s@, 19, 23, 16);
                }
                return Err(());
            },
        };
        let s5 = match hex_segment(s, 24, 36) {
            Ok(v) => v,
            Err(()) => {
                proof {
                    lemma_segment_not_hex(s@, 24, 36, 20);
                }
                return Err(());
            },
        };
        proof {
            reveal_with_fuel(pow16, 13);
            lemma_parse_hex_concat(a, b);
            lemma_parse_hex_concat(a + b, c);
            lemma_parse_hex_concat(a + b + c, d);
            lemma_parse_hex_concat(a + b + c + d, e);
            assert(all_hex(stripped)) by {
                assert forall|i: int|
                    0 <= i < stripped.len() implies hex_digit_val(stripped[i]) >= 0 by {
                    if i < 8 {
                        assert(stripped[i] == a[i]);
                    } else if i < 12 {
                        assert(stripped[i] == b[i - 8]);
                    } else if i < 16 {
                        assert(stripped[i] == c[i - 12]);
                    } else if i < 20 {
                        assert(stripped[i] == d[i - 16]);
                    } else {
                        assert(stripped[i] == e[i - 20]);
                    }
                };
            }
        }
        let x1: u128 = (s1 as u128) * 0x10000u128 + (s2 as u128);
        let x2: u128 = x1 * 0x10000u128 + (s3 as u128);
        let x3: u128 = x2 * 0x10000u128 + (s4 as u128);
        let v: u128 = x3 * 0x1000000000000u128 + (s5 as u128);
        proof {
            assert(v as int == parse_hex_rec(stripped));
        }
        Ok(SessionId(v))
    }

    /// Whether two tokens are the same.
    pub fn equals(&self, other: &SessionId) -> (r: bool)
        ensures
            r == (self.value() == other.value()),
    {
        self.0 == other.0
    }
}

/// Whether position `i` of the stripped form matches the right source
/// character of the hyphenated form.
pub open spec fn stripped_at(s: Seq<char>, i: int) -> bool
    recommends
        s.len() == 36,
        0 <= i < 32,
{
    strip_hyphens(s)[i] == s[source_index(i)]
}

/// The source position, in the hyphenated form, of digit `i` of the
/// stripped form.
pub open spec fn source_index(i: int) -> int {
    if i < 8 {
        i
    } else if i < 12 {
        i + 1
    } else if i < 16 {
        i + 2
    } else if i < 20 {
        i + 3
    } else {
        i + 4
    }
}

/// If a run of digits inside `s` holds a non-digit, so does `s`.
proof fn lemma_not_all_hex_part(s: Seq<char>, from: int, to: int)
    requires
        0 <= from <= to <= s.len(),
        !all_hex(s.subrange(from, to)),
    ensures
        !all_hex(s),
{
    let part = s.subrange(from, to);
    let j = choose|j: int| 0 <= j < part.len() && hex_digit_val(part[j]) < 0;
    assert(part[j] == s[from + j]);
}

/// If one segment of the hyphenated form holds a non-digit, the stripped
/// form does too.
proof fn lemma_segment_not_hex(s: Seq<char>, from: int, to: int, off: int)
    requires
        s.len() == 36,
        0 <= from <= to <= 36,
        0 <= off,
        off + (to - from) <= 32,
        !all_hex(s.subrange(from, to)),
        forall|j: int| from <= j < to ==> strip_hyphens(s)[off + j - from] == s[j],
    ensures
        !all_hex(strip_hyphens(s)),
{
    let part = s.subrange(from, to);
    let j = choose|j: int| 0 <= j < part.len() && hex_digit_val(part[j]) < 0;
    assert(part[j] == s[from + j]);
    assert(strip_hyphens(s)[off + j] == s[from + j]);
}

/// Reads at most 16 hex digits out of `s[from..to]`.
fn hex_segment(s: &str, from: usize, to: usize) -> (r: Result<u64, ()>)
    requires
        from <= to <= s@.len(),
        to - from <= 16,
    ensures
        match r {
            Ok(v) => all_hex(s@.subrange(from as int, to as int)) && v as int == parse_hex_rec(
                s@.subrange(from as int, to as int),
            ) && (v as int) < pow16((to - from) as nat),
            Err(()) => !all_hex(s@.subrange(from as int, to as int)),
        },
{
    let mut acc: u64 = 0;
    let mut i: usize = from;
    while i < to
        invariant
            from <= i <= to,
            to <= s@.len(),
            to - from <= 16,
            all_hex(s@.subrange(from as int, i as int)),
            acc as int == parse_hex_rec(s@.subrange(from as int, i as int)),
            (acc as int) < pow16((i - from) as nat),
        decreases to - i,
    {
        let c = s.get_char(i);
        let d = match hex_val(c) {
            Some(d) => d,
            None => {
                proof {
                    let part = s@.subrange(from as int, to as int);
                    assert(part[i - from as int] == s@[i as int]);
                    assert(!all_hex(part));
                }
                return Err(());
            },
        };
        proof {
            lemma_pow16_le((i - from + 1) as nat, 16nat);
            assert(acc * 16 + d < pow16((i - from + 1) as nat)) by {
                assert(acc as int * 16 <= (pow16((i - from) as nat) - 1) * 16) by (nonlinear_arith)
                    requires (acc as int) <= pow16((i - from) as nat) - 1;
            }
            assert(pow16(16nat) == 0x1_0000_0000_0000_0000) by {
                reveal_with_fuel(pow16, 17);
            }
        }
        acc = acc * 16 + (d as u64);
        proof {
            let pre = s@.subrange(from as int, (i + 1) as int);
            assert(pre.drop_last() =~= s@.subrange(from as int, i as int));
            assert(pre.last() == s@[i as int]);
            assert(all_hex(pre)) by {
                assert(forall|j: int| 0 <= j < pre.len() ==> pre[j] == s@[from + j]);
            }
        }
        i = i + 1;
    }
    Ok(acc)
}

/// Rendering a token and reading it back yields the token: the 32-digit
/// hex form loses nothing of the 128-bit value.
pub proof fn lemma_session_hex_round_trip(v: u128)
    ensures
        spec_parse_session(session_hex(v)) == Some(v),
{
    assert(pow16(32nat) == 0x100000000000000000000000000000000) by {
        reveal_with_fuel(pow16, 33);
    }
    lemma_hex_render_parse(v as int, 32);
    assert(hex_seq_rec(v as int, 32).len() == 32) by {
        lemma_hex_len(v as int, 32);
    }
}

/// The rendering of `n` digits has length `n` and holds only hex digits.
proof fn lemma_hex_len(v: int, n: nat)
    ensures
        hex_seq_rec(v, n).len() == n,
        all_hex(hex_seq_rec(v, n)),
    decreases n,
{
    if n > 0 {
        lemma_hex_len(v / 16, (n - 1) as nat);
        let s = hex_seq_rec(v, n);
        let t = hex_seq_rec(v / 16, (n - 1) as nat);
        assert(forall|i: int| 0 <= i < s.len() ==> hex_digit_val(s[i]) >= 0) by {
            assert(forall|i: int| 0 <= i < t.len() ==> s[i] == t[i]);
            assert(s[s.len() - 1] == nibble_char(v % 16));
            assert(hex_digit_val(nibble_char(v % 16)) >= 0);
        }
    }
}

/// Parsing the `n`-digit rendering of a nonnegative `v` below `pow16(n)`
/// yields `v` again.
proof fn lemma_hex_render_parse(v: int, n: nat)
    requires
        0 <= v < pow16(n),
    ensures
        hex_seq_rec(v, n).len() == n,
        all_hex(hex_seq_rec(v, n)),
        parse_hex_rec(hex_seq_rec(v, n)) == v,
    decreases n,
{
    lemma_hex_len(v, n);
    if n == 0 {
    } else {
        assert(0 <= v / 16 < pow16((n - 1) as nat)) by (nonlinear_arith)
            requires 0 <= v < pow16(n), pow16(n) == 16 * pow16((n - 1) as nat);
        lemma_hex_render_parse(v / 16, (n - 1) as nat);
        let s = hex_seq_rec(v, n);
        assert(s.drop_last() =~= hex_seq_rec(v / 16, (n - 1) as nat));
        assert(s.last() == nibble_char(v % 16));
        assert(hex_digit_val(nibble_char(v % 16)) == v % 16);
        assert(parse_hex_rec(s) == (v / 16) * 16 + v % 16);
        assert((v / 16) * 16 + v % 16 == v) by (nonlinear_arith);
    }
}

} // verus!
