//! Text utilities for channel names: query sanitization and the
//! lexicographic order the name index is sorted by.

use vstd::prelude::*;
use vstd::string::*;

verus! {

/// The Unicode `White_Space` characters, the set `str::trim` removes.
pub open spec fn is_whitespace_char(c: char) -> bool {
    let u = c as u32;
    (9 <= u && u <= 13) || u == 32 || u == 0x85 || u == 0xA0 || u == 0x1680 || (0x2000 <= u
        && u <= 0x200A) || u == 0x2028 || u == 0x2029 || u == 0x202F || u == 0x205F || u == 0x3000
}

/// Characters removed from the ends of a query after whitespace: hyphens.
pub open spec fn is_hyphen_char(c: char) -> bool {
    c == '-'
}

/// The sequence with its longest prefix of `p`-characters removed.
pub open spec fn trim_front(s: Seq<char>, p: spec_fn(char) -> bool) -> Seq<char>
    decreases s.len(),
{
    if s.len() > 0 && p(s[0]) {
        trim_front(s.drop_first(), p)
    } else {
        s
    }
}

/// The sequence with its longest suffix of `p`-characters removed.
pub open spec fn trim_back(s: Seq<char>, p: spec_fn(char) -> bool) -> Seq<char>
    decreases s.len(),
{
    if s.len() > 0 && p(s.last()) {
        trim_back(s.drop_last(), p)
    } else {
        s
    }
}

/// The sequence trimmed of `p`-characters at both ends.
pub open spec fn trim_ends(s: Seq<char>, p: spec_fn(char) -> bool) -> Seq<char> {
    trim_back(trim_front(s, p), p)
}

/// A sanitized channel-name query: whitespace trimmed from the ends, then
/// hyphens trimmed from the ends, then every space turned into a hyphen, so
/// a human query like `general chat` matches a channel named `general-chat`.
/// Each trim runs once, deliberately: with interleaved edges the inner
/// characters stay, so `" - general - "` sanitizes to `"-general-"`, not to
/// `"general"`.
pub open spec fn spec_sanitize(s: Seq<char>) -> Seq<char> {
    trim_ends(trim_ends(s, |c: char| is_whitespace_char(c)), |c: char| is_hyphen_char(c))
        .map_values(|c: char| if c == ' ' { '-' } else { c })
}

/// Strict lexicographic order on character sequences, by scalar value; on
/// names this coincides with the byte order of their UTF-8 encodings.
pub open spec fn seq_lt(a: Seq<char>, b: Seq<char>) -> bool
    decreases a.len(),
{
    b.len() > 0 && (a.len() == 0 || (a[0] as u32) < (b[0] as u32) || (a[0] == b[0] && seq_lt(
        a.drop_first(),
        b.drop_first(),
    )))
}

pub proof fn lemma_seq_lt_irreflexive(a: Seq<char>)
    ensures
        !seq_lt(a, a),
    decreases a.len(),
{
    if a.len() > 0 {
        lemma_seq_lt_irreflexive(a.drop_first());
    }
}

pub proof fn lemma_seq_lt_trichotomy(a: Seq<char>, b: Seq<char>)
    ensures
        seq_lt(a, b) || seq_lt(b, a) || a == b,
    decreases a.len(),
{
    if a.len() == 0 && b.len() == 0 {
        assert(a =~= b);
    } else if a.len() == 0 {
        assert(seq_lt(a, b));
    } else if b.len() == 0 {
        assert(seq_lt(b, a));
    } else if (a[0] as u32) < (b[0] as u32) {
        assert(seq_lt(a, b));
    } else if (b[0] as u32) < (a[0] as u32) {
        assert(seq_lt(b, a));
    } else {
        vstd::utf8::char_u32_cast(a[0], a[0] as u32);
        vstd::utf8::char_u32_cast(b[0], b[0] as u32);
        assert(a[0] == b[0]);
        lemma_seq_lt_trichotomy(a.drop_first(), b.drop_first());
        if seq_lt(a.drop_first(), b.drop_first()) {
            assert(seq_lt(a, b));
        } else if seq_lt(b.drop_first(), a.drop_first()) {
            assert(seq_lt(b, a));
        } else {
            assert(a.drop_first() =~= b.drop_first());
            assert(a.len() == b.len());
            assert forall|i: int| 0 <= i < a.len() implies a[i] == b[i] by {
                if i > 0 {
                    assert(a.drop_first()[i - 1] == b.drop_first()[i - 1]);
                    assert(a.drop_first()[i - 1] == a[i]);
                    assert(b.drop_first()[i - 1] == b[i]);
                }
            }
            assert(a =~= b);
        }
    }
}

pub proof fn lemma_seq_lt_transitive(a: Seq<char>, b: Seq<char>, c: Seq<char>)
    requires
        seq_lt(a, b),
        seq_lt(b, c),
    ensures
        seq_lt(a, c),
    decreases a.len(),
{
    if a.len() > 0 && b.len() > 0 && a[0] == b[0] && seq_lt(a.drop_first(), b.drop_first()) {
        if c.len() > 0 && b[0] == c[0] && seq_lt(b.drop_first(), c.drop_first()) {
            lemma_seq_lt_transitive(a.drop_first(), b.drop_first(), c.drop_first());
        }
    }
}

pub proof fn lemma_seq_lt_asymmetric(a: Seq<char>, b: Seq<char>)
    requires
        seq_lt(a, b),
    ensures
        !seq_lt(b, a),
        a != b,
{
    lemma_seq_lt_irreflexive(a);
    if seq_lt(b, a) {
        lemma_seq_lt_transitive(a, b, a);
    }
}

/// Relies on `String::push`: appends exactly one character to the string.
#[verifier::external_body]
fn push_char(s: &mut String, c: char)
    ensures
        final(s)@ == old(s)@.push(c),
{
    s.push(c);
}

/// Whether `str::trim` would remove this character.
fn is_whitespace(c: char) -> (r: bool)
    ensures
        r == is_whitespace_char(c),
{
    let u = c as u32;
    (9 <= u && u <= 13) || u == 32 || u == 0x85 || u == 0xA0 || u == 0x1680 || (0x2000 <= u
        && u <= 0x200A) || u == 0x2028 || u == 0x2029 || u == 0x202F || u == 0x205F || u == 0x3000
}

/// If the first `k` characters satisfy `p` and the one after them (if any)
/// does not, the front trim drops exactly those `k`.
proof fn lemma_trim_front_skip(s: Seq<char>, p: spec_fn(char) -> bool, k: int)
    requires
        0 <= k <= s.len(),
        forall|j: int| 0 <= j < k ==> p(s[j]),
        k == s.len() || !p(s[k]),
    ensures
        trim_front(s, p) == s.skip(k),
    decreases k,
{
    if k == 0 {
        assert(s.skip(0) =~= s);
    } else {
        lemma_trim_front_skip(s.drop_first(), p, k - 1);
        assert(s.drop_first().skip(k - 1) =~= s.skip(k));
    }
}

/// If the last characters from position `e` on satisfy `p` and the one just
/// before them (if any) does not, the back trim keeps exactly the first `e`.
proof fn lemma_trim_back_take(s: Seq<char>, p: spec_fn(char) -> bool, e: int)
    requires
        0 <= e <= s.len(),
        forall|j: int| e <= j < s.len() ==> p(s[j]),
        e == 0 || !p(s[e - 1]),
    ensures
        trim_back(s, p) == s.take(e),
    decreases s.len() - e,
{
    if e == s.len() {
        assert(s.take(e) =~= s);
    } else {
        lemma_trim_back_take(s.drop_last(), p, e);
        assert(s.drop_last().take(e) =~= s.take(e));
    }
}

/// Both trims together keep exactly the characters from `a` to `b`.
proof fn lemma_trim_ends_subrange(s: Seq<char>, p: spec_fn(char) -> bool, a: int, b: int)
    requires
        0 <= a <= b <= s.len(),
        forall|j: int| 0 <= j < a ==> p(s[j]),
        a == s.len() || !p(s[a]),
        forall|j: int| b <= j < s.len() ==> p(s[j]),
        b == a || !p(s[b - 1]),
    ensures
        trim_ends(s, p) == s.subrange(a, b),
    decreases 0int,
{
    lemma_trim_front_skip(s, p, a);
    let t = s.skip(a);
    assert forall|j: int| b - a <= j < t.len() implies p(t[j]) by {
        assert(t[j] == s[j + a]);
    }
    lemma_trim_back_take(t, p, b - a);
    assert(t.take(b - a) =~= s.subrange(a, b));
}

/// Trimming never lengthens a sequence.
proof fn lemma_trim_front_len(s: Seq<char>, p: spec_fn(char) -> bool)
    ensures
        trim_front(s, p).len() <= s.len(),
    decreases s.len(),
{
    if s.len() > 0 && p(s[0]) {
        lemma_trim_front_len(s.drop_first(), p);
    }
}

proof fn lemma_trim_back_len(s: Seq<char>, p: spec_fn(char) -> bool)
    ensures
        trim_back(s, p).len() <= s.len(),
    decreases s.len(),
{
    if s.len() > 0 && p(s.last()) {
        lemma_trim_back_len(s.drop_last(), p);
    }
}

/// A sanitized query is never longer than the raw one.
pub proof fn lemma_sanitize_len(s: Seq<char>)
    ensures
        spec_sanitize(s).len() <= s.len(),
{
    let pw = |c: char| is_whitespace_char(c);
    let ph = |c: char| is_hyphen_char(c);
    lemma_trim_front_len(s, pw);
    lemma_trim_back_len(trim_front(s, pw), pw);
    lemma_trim_front_len(trim_ends(s, pw), ph);
    lemma_trim_back_len(trim_front(trim_ends(s, pw), ph), ph);
}

/// Sanitize a channel-name query: trim whitespace, then hyphens, from both
/// ends, and turn the remaining spaces into hyphens.
#[verifier::loop_isolation(false)]
pub fn sanitize_text_channel_name(name: &str) -> (r: String)
    ensures
        r@ == spec_sanitize(name@),
{
    let ghost pw = |c: char| is_whitespace_char(c);
    let ghost ph = |c: char| is_hyphen_char(c);
    let n = name.unicode_len();

    // Trim whitespace from the front, then from the back.
    let mut a: usize = 0;
    while a < n && is_whitespace(name.get_char(a))
        invariant
            0 <= a <= n,
            n == name@.len(),
            forall|j: int| 0 <= j < a ==> pw(name@[j]),
        decreases n - a,
    {
        a += 1;
    }
    let mut b: usize = n;
    while b > a && is_whitespace(name.get_char(b - 1))
        invariant
            a <= b <= n,
            n == name@.len(),
            a == n || !pw(name@[a as int]),
            forall|j: int| b <= j < n ==> pw(name@[j]),
        decreases b,
    {
        b -= 1;
    }
    proof {
        lemma_trim_ends_subrange(name@, pw, a as int, b as int);
    }
    let ghost t1 = name@.subrange(a as int, b as int);

    // Trim hyphens from the front, then from the back, of what is left.
    let mut a2: usize = a;
    while a2 < b && name.get_char(a2) == '-'
        invariant
            a <= a2 <= b <= n,
            n == name@.len(),
            forall|j: int| a <= j < a2 ==> ph(name@[j]),
        decreases b - a2,
    {
        a2 += 1;
    }
    let mut b2: usize = b;
    while b2 > a2 && name.get_char(b2 - 1) == '-'
        invariant
            a2 <= b2 <= b <= n,
            n == name@.len(),
            a2 == b || !ph(name@[a2 as int]),
            forall|j: int| b2 <= j < b ==> ph(name@[j]),
        decreases b2,
    {
        b2 -= 1;
    }
    proof {
        assert forall|j: int| 0 <= j < a2 - a implies ph(t1[j]) by {
            assert(t1[j] == name@[j + a]);
        }
        assert forall|j: int| b2 - a <= j < t1.len() implies ph(t1[j]) by {
            assert(t1[j] == name@[j + a]);
        }
        lemma_trim_ends_subrange(t1, ph, a2 - a, b2 - a);
        assert(t1.subrange(a2 - a, b2 - a) =~= name@.subrange(a2 as int, b2 as int));
    }
    let ghost t2 = name@.subrange(a2 as int, b2 as int);
    let ghost f = |c: char| if c == ' ' { '-' } else { c };

    // Turn every remaining space into a hyphen.
    let mut out = String::new();
    let mut i: usize = a2;
    while i < b2
        invariant
            a2 <= i <= b2 <= n,
            n == name@.len(),
            t2 == name@.subrange(a2 as int, b2 as int),
            out@ == name@.subrange(a2 as int, i as int).map_values(f),
        decreases b2 - i,
    {
        let c = name.get_char(i);
        if c == ' ' {
            push_char(&mut out, '-');
        } else {
            push_char(&mut out, c);
        }
        proof {
            assert(name@.subrange(a2 as int, i + 1 as int).map_values(f) =~= name@.subrange(
                a2 as int,
                i as int,
            ).map_values(f).push(f(name@[i as int])));
        }
        i += 1;
    }
    proof {
        assert(out@ =~= spec_sanitize(name@));
    }
    out
}

/// Decide the lexicographic order of two names.
#[verifier::loop_isolation(false)]
pub fn str_seq_lt(a: &str, b: &str) -> (r: bool)
    ensures
        r == seq_lt(a@, b@),
{
    let an = a.unicode_len();
    let bn = b.unicode_len();
    let mut i: usize = 0;
    proof {
        assert(a@.skip(0) =~= a@);
        assert(b@.skip(0) =~= b@);
    }
    loop
        invariant
            i <= an,
            i <= bn,
            seq_lt(a@, b@) == seq_lt(a@.skip(i as int), b@.skip(i as int)),
        decreases an - i,
    {
        if i == bn {
            return false;
        }
        if i == an {
            return true;
        }
        let ca = a.get_char(i);
        let cb = b.get_char(i);
        if ca == cb {
            proof {
                assert(a@.skip(i as int).drop_first() =~= a@.skip(i + 1));
                assert(b@.skip(i as int).drop_first() =~= b@.skip(i + 1));
            }
            i += 1;
        } else if (ca as u32) < (cb as u32) {
            return true;
        } else {
            return false;
        }
    }
}

} // verus!
