//! Character-level helpers on strings, stated over `Seq<char>`.
use vstd::prelude::*;
use vstd::string::*;

verus! {

/// The longest prefix of `s` that does not hold `c`.
pub open spec fn prefix_before(s: Seq<char>, c: char) -> Seq<char>
    decreases s.len(),
{
    if s.len() == 0 || s[0] == c {
        seq![]
    } else {
        seq![s[0]] + prefix_before(s.drop_first(), c)
    }
}

/// Whether `c` occurs in `s`.
pub open spec fn holds_char(s: Seq<char>, c: char) -> bool {
    exists|i: int| 0 <= i < s.len() && s[i] == c
}

/// The prefix before `c` is a prefix of `s`; it is all of `s` exactly when `c` does not occur.
pub proof fn lemma_prefix_before(s: Seq<char>, c: char)
    ensures
        prefix_before(s, c).len() <= s.len(),
        prefix_before(s, c) == s.take(prefix_before(s, c).len() as int),
        forall|j: int| 0 <= j < prefix_before(s, c).len() ==> s[j] != c,
        prefix_before(s, c).len() < s.len() ==> s[prefix_before(s, c).len() as int] == c,
        holds_char(s, c) <==> prefix_before(s, c).len() < s.len(),
    decreases s.len(),
{
    if s.len() == 0 || s[0] == c {
        assert(s.take(0) =~= seq![]);
    } else {
        let t = s.drop_first();
        lemma_prefix_before(t, c);
        let p = prefix_before(t, c);
        assert(prefix_before(s, c) =~= seq![s[0]] + p);
        assert(s.take(p.len() as int + 1) =~= seq![s[0]] + t.take(p.len() as int));
        assert forall|j: int| 0 <= j < p.len() + 1 implies s[j] != c by {
            if j > 0 {
                assert(s[j] == t[j - 1]);
            }
        }
        if holds_char(s, c) {
            let i = choose|i: int| 0 <= i < s.len() && s[i] == c;
            assert(i > 0);
            assert(t[i - 1] == c);
        }
        if p.len() < t.len() {
            assert(s[p.len() as int + 1] == t[p.len() as int]);
        }
    }
}

/// Unfolds `prefix_before` one step past position `i`.
proof fn lemma_prefix_before_step(s: Seq<char>, c: char, i: int)
    requires
        0 <= i < s.len(),
        s[i] != c,
    ensures
        prefix_before(s.skip(i), c) == seq![s[i]] + prefix_before(s.skip(i + 1), c),
{
    assert(s.skip(i).drop_first() =~= s.skip(i + 1));
}

/// Index of the first `c` in `s`, or the length of `s` when there is none.
pub fn index_of(s: &str, c: char) -> (r: usize)
    ensures
        r == prefix_before(s@, c).len(),
        s@.take(r as int) == prefix_before(s@, c),
{
    let n = s.unicode_len();
    let mut i: usize = 0;
    assert(s@.skip(0) =~= s@);
    assert(s@.take(0) + prefix_before(s@, c) =~= prefix_before(s@, c));
    while i < n
        invariant
            n == s@.len(),
            i <= n,
            prefix_before(s@, c) == s@.take(i as int) + prefix_before(s@.skip(i as int), c),
        decreases n - i,
    {
        let ch = s.get_char(i);
        if ch == c {
            assert(prefix_before(s@.skip(i as int), c) =~= seq![]);
            assert(s@.take(i as int) + seq![] =~= s@.take(i as int));
            return i;
        }
        proof {
            lemma_prefix_before_step(s@, c, i as int);
            assert(s@.take(i as int) + seq![s@[i as int]] =~= s@.take(i + 1));
            assert(s@.take(i as int) + (seq![s@[i as int]] + prefix_before(s@.skip(i + 1), c))
                =~= s@.take(i + 1) + prefix_before(s@.skip(i + 1), c));
        }
        i = i + 1;
    }
    assert(s@.skip(i as int) =~= seq![]);
    assert(s@.take(i as int) =~= s@);
    assert(s@.take(i as int) + seq![] =~= s@.take(i as int));
    i
}

/// Whether two strings hold the same characters.
pub fn same_text(a: &str, b: &str) -> (r: bool)
    ensures
        r == (a@ == b@),
{
    let n = a.unicode_len();
    let m = b.unicode_len();
    if n != m {
        return false;
    }
    let mut i: usize = 0;
    while i < n
        invariant
            n == a@.len(),
            m == b@.len(),
            n == m,
            i <= n,
            forall|j: int| 0 <= j < i ==> a@[j] == b@[j],
        decreases n - i,
    {
        if a.get_char(i) != b.get_char(i) {
            return false;
        }
        i = i + 1;
    }
    assert(a@ =~= b@);
    true
}

/// A character with ASCII upper-case letters mapped to lower case.
pub open spec fn ascii_lower(c: char) -> u32 {
    if 'A' as u32 <= c as u32 <= 'Z' as u32 {
        (c as u32 + 32) as u32
    } else {
        c as u32
    }
}

/// Equality of two texts up to ASCII case.
pub open spec fn same_ignoring_ascii_case(a: Seq<char>, b: Seq<char>) -> bool {
    &&& a.len() == b.len()
    &&& forall|i: int| 0 <= i < a.len() ==> ascii_lower(a[i]) == ascii_lower(b[i])
}

fn lower_code(c: char) -> (r: u32)
    ensures
        r == ascii_lower(c),
{
    let u = c as u32;
    if 'A' as u32 <= u && u <= 'Z' as u32 {
        u + 32
    } else {
        u
    }
}

/// Whether two strings are equal up to ASCII case.
pub fn same_text_ignoring_ascii_case(a: &str, b: &str) -> (r: bool)
    ensures
        r == same_ignoring_ascii_case(a@, b@),
{
    let n = a.unicode_len();
    let m = b.unicode_len();
    if n != m {
        return false;
    }
    let mut i: usize = 0;
    while i < n
        invariant
            n == a@.len(),
            m == b@.len(),
            n == m,
            i <= n,
            forall|j: int| 0 <= j < i ==> ascii_lower(a@[j]) == ascii_lower(b@[j]),
        decreases n - i,
    {
        if lower_code(a.get_char(i)) != lower_code(b.get_char(i)) {
            return false;
        }
        i = i + 1;
    }
    true
}

/// Relies on std's `String::push_str`: appends the characters of `t`.
#[verifier::external_body]
pub(crate) fn append(s: &mut String, t: &str)
    ensures
        final(s)@ == old(s)@ + t@,
{
    s.push_str(t)
}

} // verus!
