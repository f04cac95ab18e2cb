//! Verified text utilities: trimming of user input and string comparison,
//! the two operations every validation rule in the service is built on.

use vstd::prelude::*;
use vstd::string::StrSliceExecFns;

verus! {

/// Characters that count as blank when user input is trimmed: the Unicode
/// White_Space set, as `str::trim` strips it (full-width space included).
pub open spec fn is_space_char(c: char) -> bool {
    let u = c as u32;
    ||| u == 0x09
    ||| u == 0x0A
    ||| u == 0x0B
    ||| u == 0x0C
    ||| u == 0x0D
    ||| u == 0x20
    ||| u == 0x85
    ||| u == 0xA0
    ||| u == 0x1680
    ||| (0x2000 <= u && u <= 0x200A)
    ||| u == 0x2028
    ||| u == 0x2029
    ||| u == 0x202F
    ||| u == 0x205F
    ||| u == 0x3000
}

/// The sequence with its leading blanks removed.
pub open spec fn trim_front(s: Seq<char>) -> Seq<char>
    decreases s.len(),
{
    if s.len() > 0 && is_space_char(s[0]) {
        trim_front(s.drop_first())
    } else {
        s
    }
}

/// The sequence with its trailing blanks removed.
pub open spec fn trim_back(s: Seq<char>) -> Seq<char>
    decreases s.len(),
{
    if s.len() > 0 && is_space_char(s.last()) {
        trim_back(s.drop_last())
    } else {
        s
    }
}

/// The mathematical meaning of trimming: both ends stripped of blanks.
pub open spec fn trim_spec(s: Seq<char>) -> Seq<char> {
    trim_back(trim_front(s))
}

pub fn is_space(c: char) -> (r: bool)
    ensures
        r == is_space_char(c),
{
    let u = c as u32;
    u == 0x09 || u == 0x0A || u == 0x0B || u == 0x0C || u == 0x0D || u == 0x20 || u == 0x85 || u
        == 0xA0 || u == 0x1680 || (0x2000 <= u && u <= 0x200A) || u == 0x2028 || u == 0x2029 || u
        == 0x202F || u == 0x205F || u == 0x3000
}

/// A trimmed sequence starts with a non-blank character.
pub proof fn lemma_trim_front_head(s: Seq<char>)
    ensures
        trim_front(s).len() > 0 ==> !is_space_char(trim_front(s)[0]),
    decreases s.len(),
{
    if s.len() > 0 && is_space_char(s[0]) {
        lemma_trim_front_head(s.drop_first());
    }
}

/// `trim_back` keeps an initial segment of its input, and what it keeps ends
/// with a non-blank character.
pub proof fn lemma_trim_back_prefix(s: Seq<char>)
    ensures
        trim_back(s).len() <= s.len(),
        forall|k: int| 0 <= k < trim_back(s).len() ==> trim_back(s)[k] == s[k],
        trim_back(s).len() > 0 ==> !is_space_char(trim_back(s).last()),
    decreases s.len(),
{
    if s.len() > 0 && is_space_char(s.last()) {
        lemma_trim_back_prefix(s.drop_last());
        assert forall|k: int| 0 <= k < trim_back(s).len() implies trim_back(s)[k] == s[k] by {
            assert(trim_back(s) == trim_back(s.drop_last()));
            assert(s.drop_last()[k] == s[k]);
        }
    }
}

/// Trimming an already trimmed sequence changes nothing.
pub proof fn lemma_trim_idempotent(s: Seq<char>)
    ensures
        trim_spec(trim_spec(s)) == trim_spec(s),
{
    let u = trim_front(s);
    let t = trim_back(u);
    lemma_trim_front_head(s);
    lemma_trim_back_prefix(u);
    if t.len() == 0 {
        assert(trim_front(t) == t);
        assert(trim_back(t) == t);
    } else {
        assert(t[0] == u[0]);
        assert(trim_front(t) == t);
        assert(trim_back(t) == t);
    }
}

/// Returns the input with leading and trailing blanks removed.
pub fn trim_str(s: &str) -> (r: String)
    ensures
        r@ == trim_spec(s@),
{
    let n: usize = s.unicode_len();
    let mut i: usize = 0;
    proof {
        assert(s@.skip(0) =~= s@);
    }
    while i < n && is_space(s.get_char(i))
        invariant
            0 <= i <= n,
            n == s@.len(),
            trim_front(s@) == trim_front(s@.skip(i as int)),
        decreases n - i,
    {
        proof {
            let t0 = s@.skip(i as int);
            assert(t0[0] == s@[i as int]);
            assert(t0.drop_first() =~= s@.skip(i as int + 1));
        }
        i = i + 1;
    }
    if i == n {
        proof {
            assert(s@.skip(n as int) =~= Seq::<char>::empty());
            assert(trim_front(s@).len() == 0);
            assert(trim_spec(s@) =~= Seq::<char>::empty());
        }
        return String::new();
    }
    proof {
        let t = s@.skip(i as int);
        assert(t[0] == s@[i as int]);
        assert(trim_front(t) == t);
    }
    let mut j: usize = n;
    proof {
        let t = s@.skip(i as int);
        assert(t.take(n - i as int) =~= t);
    }
    while is_space(s.get_char(j - 1))
        invariant
            i < j <= n,
            i < n,
            n == s@.len(),
            !is_space_char(s@[i as int]),
            trim_back(s@.skip(i as int)) == trim_back(s@.skip(i as int).take(j - i as int)),
        decreases j,
    {
        proof {
            let t = s@.skip(i as int);
            let sub = t.take(j - i as int);
            assert(sub.last() == s@[j as int - 1]);
            if j - 1 == i {
                assert(sub.last() == s@[i as int]);
                assert(false);
            }
            assert(sub.drop_last() =~= t.take(j - 1 - i as int));
        }
        j = j - 1;
    }
    let sub = s.substring_char(i, j);
    proof {
        let t = s@.skip(i as int);
        let tail = t.take(j - i as int);
        assert(tail.last() == s@[j as int - 1]);
        assert(tail.len() > 0);
        assert(trim_back(tail) == tail);
        assert(s@.subrange(i as int, j as int) =~= tail);
        assert(trim_spec(s@) == tail);
    }
    sub.to_owned()
}

/// Character-for-character equality of two string slices.
pub fn str_eq(a: &str, b: &str) -> (r: bool)
    ensures
        r == (a@ == b@),
{
    let sa = a.to_owned();
    let sb = b.to_owned();
    sa == sb
}

} // verus!
