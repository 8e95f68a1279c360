use vstd::prelude::*;
use vstd::string::{StrSliceExecFns, StringExecFns};

use crate::err::ScrapeError;

verus! {

/// Character-for-character equality of two string slices.
pub fn str_eq(a: &str, b: &str) -> (r: bool)
    ensures
        r == (a@ == b@),
{
    let alen = a.unicode_len();
    let blen = b.unicode_len();
    if alen != blen {
        assert(a@ != b@);
        return false;
    }
    let mut i: usize = 0;
    while i < alen
        invariant
            alen == a@.len(),
            blen == b@.len(),
            alen == blen,
            i <= alen,
            forall|j: int| 0 <= j < i ==> a@[j] == b@[j],
        decreases alen - i,
    {
        let ca = a.get_char(i);
        let cb = b.get_char(i);
        if ca != cb {
            assert(a@ != b@);
            return false;
        }
        i += 1;
    }
    assert(a@ =~= b@);
    true
}

/// Index of the first occurrence of `c` in `s`, if any.
pub open spec fn spec_find(s: Seq<char>, c: char) -> Option<int>
    decreases s.len(),
{
    if s.len() == 0 {
        None
    } else if s[0] == c {
        Some(0)
    } else {
        match spec_find(s.drop_first(), c) {
            Some(i) => Some(i + 1),
            None => None,
        }
    }
}

/// Index of the last occurrence of `c` in `s`, if any.
pub open spec fn spec_rfind(s: Seq<char>, c: char) -> Option<int>
    decreases s.len(),
{
    if s.len() == 0 {
        None
    } else if s.last() == c {
        Some(s.len() - 1)
    } else {
        spec_rfind(s.drop_last(), c)
    }
}

/// `spec_find` returns the first index holding `c`.
pub proof fn lemma_spec_find(s: Seq<char>, c: char)
    ensures
        match spec_find(s, c) {
            Some(i) => 0 <= i < s.len() && s[i] == c && forall|j: int| 0 <= j < i ==> s[j] != c,
            None => forall|j: int| 0 <= j < s.len() ==> s[j] != c,
        },
    decreases s.len(),
{
    if s.len() > 0 && s[0] != c {
        let rest = s.drop_first();
        lemma_spec_find(rest, c);
        match spec_find(rest, c) {
            Some(i) => {
                assert(s[i + 1] == rest[i]);
                assert forall|j: int| 0 <= j < i + 1 implies s[j] != c by {
                    if j > 0 {
                        assert(rest[j - 1] == s[j]);
                    }
                }
            },
            None => {
                assert forall|j: int| 0 <= j < s.len() implies s[j] != c by {
                    if j > 0 {
                        assert(rest[j - 1] == s[j]);
                    }
                }
            },
        }
    }
}

/// `spec_rfind` returns the last index holding `c`.
pub proof fn lemma_spec_rfind(s: Seq<char>, c: char)
    ensures
        match spec_rfind(s, c) {
            Some(i) => 0 <= i < s.len() && s[i] == c && forall|j: int|
                i < j < s.len() ==> s[j] != c,
            None => forall|j: int| 0 <= j < s.len() ==> s[j] != c,
        },
    decreases s.len(),
{
    if s.len() > 0 && s.last() != c {
        let rest = s.drop_last();
        lemma_spec_rfind(rest, c);
        match spec_rfind(rest, c) {
            Some(i) => {
                assert(rest[i] == s[i]);
                assert forall|j: int| i < j < s.len() implies s[j] != c by {
                    if j < s.len() - 1 {
                        assert(rest[j] == s[j]);
                    }
                }
            },
            None => {
                assert forall|j: int| 0 <= j < s.len() implies s[j] != c by {
                    if j < s.len() - 1 {
                        assert(rest[j] == s[j]);
                    }
                }
            },
        }
    }
}

/// Index of the first occurrence of `needle`, if any.
pub fn find_char(input: &str, needle: char) -> (r: Option<usize>)
    ensures
        match r {
            Some(i) => i < input@.len() && input@[i as int] == needle && forall|j: int|
                0 <= j < i ==> input@[j] != needle,
            None => forall|j: int| 0 <= j < input@.len() ==> input@[j] != needle,
        },
        r == match spec_find(input@, needle) {
            Some(i) => Some(i as usize),
            None => None::<usize>,
        },
{
    let len = input.unicode_len();
    let mut i: usize = 0;
    while i < len
        invariant
            len == input@.len(),
            i <= len,
            forall|j: int| 0 <= j < i ==> input@[j] != needle,
        decreases len - i,
    {
        if input.get_char(i) == needle {
            proof {
                lemma_spec_find(input@, needle);
            }
            return Some(i);
        }
        i += 1;
    }
    proof {
        lemma_spec_find(input@, needle);
    }
    None
}

/// Index of the last occurrence of `needle`, if any.
pub fn rfind_char(input: &str, needle: char) -> (r: Option<usize>)
    ensures
        match r {
            Some(i) => i < input@.len() && input@[i as int] == needle && forall|j: int|
                i < j < input@.len() ==> input@[j] != needle,
            None => forall|j: int| 0 <= j < input@.len() ==> input@[j] != needle,
        },
        r == match spec_rfind(input@, needle) {
            Some(i) => Some(i as usize),
            None => None::<usize>,
        },
{
    let len = input.unicode_len();
    let mut i: usize = len;
    while i > 0
        invariant
            len == input@.len(),
            i <= len,
            forall|j: int| i <= j < len ==> input@[j] != needle,
        decreases i,
    {
        i -= 1;
        if input.get_char(i) == needle {
            proof {
                lemma_spec_rfind(input@, needle);
            }
            return Some(i);
        }
    }
    proof {
        lemma_spec_rfind(input@, needle);
    }
    None
}

/// Index of the last occurrence of `needle`, which must occur.
pub fn last_position_of(input: &str, needle: char) -> (r: usize)
    requires
        exists|i: int| 0 <= i < input@.len() && input@[i] == needle,
    ensures
        r < input@.len(),
        input@[r as int] == needle,
        forall|j: int| r < j < input@.len() ==> input@[j] != needle,
{
    let r = rfind_char(input, needle);
    match r {
        Some(i) => i,
        None => {
            proof {
                let witness = choose|i: int| 0 <= i < input@.len() && input@[i] == needle;
                assert(input@[witness] != needle);
            }
            0
        },
    }
}

/// The single element of a one-element vector; any other length is a schema
/// violation carrying `error` as its message.
pub fn get_only<T>(mut input: Vec<T>, error: &str) -> (r: Result<T, ScrapeError>)
    ensures
        input@.len() == 1 ==> r == Ok::<T, ScrapeError>(input@[0]),
        input@.len() != 1 ==> r is Err && r->Err_0 is SchemaViolation,
{
    if input.len() == 1 {
        match input.pop() {
            Some(v) => Ok(v),
            None => Err(ScrapeError::SchemaViolation(String::from_str(error))),
        }
    } else if input.len() == 0 {
        Err(ScrapeError::SchemaViolation(String::from_str(error)))
    } else {
        Err(ScrapeError::SchemaViolation(String::from_str(error).concat(" - too big")))
    }
}

/// Whether some element of `v` has exactly the characters of `id`.
pub open spec fn spec_contains_str(v: Seq<String>, id: Seq<char>) -> bool {
    exists|i: int| 0 <= i < v.len() && v[i]@ == id
}

/// Whether some element of `v` equals `s`, character for character.
pub fn contains_string(v: &Vec<String>, s: &str) -> (r: bool)
    ensures
        r == spec_contains_str(v@, s@),
{
    let n = v.len();
    let mut i: usize = 0;
    while i < n
        invariant
            n == v@.len(),
            i <= n,
            forall|j: int| 0 <= j < i ==> v@[j]@ != s@,
        decreases n - i,
    {
        if str_eq(v[i].as_str(), s) {
            return true;
        }
        i += 1;
    }
    false
}

/// How many elements of `v` have exactly the characters of `id`.
pub open spec fn count_matches(v: Seq<String>, id: Seq<char>) -> nat
    decreases v.len(),
{
    if v.len() == 0 {
        0
    } else {
        count_matches(v.drop_last(), id) + if v.last()@ == id {
            1nat
        } else {
            0nat
        }
    }
}

/// In a sequence of pairwise distinct strings, a string that occurs occurs
/// exactly once.
pub proof fn lemma_unique_count(v: Seq<String>, id: Seq<char>)
    requires
        forall|i: int, j: int| 0 <= i < j < v.len() ==> v[i]@ != v[j]@,
    ensures
        count_matches(v, id) == if spec_contains_str(v, id) {
            1nat
        } else {
            0nat
        },
    decreases v.len(),
{
    if v.len() > 0 {
        let rest = v.drop_last();
        lemma_unique_count(rest, id);
        if v.last()@ == id {
            assert(!spec_contains_str(rest, id)) by {
                if spec_contains_str(rest, id) {
                    let w = choose|i: int| 0 <= i < rest.len() && rest[i]@ == id;
                    assert(v[w]@ != v[v.len() - 1]@);
                }
            }
            assert(spec_contains_str(v, id)) by {
                assert(v[v.len() - 1]@ == id);
            }
        } else {
            assert(spec_contains_str(v, id) == spec_contains_str(rest, id)) by {
                if spec_contains_str(v, id) {
                    let w = choose|i: int| 0 <= i < v.len() && v[i]@ == id;
                    assert(rest[w]@ == id);
                }
                if spec_contains_str(rest, id) {
                    let w = choose|i: int| 0 <= i < rest.len() && rest[i]@ == id;
                    assert(v[w]@ == id);
                }
            }
        }
    }
}

/// Relies on `String::push`: appends exactly one character at the end.
#[verifier::external_body]
pub fn push_char(s: &mut String, c: char)
    ensures
        final(s)@ == old(s)@.push(c),
{
    s.push(c);
}

/// Whether `sub` occurs in `s` starting at index `at`.
pub open spec fn matches_at(s: Seq<char>, sub: Seq<char>, at: int) -> bool {
    &&& 0 <= at
    &&& at + sub.len() <= s.len()
    &&& forall|j: int| 0 <= j < sub.len() ==> s[at + j] == sub[j]
}

/// Whether `sub` occurs anywhere in `s`.
pub open spec fn has_substring(s: Seq<char>, sub: Seq<char>) -> bool {
    exists|at: int| matches_at(s, sub, at)
}

/// Whether `sub` occurs in `s` starting exactly at index `at`.
fn matches_at_exec(s: &str, sub: &str, at: usize) -> (r: bool)
    requires
        at + sub@.len() <= s@.len() <= usize::MAX,
    ensures
        r == matches_at(s@, sub@, at as int),
{
    let sublen = sub.unicode_len();
    let mut j: usize = 0;
    while j < sublen
        invariant
            sublen == sub@.len(),
            at + sublen <= s@.len() <= usize::MAX,
            j <= sublen,
            forall|k: int| 0 <= k < j ==> s@[at + k] == sub@[k],
        decreases sublen - j,
    {
        if s.get_char(at + j) != sub.get_char(j) {
            assert(s@[at + j] != sub@[j as int]);
            return false;
        }
        j += 1;
    }
    true
}

/// Whether `sub` occurs in `s` (substring search).
pub fn contains_sub(s: &str, sub: &str) -> (r: bool)
    ensures
        r == has_substring(s@, sub@),
{
    let slen = s.unicode_len();
    let sublen = sub.unicode_len();
    if sublen > slen {
        assert(!has_substring(s@, sub@));
        return false;
    }
    let mut at: usize = 0;
    while at <= slen - sublen
        invariant
            slen == s@.len(),
            sublen == sub@.len(),
            sublen <= slen,
            at <= slen - sublen + 1,
            forall|a: int| 0 <= a < at ==> !matches_at(s@, sub@, a),
        decreases slen - sublen - at + 1,
    {
        if matches_at_exec(s, sub, at) {
            return true;
        }
        at += 1;
    }
    assert forall|a: int| matches_at(s@, sub@, a) implies false by {
        assert(0 <= a < at || a + sub@.len() > s@.len());
    }
    false
}

} // verus!
