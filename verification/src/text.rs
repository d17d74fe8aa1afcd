//! Small executable helpers on strings, specified over their character views.

use vstd::prelude::*;
use vstd::string::{StrSliceExecFns, StringExecFns, StringSliceAdditionalSpecFns};
use vstd::utf8::encode_utf8;

verus! {

/// The UTF-8 bytes that `s` spells.
pub fn str_to_bytes(s: &str) -> (r: Vec<u8>)
    ensures
        r@ == encode_utf8(s@),
{
    s.as_bytes_vec()
}

/// True exactly when the two slices spell the same characters.
pub fn str_eq(a: &str, b: &str) -> (r: bool)
    ensures
        r == (a@ == b@),
{
    let owned_a: String = a.to_owned();
    let owned_b: String = b.to_owned();
    owned_a == owned_b
}

/// The two slices joined in order.
pub fn str_concat(a: &str, b: &str) -> (r: String)
    ensures
        r@ == a@ + b@,
{
    let owned: String = a.to_owned();
    owned.concat(b)
}

/// The three slices joined in order.
pub fn str_concat3(a: &str, b: &str, c: &str) -> (r: String)
    ensures
        r@ == a@ + b@ + c@,
{
    let head = str_concat(a, b);
    let joined = head.concat(c);
    joined
}

/// `s` without its leading `'/'` characters.
pub open spec fn strip_slashes(s: Seq<char>) -> Seq<char>
    decreases s.len(),
{
    if s.len() > 0 && s[0] == '/' {
        strip_slashes(s.subrange(1, s.len() as int))
    } else {
        s
    }
}

proof fn lemma_strip_slashes_at(s: Seq<char>, i: int)
    requires
        0 <= i <= s.len(),
        forall|j: int| 0 <= j < i ==> s[j] == '/',
        i < s.len() ==> s[i] != '/',
    ensures
        strip_slashes(s) == s.subrange(i, s.len() as int),
    decreases i,
{
    if i == 0 {
        assert(s.subrange(0, s.len() as int) =~= s);
    } else {
        let tail = s.subrange(1, s.len() as int);
        lemma_strip_slashes_at(tail, i - 1);
        assert(tail.subrange(i - 1, tail.len() as int) =~= s.subrange(i, s.len() as int));
    }
}

/// `s` with every leading `'/'` removed, as `trim_start_matches('/')` does.
pub fn trim_leading_slashes(s: &str) -> (r: String)
    ensures
        r@ == strip_slashes(s@),
{
    let n = s.unicode_len();
    let mut i: usize = 0;
    while i < n && s.get_char(i) == '/'
        invariant
            0 <= i <= n,
            n == s@.len(),
            forall|j: int| 0 <= j < i ==> s@[j] == '/',
        decreases n - i,
    {
        i = i + 1;
    }
    proof {
        lemma_strip_slashes_at(s@, i as int);
    }
    let rest = s.substring_char(i, n);
    rest.to_owned()
}

/// An ASCII whitespace character, as the path arguments are trimmed of.
pub open spec fn is_ascii_space(c: char) -> bool {
    c == ' ' || c == '\t' || c == '\n' || c == '\r'
}

/// `s` without its leading whitespace.
pub open spec fn trim_front_spaces(s: Seq<char>) -> Seq<char>
    decreases s.len(),
{
    if s.len() > 0 && is_ascii_space(s[0]) {
        trim_front_spaces(s.subrange(1, s.len() as int))
    } else {
        s
    }
}

/// `s` without its trailing whitespace.
pub open spec fn trim_back_spaces(s: Seq<char>) -> Seq<char>
    decreases s.len(),
{
    if s.len() > 0 && is_ascii_space(s[s.len() - 1]) {
        trim_back_spaces(s.drop_last())
    } else {
        s
    }
}

/// `s` without leading and trailing whitespace.
pub open spec fn trimmed(s: Seq<char>) -> Seq<char> {
    trim_back_spaces(trim_front_spaces(s))
}

proof fn lemma_trim_front_at(s: Seq<char>, i: int)
    requires
        0 <= i <= s.len(),
        forall|j: int| 0 <= j < i ==> is_ascii_space(s[j]),
        i < s.len() ==> !is_ascii_space(s[i]),
    ensures
        trim_front_spaces(s) == s.subrange(i, s.len() as int),
    decreases i,
{
    if i == 0 {
        assert(s.subrange(0, s.len() as int) =~= s);
    } else {
        let tail = s.subrange(1, s.len() as int);
        lemma_trim_front_at(tail, i - 1);
        assert(tail.subrange(i - 1, tail.len() as int) =~= s.subrange(i, s.len() as int));
    }
}

proof fn lemma_trim_back_at(s: Seq<char>, j: int)
    requires
        0 <= j <= s.len(),
        forall|k: int| j <= k < s.len() ==> is_ascii_space(s[k]),
        j > 0 ==> !is_ascii_space(s[j - 1]),
    ensures
        trim_back_spaces(s) == s.subrange(0, j),
    decreases s.len() - j,
{
    if j == s.len() {
        assert(s.subrange(0, s.len() as int) =~= s);
    } else {
        lemma_trim_back_at(s.drop_last(), j);
    }
}

/// `s` with leading and trailing ASCII whitespace removed.
pub fn trim_spaces(s: &str) -> (r: String)
    ensures
        r@ == trimmed(s@),
{
    let n = s.unicode_len();
    let mut i: usize = 0;
    while i < n && is_space_char(s.get_char(i))
        invariant
            0 <= i <= n,
            n == s@.len(),
            forall|j: int| 0 <= j < i ==> is_ascii_space(s@[j]),
        decreases n - i,
    {
        i = i + 1;
    }
    let mut j: usize = n;
    while j > i && is_space_char(s.get_char(j - 1))
        invariant
            i <= j <= n,
            n == s@.len(),
            forall|k: int| j <= k < n ==> is_ascii_space(s@[k]),
        decreases j,
    {
        j = j - 1;
    }
    proof {
        lemma_trim_front_at(s@, i as int);
        let front = s@.subrange(i as int, s@.len() as int);
        lemma_trim_back_at(front, j - i);
        assert(front.subrange(0, j - i) =~= s@.subrange(i as int, j as int));
    }
    let rest = s.substring_char(i, j);
    rest.to_owned()
}

/// Whether the character is ASCII whitespace.
fn is_space_char(c: char) -> (r: bool)
    ensures
        r == is_ascii_space(c),
{
    c == ' ' || c == '\t' || c == '\n' || c == '\r'
}

} // verus!
