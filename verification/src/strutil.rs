//! Small verified utilities over strings and characters: equality, decimal
//! rendering of integers, and the character classes the selector and code
//! generation stages depend on.

use vstd::prelude::*;
use vstd::string::*;

verus! {

/// Relies on `String::push`: appends the given character to the end of the string.
#[verifier::external_body]
pub fn push_char(s: &mut String, c: char)
    ensures
        final(s)@ == old(s)@.push(c),
{
    s.push(c);
}

/// Character-wise string equality, stated over the views.
pub fn str_eq(a: &str, b: &str) -> (r: bool)
    ensures
        r == (a@ == b@),
{
    let alen = a.unicode_len();
    let blen = b.unicode_len();
    if alen != blen {
        return false;
    }
    let mut i: usize = 0;
    while i < alen
        invariant
            alen == a@.len(),
            blen == b@.len(),
            alen == blen,
            i <= alen,
            forall|j: int| 0 <= j < i ==> a@[j] == b@[j],
        decreases alen - i,
    {
        let ca = a.get_char(i);
        let cb = b.get_char(i);
        if ca != cb {
            return false;
        }
        i = i + 1;
    }
    proof {
        assert(a@ =~= b@);
    }
    true
}

/// The decimal digit character for `d` (`0 <= d <= 9`).
pub open spec fn spec_digit_char(d: nat) -> char {
    if d == 0 {
        '0'
    } else if d == 1 {
        '1'
    } else if d == 2 {
        '2'
    } else if d == 3 {
        '3'
    } else if d == 4 {
        '4'
    } else if d == 5 {
        '5'
    } else if d == 6 {
        '6'
    } else if d == 7 {
        '7'
    } else if d == 8 {
        '8'
    } else {
        '9'
    }
}

/// Decimal rendering of a non-negative integer, most significant digit first.
pub open spec fn spec_u64_digits(n: nat) -> Seq<char>
    decreases n,
{
    if n < 10 {
        seq![spec_digit_char(n)]
    } else {
        spec_u64_digits(n / 10).push(spec_digit_char(n % 10))
    }
}

/// Decimal rendering of a signed integer, with a leading `-` when negative.
pub open spec fn spec_i64_str(n: int) -> Seq<char> {
    if n < 0 {
        seq!['-'] + spec_u64_digits((-n) as nat)
    } else {
        spec_u64_digits(n as nat)
    }
}

fn digit_char(d: u64) -> (c: char)
    requires
        d <= 9,
    ensures
        c == spec_digit_char(d as nat),
{
    if d == 0 {
        '0'
    } else if d == 1 {
        '1'
    } else if d == 2 {
        '2'
    } else if d == 3 {
        '3'
    } else if d == 4 {
        '4'
    } else if d == 5 {
        '5'
    } else if d == 6 {
        '6'
    } else if d == 7 {
        '7'
    } else if d == 8 {
        '8'
    } else {
        '9'
    }
}

fn push_u64_digits(s: &mut String, n: u64)
    ensures
        final(s)@ == old(s)@ + spec_u64_digits(n as nat),
    decreases n,
{
    if n < 10 {
        push_char(s, digit_char(n));
        proof {
            assert(final(s)@ =~= old(s)@ + spec_u64_digits(n as nat));
        }
    } else {
        push_u64_digits(s, n / 10);
        push_char(s, digit_char(n % 10));
        proof {
            assert(final(s)@ =~= old(s)@ + spec_u64_digits(n as nat));
        }
    }
}

/// Renders `n` in decimal, exactly as std's formatter would.
pub fn i64_to_string(n: i64) -> (r: String)
    ensures
        r@ == spec_i64_str(n as int),
{
    let mut s = String::new();
    if n >= 0 {
        push_u64_digits(&mut s, n as u64);
        proof {
            assert(s@ =~= spec_i64_str(n as int));
        }
    } else {
        push_char(&mut s, '-');
        let m: u64 = ((-(n + 1)) as u64) + 1;
        assert(m as int == -(n as int));
        push_u64_digits(&mut s, m);
        proof {
            assert(s@ =~= spec_i64_str(n as int));
        }
    }
    s
}


/// Whether `c` is a whitespace character, by the Unicode white-space
/// property (the same class `char::is_whitespace` tests).
pub open spec fn spec_is_space(c: char) -> bool {
    c == ' ' || c == '\t' || c == '\n' || c == '\u{0B}' || c == '\u{0C}' || c == '\r'
        || c == '\u{85}' || c == '\u{A0}' || c == '\u{1680}' || c == '\u{2000}'
        || c == '\u{2001}' || c == '\u{2002}' || c == '\u{2003}' || c == '\u{2004}'
        || c == '\u{2005}' || c == '\u{2006}' || c == '\u{2007}' || c == '\u{2008}'
        || c == '\u{2009}' || c == '\u{200A}' || c == '\u{2028}' || c == '\u{2029}'
        || c == '\u{202F}' || c == '\u{205F}' || c == '\u{3000}'
}

/// Whether `c` is a whitespace character.
pub fn is_space(c: char) -> (r: bool)
    ensures
        r == spec_is_space(c),
{
    c == ' ' || c == '\t' || c == '\n' || c == '\u{0B}' || c == '\u{0C}' || c == '\r'
        || c == '\u{85}' || c == '\u{A0}' || c == '\u{1680}' || c == '\u{2000}'
        || c == '\u{2001}' || c == '\u{2002}' || c == '\u{2003}' || c == '\u{2004}'
        || c == '\u{2005}' || c == '\u{2006}' || c == '\u{2007}' || c == '\u{2008}'
        || c == '\u{2009}' || c == '\u{200A}' || c == '\u{2028}' || c == '\u{2029}'
        || c == '\u{202F}' || c == '\u{205F}' || c == '\u{3000}'
}

/// Whether the string holds any whitespace character.
pub open spec fn spec_has_space(s: Seq<char>) -> bool {
    exists|i: int| 0 <= i < s.len() && spec_is_space(s[i])
}

/// Whether the string holds any non-whitespace character.
pub open spec fn spec_has_nonspace(s: Seq<char>) -> bool {
    exists|i: int| 0 <= i < s.len() && !spec_is_space(s[i])
}

/// Whether the string holds any whitespace character.
pub fn has_whitespace(s: &str) -> (r: bool)
    ensures
        r == spec_has_space(s@),
{
    let len = s.unicode_len();
    let mut i: usize = 0;
    while i < len
        invariant
            i <= len,
            len == s@.len(),
            forall|j: int| 0 <= j < i ==> !spec_is_space(s@[j]),
        decreases len - i,
    {
        if is_space(s.get_char(i)) {
            return true;
        }
        i = i + 1;
    }
    false
}

/// Whether the string holds any non-whitespace character, that is, whether
/// trimming it leaves anything.
pub fn has_nonspace(s: &str) -> (r: bool)
    ensures
        r == spec_has_nonspace(s@),
{
    let len = s.unicode_len();
    let mut i: usize = 0;
    while i < len
        invariant
            i <= len,
            len == s@.len(),
            forall|j: int| 0 <= j < i ==> spec_is_space(s@[j]),
        decreases len - i,
    {
        if !is_space(s.get_char(i)) {
            return true;
        }
        i = i + 1;
    }
    false
}

/// The string with its leading whitespace removed.
pub open spec fn spec_skip_spaces(s: Seq<char>) -> Seq<char>
    decreases s.len(),
{
    if s.len() == 0 {
        Seq::empty()
    } else if spec_is_space(s.first()) {
        spec_skip_spaces(s.drop_first())
    } else {
        s
    }
}

/// The longest whitespace-free prefix of the string.
pub open spec fn spec_take_until_space(s: Seq<char>) -> Seq<char>
    decreases s.len(),
{
    if s.len() == 0 || spec_is_space(s.first()) {
        Seq::empty()
    } else {
        seq![s.first()] + spec_take_until_space(s.drop_first())
    }
}

/// The first whitespace-delimited token of the string; empty when the
/// string is all whitespace.
pub open spec fn spec_first_token(s: Seq<char>) -> Seq<char> {
    spec_take_until_space(spec_skip_spaces(s))
}

proof fn lemma_skip_spaces_at(s: Seq<char>, i: int)
    requires
        0 <= i <= s.len(),
        forall|j: int| 0 <= j < i ==> spec_is_space(s[j]),
    ensures
        spec_skip_spaces(s) == spec_skip_spaces(s.subrange(i, s.len() as int)),
    decreases i,
{
    if i > 0 {
        assert(spec_is_space(s.first()));
        lemma_skip_spaces_at(s.drop_first(), i - 1);
        assert(s.drop_first().subrange(i - 1, s.drop_first().len() as int) =~= s.subrange(
            i,
            s.len() as int,
        ));
    } else {
        assert(s.subrange(0, s.len() as int) =~= s);
    }
}

proof fn lemma_take_until_at(t: Seq<char>, j: int)
    requires
        0 <= j <= t.len(),
        forall|k: int| 0 <= k < j ==> !spec_is_space(t[k]),
        j == t.len() || spec_is_space(t[j]),
    ensures
        spec_take_until_space(t) == t.subrange(0, j),
    decreases j,
{
    if j > 0 {
        assert(!spec_is_space(t.first()));
        lemma_take_until_at(t.drop_first(), j - 1);
        assert(seq![t.first()] + t.drop_first().subrange(0, j - 1) =~= t.subrange(0, j));
    } else {
        if t.len() == 0 || spec_is_space(t.first()) {
            assert(t.subrange(0, 0) =~= Seq::<char>::empty());
        } else {
            assert(false);
        }
    }
}

/// The first whitespace-delimited token of the string; empty when there is
/// none.
pub fn first_token(s: &str) -> (r: String)
    ensures
        r@ == spec_first_token(s@),
{
    let len = s.unicode_len();
    let mut i: usize = 0;
    while i < len
        invariant
            i <= len,
            len == s@.len(),
            forall|j: int| 0 <= j < i ==> spec_is_space(s@[j]),
        ensures
            i <= len,
            len == s@.len(),
            forall|j: int| 0 <= j < i ==> spec_is_space(s@[j]),
            i == len || !spec_is_space(s@[i as int]),
        decreases len - i,
    {
        if !is_space(s.get_char(i)) {
            break;
        }
        i = i + 1;
    }
    proof {
        lemma_skip_spaces_at(s@, i as int);
    }
    if i == len {
        proof {
            assert(s@.subrange(i as int, s@.len() as int) =~= Seq::<char>::empty());
        }
        return String::new();
    }
    let ghost tail = s@.subrange(i as int, s@.len() as int);
    proof {
        assert(tail.first() == s@[i as int]);
        assert(spec_skip_spaces(tail) == tail);
    }
    let mut j: usize = i;
    while j < len
        invariant
            i <= j <= len,
            len == s@.len(),
            i < len,
            forall|k: int| i <= k < j ==> !spec_is_space(s@[k]),
        ensures
            i <= j <= len,
            len == s@.len(),
            forall|k: int| i <= k < j ==> !spec_is_space(s@[k]),
            j == len || spec_is_space(s@[j as int]),
        decreases len - j,
    {
        if is_space(s.get_char(j)) {
            break;
        }
        j = j + 1;
    }
    let mut out = String::new();
    let mut k: usize = i;
    while k < j
        invariant
            i <= k <= j <= len,
            len == s@.len(),
            out@ == s@.subrange(i as int, k as int),
        decreases j - k,
    {
        push_char(&mut out, s.get_char(k));
        proof {
            assert(s@.subrange(i as int, k as int).push(s@[k as int]) =~= s@.subrange(
                i as int,
                k + 1,
            ));
        }
        k = k + 1;
    }
    proof {
        lemma_take_until_at(tail, j - i);
        assert(tail.subrange(0, j - i) =~= s@.subrange(i as int, j as int));
    }
    out
}


/// Whether `p` is a prefix of `s`.
pub open spec fn spec_starts_with(s: Seq<char>, p: Seq<char>) -> bool {
    s.len() >= p.len() && s.subrange(0, p.len() as int) == p
}

/// Whether the string starts with the given prefix.
pub fn str_starts_with(s: &str, p: &str) -> (r: bool)
    ensures
        r == spec_starts_with(s@, p@),
{
    let slen = s.unicode_len();
    let plen = p.unicode_len();
    if plen > slen {
        return false;
    }
    let mut i: usize = 0;
    while i < plen
        invariant
            i <= plen <= slen,
            slen == s@.len(),
            plen == p@.len(),
            forall|j: int| 0 <= j < i ==> s@[j] == p@[j],
        decreases plen - i,
    {
        if s.get_char(i) != p.get_char(i) {
            proof {
                assert(s@.subrange(0, plen as int)[i as int] != p@[i as int]);
            }
            return false;
        }
        i = i + 1;
    }
    proof {
        assert(s@.subrange(0, plen as int) =~= p@);
    }
    true
}

/// Whether `p` occurs in `s` at position `i`.
pub fn match_at(s: &str, i: usize, p: &str) -> (r: bool)
    requires
        i + p@.len() <= s@.len(),
    ensures
        r == (s@.subrange(i as int, i + p@.len()) == p@),
{
    let slen = s.unicode_len();
    let plen = p.unicode_len();
    let mut k: usize = 0;
    while k < plen
        invariant
            k <= plen,
            plen == p@.len(),
            slen == s@.len(),
            i + plen <= slen,
            forall|j: int| 0 <= j < k ==> s@[i + j] == p@[j],
        decreases plen - k,
    {
        if s.get_char(i + k) != p.get_char(k) {
            proof {
                assert(s@.subrange(i as int, i + p@.len())[k as int] != p@[k as int]);
            }
            return false;
        }
        k = k + 1;
    }
    proof {
        assert(s@.subrange(i as int, i + p@.len()) =~= p@);
    }
    true
}

/// The string with its trailing whitespace removed.
pub open spec fn spec_trim_end(s: Seq<char>) -> Seq<char>
    decreases s.len(),
{
    if s.len() > 0 && spec_is_space(s.last()) {
        spec_trim_end(s.drop_last())
    } else {
        s
    }
}

proof fn lemma_trim_end_at(s: Seq<char>, k: int)
    requires
        0 <= k <= s.len(),
        forall|j: int| k <= j < s.len() ==> spec_is_space(s[j]),
        k == 0 || !spec_is_space(s[k - 1]),
    ensures
        spec_trim_end(s) == s.subrange(0, k),
    decreases s.len(),
{
    if k < s.len() {
        assert(spec_is_space(s.last()));
        lemma_trim_end_at(s.drop_last(), k);
        assert(s.drop_last().subrange(0, k) =~= s.subrange(0, k));
    } else {
        assert(s.subrange(0, k) =~= s);
    }
}

/// Removes trailing whitespace.
pub fn trim_end(s: &str) -> (r: String)
    ensures
        r@ == spec_trim_end(s@),
{
    let len = s.unicode_len();
    let mut k: usize = len;
    while k > 0
        invariant
            k <= len,
            len == s@.len(),
            forall|j: int| k <= j < len ==> spec_is_space(s@[j]),
        ensures
            k <= len,
            len == s@.len(),
            forall|j: int| k <= j < len ==> spec_is_space(s@[j]),
            k == 0 || !spec_is_space(s@[k - 1]),
        decreases k,
    {
        if !is_space(s.get_char(k - 1)) {
            break;
        }
        k = k - 1;
    }
    let mut out = String::new();
    let mut i: usize = 0;
    while i < k
        invariant
            i <= k <= len,
            len == s@.len(),
            out@ == s@.subrange(0, i as int),
        decreases k - i,
    {
        push_char(&mut out, s.get_char(i));
        proof {
            assert(s@.subrange(0, i as int).push(s@[i as int]) =~= s@.subrange(0, i + 1));
        }
        i = i + 1;
    }
    proof {
        lemma_trim_end_at(s@, k as int);
    }
    out
}

} // verus!
