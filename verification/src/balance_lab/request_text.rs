//! Character-level reading of request lines and header values.

use vstd::prelude::*;

verus! {

broadcast use vstd::string::axiom_spec_iter;

/// The characters of `s` before its first `stop`, or all of `s` when it holds none.
pub open spec fn before_first(s: Seq<char>, stop: char) -> Seq<char>
    decreases s.len(),
{
    if s.len() == 0 {
        s
    } else if s[0] == stop {
        Seq::empty()
    } else {
        seq![s[0]] + before_first(s.drop_first(), stop)
    }
}

/// `k` is where `s` first holds `stop`, or its length when it holds none.
pub open spec fn is_first_stop(s: Seq<char>, stop: char, k: int) -> bool {
    &&& 0 <= k <= s.len()
    &&& forall|j: int| 0 <= j < k ==> s[j] != stop
    &&& (k == s.len() || s[k] == stop)
}

pub proof fn lemma_before_first_is_prefix(s: Seq<char>, stop: char, k: int)
    requires
        is_first_stop(s, stop, k),
    ensures
        before_first(s, stop) == s.take(k),
    decreases s.len(),
{
    if s.len() == 0 {
        assert(s.take(k) =~= s);
    } else if s[0] == stop {
        assert(k == 0);
        assert(s.take(k) =~= Seq::<char>::empty());
    } else {
        assert(k > 0);
        let rest = s.drop_first();
        assert(is_first_stop(rest, stop, k - 1)) by {
            assert forall|j: int| 0 <= j < k - 1 implies rest[j] != stop by {
                assert(rest[j] == s[j + 1]);
            }
            if k - 1 < rest.len() {
                assert(rest[k - 1] == s[k]);
            }
        }
        lemma_before_first_is_prefix(rest, stop, k - 1);
        assert(seq![s[0]] + rest.take(k - 1) =~= s.take(k));
    }
}

/// Unicode `White_Space`, the set that `char::is_whitespace` tests.
pub open spec fn is_white_space(c: char) -> bool {
    let code = c as u32;
    ||| 0x09 <= code <= 0x0D
    ||| code == 0x20
    ||| code == 0x85
    ||| code == 0xA0
    ||| code == 0x1680
    ||| 0x2000 <= code <= 0x200A
    ||| code == 0x2028
    ||| code == 0x2029
    ||| code == 0x202F
    ||| code == 0x205F
    ||| code == 0x3000
}

/// `s` without its leading white space.
pub open spec fn trim_start(s: Seq<char>) -> Seq<char>
    decreases s.len(),
{
    if s.len() > 0 && is_white_space(s[0]) {
        trim_start(s.drop_first())
    } else {
        s
    }
}

/// `s` without its trailing white space.
pub open spec fn trim_end(s: Seq<char>) -> Seq<char>
    decreases s.len(),
{
    if s.len() > 0 && is_white_space(s.last()) {
        trim_end(s.drop_last())
    } else {
        s
    }
}

/// `s` without white space at either end, as `str::trim` gives it.
pub open spec fn trim(s: Seq<char>) -> Seq<char> {
    trim_end(trim_start(s))
}

pub proof fn lemma_trim_start_at(s: Seq<char>, a: int)
    requires
        0 <= a <= s.len(),
        forall|j: int| 0 <= j < a ==> is_white_space(#[trigger] s[j]),
        a == s.len() || !is_white_space(s[a]),
    ensures
        trim_start(s) == s.subrange(a, s.len() as int),
    decreases s.len(),
{
    if a == 0 {
        assert(s.subrange(0, s.len() as int) =~= s);
    } else {
        assert(is_white_space(s[0]));
        let rest = s.drop_first();
        assert forall|j: int| 0 <= j < a - 1 implies is_white_space(#[trigger] rest[j]) by {
            assert(rest[j] == s[j + 1]);
        }
        if a - 1 < rest.len() {
            assert(rest[a - 1] == s[a]);
        }
        lemma_trim_start_at(rest, a - 1);
        assert(rest.subrange(a - 1, rest.len() as int) =~= s.subrange(a, s.len() as int));
    }
}

pub proof fn lemma_trim_end_at(s: Seq<char>, b: int)
    requires
        0 <= b <= s.len(),
        forall|j: int| b <= j < s.len() ==> is_white_space(#[trigger] s[j]),
        b == 0 || !is_white_space(s[b - 1]),
    ensures
        trim_end(s) == s.take(b),
    decreases s.len(),
{
    if b == s.len() {
        assert(s.take(b) =~= s);
        if s.len() > 0 {
            assert(s.last() == s[b - 1]);
        }
    } else {
        assert(is_white_space(s.last()));
        let rest = s.drop_last();
        assert forall|j: int| b <= j < rest.len() implies is_white_space(#[trigger] rest[j]) by {
            assert(rest[j] == s[j]);
        }
        if b > 0 {
            assert(rest[b - 1] == s[b - 1]);
        }
        lemma_trim_end_at(rest, b);
        assert(rest.take(b) =~= s.take(b));
    }
}

/// The lower-case form of an ASCII letter; any other character unchanged.
pub open spec fn ascii_lower(c: char) -> u32 {
    let code = c as u32;
    if 0x41 <= code <= 0x5A {
        (code + 0x20) as u32
    } else {
        code
    }
}

/// `a` and `b` are equal when ASCII letters are compared without case,
/// as `str::eq_ignore_ascii_case` compares them.
pub open spec fn same_ignoring_ascii_case(a: Seq<char>, b: Seq<char>) -> bool {
    &&& a.len() == b.len()
    &&& forall|i: int| 0 <= i < a.len() ==> ascii_lower(#[trigger] a[i]) == ascii_lower(b[i])
}

/// The characters of `s`, in order.
pub fn chars_of(s: &str) -> (chars: Vec<char>)
    ensures
        chars@ == s@,
{
    let mut chars: Vec<char> = Vec::new();
    for c in it: s.chars()
        invariant
            chars@ == it.seq().take(it.index() as int),
    {
        chars.push(c);
    }
    chars
}

/// Where `chars` first holds `stop`, or its length when it holds none.
pub fn first_stop(chars: &Vec<char>, stop: char) -> (k: usize)
    ensures
        is_first_stop(chars@, stop, k as int),
{
    let mut k: usize = 0;
    while k < chars.len()
        invariant
            k <= chars.len(),
            forall|j: int| 0 <= j < k ==> chars@[j] != stop,
        decreases chars.len() - k,
    {
        if chars[k] == stop {
            return k;
        }
        k = k + 1;
    }
    k
}

/// Whether `c` is Unicode white space.
pub fn white_space(c: char) -> (r: bool)
    ensures
        r == is_white_space(c),
{
    let code = c as u32;
    (0x09 <= code && code <= 0x0D) || code == 0x20 || code == 0x85 || code == 0xA0 || code
        == 0x1680 || (0x2000 <= code && code <= 0x200A) || code == 0x2028 || code == 0x2029
        || code == 0x202F || code == 0x205F || code == 0x3000
}

/// The characters of `chars` without white space at either end.
pub fn trimmed(chars: &Vec<char>) -> (t: Vec<char>)
    ensures
        t@ == trim(chars@),
{
    let n = chars.len();
    let mut a: usize = 0;
    while a < n && white_space(chars[a])
        invariant
            n == chars.len(),
            a <= n,
            forall|j: int| 0 <= j < a ==> is_white_space(#[trigger] chars@[j]),
        decreases n - a,
    {
        a = a + 1;
    }
    proof {
        lemma_trim_start_at(chars@, a as int);
    }
    let ghost start = chars@.subrange(a as int, n as int);
    let mut b: usize = n;
    while b > a && white_space(chars[b - 1])
        invariant
            n == chars.len(),
            a <= b <= n,
            forall|j: int| b <= j < n ==> is_white_space(#[trigger] chars@[j]),
        decreases b,
    {
        b = b - 1;
    }
    proof {
        let m = (b - a) as int;
        assert forall|j: int| m <= j < start.len() implies is_white_space(#[trigger] start[j]) by {
            assert(start[j] == chars@[a + j]);
        }
        if m > 0 {
            assert(start[m - 1] == chars@[b - 1]);
        }
        lemma_trim_end_at(start, m);
    }
    let mut t: Vec<char> = Vec::new();
    let mut i: usize = a;
    while i < b
        invariant
            n == chars.len(),
            a <= i <= b <= n,
            t@ == chars@.subrange(a as int, i as int),
        decreases b - i,
    {
        t.push(chars[i]);
        i = i + 1;
    }
    proof {
        assert(t@ =~= start.take((b - a) as int));
    }
    t
}

/// The ASCII-lower-cased code of `c`.
pub fn lower_code(c: char) -> (code: u32)
    ensures
        code == ascii_lower(c),
{
    let code = c as u32;
    if 0x41 <= code && code <= 0x5A {
        code + 0x20
    } else {
        code
    }
}

/// Whether `a` and `b` are equal when ASCII letters are compared without case.
pub fn equal_ignoring_ascii_case(a: &Vec<char>, b: &Vec<char>) -> (r: bool)
    ensures
        r == same_ignoring_ascii_case(a@, b@),
{
    if a.len() != b.len() {
        return false;
    }
    let mut i: usize = 0;
    while i < a.len()
        invariant
            a.len() == b.len(),
            i <= a.len(),
            forall|j: int| 0 <= j < i ==> ascii_lower(#[trigger] a@[j]) == ascii_lower(b@[j]),
        decreases a.len() - i,
    {
        if lower_code(a[i]) != lower_code(b[i]) {
            return false;
        }
        i = i + 1;
    }
    true
}

} // verus!
