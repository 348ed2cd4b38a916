//! String helpers: decimal rendering, prefix tests and URL joining, each
//! specified over character sequences.

use vstd::prelude::*;
use vstd::string::StrSliceExecFns;
use vstd::string::StringExecFns;

verus! {

/// The character for one decimal digit.
pub open spec fn spec_dec_digit(d: nat) -> char {
    if d == 0 { '0' }
    else if d == 1 { '1' }
    else if d == 2 { '2' }
    else if d == 3 { '3' }
    else if d == 4 { '4' }
    else if d == 5 { '5' }
    else if d == 6 { '6' }
    else if d == 7 { '7' }
    else if d == 8 { '8' }
    else { '9' }
}

/// The decimal rendering of a natural number, most significant digit first.
pub open spec fn spec_dec(n: nat) -> Seq<char>
    decreases n,
{
    if n < 10 {
        seq![spec_dec_digit(n)]
    } else {
        spec_dec(n / 10).push(spec_dec_digit(n % 10))
    }
}

fn dec_digit(d: u64) -> (r: &'static str)
    requires
        d < 10,
    ensures
        r@ == seq![spec_dec_digit(d as nat)],
{
    let r: &'static str = match d {
        0 => "0",
        1 => "1",
        2 => "2",
        3 => "3",
        4 => "4",
        5 => "5",
        6 => "6",
        7 => "7",
        8 => "8",
        _ => "9",
    };
    proof {
        reveal_strlit("0");
        reveal_strlit("1");
        reveal_strlit("2");
        reveal_strlit("3");
        reveal_strlit("4");
        reveal_strlit("5");
        reveal_strlit("6");
        reveal_strlit("7");
        reveal_strlit("8");
        reveal_strlit("9");
        assert(r@ =~= seq![spec_dec_digit(d as nat)]);
    }
    r
}

/// Renders a number in decimal.
pub fn u64_to_dec(n: u64) -> (r: String)
    ensures
        r@ == spec_dec(n as nat),
    decreases n,
{
    if n < 10 {
        dec_digit(n).to_owned()
    } else {
        let r = u64_to_dec(n / 10).concat(dec_digit(n % 10));
        proof {
            assert(r@ =~= spec_dec(n as nat));
        }
        r
    }
}

/// Whether `s` starts with the characters of `p`.
pub open spec fn spec_has_prefix(s: Seq<char>, p: Seq<char>) -> bool {
    s.len() >= p.len() && s.subrange(0, p.len() as int) == p
}

/// Whether one string starts with another.
pub fn has_prefix(s: &str, p: &str) -> (r: bool)
    ensures
        r == spec_has_prefix(s@, p@),
{
    let sn = s.unicode_len();
    let pn = p.unicode_len();
    if sn < pn {
        proof {
            assert(!spec_has_prefix(s@, p@));
        }
        return false;
    }
    let head = s.substring_char(0, pn);
    let r = crate::json::str_eq(head, p);
    proof {
        assert(head@ == s@.subrange(0, p@.len() as int));
    }
    r
}

/// `s` without its trailing slashes.
pub open spec fn spec_trim_end_slash(s: Seq<char>) -> Seq<char>
    decreases s.len(),
{
    if s.len() > 0 && s.last() == '/' {
        spec_trim_end_slash(s.drop_last())
    } else {
        s
    }
}

/// `s` without its leading slashes.
pub open spec fn spec_trim_start_slash(s: Seq<char>) -> Seq<char>
    decreases s.len(),
{
    if s.len() > 0 && s.first() == '/' {
        spec_trim_start_slash(s.drop_first())
    } else {
        s
    }
}

proof fn lemma_trim_end_prefix(s: Seq<char>, end: int)
    requires
        0 <= end <= s.len(),
        forall|j: int| end <= j < s.len() ==> s[j] == '/',
    ensures
        spec_trim_end_slash(s) == spec_trim_end_slash(s.subrange(0, end)),
    decreases s.len() - end,
{
    if end < s.len() {
        assert(s.last() == '/');
        assert(s.drop_last() =~= s.subrange(0, s.len() - 1));
        lemma_trim_end_prefix(s.subrange(0, s.len() - 1), end);
        assert(s.subrange(0, s.len() - 1).subrange(0, end) =~= s.subrange(0, end));
    } else {
        assert(s.subrange(0, end) =~= s);
    }
}

proof fn lemma_trim_start_suffix(s: Seq<char>, start: int)
    requires
        0 <= start <= s.len(),
        forall|j: int| 0 <= j < start ==> s[j] == '/',
    ensures
        spec_trim_start_slash(s) == spec_trim_start_slash(
            s.subrange(start, s.len() as int),
        ),
    decreases start,
{
    if start > 0 {
        assert(s.first() == '/');
        assert(s.drop_first() =~= s.subrange(1, s.len() as int));
        lemma_trim_start_suffix(s.subrange(1, s.len() as int), start - 1);
        assert(s.subrange(1, s.len() as int).subrange(start - 1, s.len() - 1)
            =~= s.subrange(start, s.len() as int));
    } else {
        assert(s.subrange(0, s.len() as int) =~= s);
    }
}

/// Copies `s` without its trailing slashes.
pub fn trim_end_slash(s: &str) -> (r: String)
    ensures
        r@ == spec_trim_end_slash(s@),
{
    let n = s.unicode_len();
    let mut end = n;
    while end > 0 && s.get_char(end - 1) == '/'
        invariant
            end <= n,
            n == s@.len(),
            forall|j: int| end <= j < s@.len() ==> s@[j] == '/',
        decreases end,
    {
        end = end - 1;
    }
    proof {
        lemma_trim_end_prefix(s@, end as int);
        let t = s@.subrange(0, end as int);
        if t.len() > 0 {
            assert(t.last() == s@[end - 1]);
        }
        assert(spec_trim_end_slash(t) == t);
    }
    s.substring_char(0, end).to_owned()
}

/// Copies `s` without its leading slashes.
pub fn trim_start_slash(s: &str) -> (r: String)
    ensures
        r@ == spec_trim_start_slash(s@),
{
    let n = s.unicode_len();
    let mut start: usize = 0;
    while start < n && s.get_char(start) == '/'
        invariant
            start <= n,
            n == s@.len(),
            forall|j: int| 0 <= j < start ==> s@[j] == '/',
        decreases n - start,
    {
        start = start + 1;
    }
    proof {
        lemma_trim_start_suffix(s@, start as int);
        let t = s@.subrange(start as int, s@.len() as int);
        if t.len() > 0 {
            assert(t.first() == s@[start as int]);
        }
        assert(spec_trim_start_slash(t) == t);
    }
    s.substring_char(start, n).to_owned()
}

/// What joining a base address and a path yields: one slash between them.
pub open spec fn spec_join_url(base: Seq<char>, path: Seq<char>) -> Seq<char> {
    spec_trim_end_slash(base) + seq!['/'] + spec_trim_start_slash(path)
}

/// Joins a base address and a path with a single slash.
pub fn join_url(base: &str, path: &str) -> (r: String)
    ensures
        r@ == spec_join_url(base@, path@),
{
    let tb = trim_end_slash(base);
    let tp = trim_start_slash(path);
    let r = tb.concat("/").concat(tp.as_str());
    proof {
        reveal_strlit("/");
        assert(r@ =~= spec_join_url(base@, path@));
    }
    r
}

/// Concatenates two strings.
pub fn concat2(a: &str, b: &str) -> (r: String)
    ensures
        r@ == a@ + b@,
{
    a.to_owned().concat(b)
}

/// Concatenates three strings.
pub fn concat3(a: &str, b: &str, c: &str) -> (r: String)
    ensures
        r@ == a@ + b@ + c@,
{
    a.to_owned().concat(b).concat(c)
}

} // verus!
