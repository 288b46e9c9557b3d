use vstd::prelude::*;

verus! {

/// std's `io::Error`, the error type of `get_domain`'s result; opaque.
#[verifier::external_type_specification]
#[verifier::external_body]
pub struct ExIoError(std::io::Error);

/// The first position, from `from` on, at which `pat` occurs in `s`.
pub open spec fn find_from(s: Seq<char>, pat: Seq<char>, from: int) -> Option<int>
    decreases s.len() + 1 - from,
{
    if from < 0 || from + pat.len() > s.len() {
        None
    } else if s.subrange(from, from + pat.len()) == pat {
        Some(from)
    } else {
        find_from(s, pat, from + 1)
    }
}

/// The position just past the first `pat` in `s`, or the start when `s`
/// holds none.
pub open spec fn past(s: Seq<char>, pat: Seq<char>) -> int {
    match find_from(s, pat, 0) {
        Some(i) => i + pat.len(),
        None => 0,
    }
}

/// The first occurrence of `pat` in `s`, or the length of `s` when there is
/// none.
pub open spec fn first_or_end(s: Seq<char>, pat: Seq<char>) -> int {
    match find_from(s, pat, 0) {
        Some(i) => i,
        None => s.len() as int,
    }
}

/// Where the host starts: past the scheme's `://` and past the user's `@`,
/// whichever comes later.
pub open spec fn host_start(url: Seq<char>) -> int {
    let a = past(url, seq![':', '/', '/']);
    let b = past(url, seq!['@']);
    if a >= b {
        a
    } else {
        b
    }
}

/// Where the host ends within `rest`: at the first `:` or `/`, or at its end.
pub open spec fn host_end(rest: Seq<char>) -> int {
    let a = first_or_end(rest, seq![':']);
    let b = first_or_end(rest, seq!['/']);
    if a <= b {
        a
    } else {
        b
    }
}

/// The host that a remote URL names.
pub open spec fn domain(url: Seq<char>) -> Seq<char> {
    let rest = url.skip(host_start(url));
    rest.take(host_end(rest))
}

proof fn lemma_find_from_bounds(s: Seq<char>, pat: Seq<char>, from: int)
    ensures
        find_from(s, pat, from) matches Some(i) ==> from <= i && i + pat.len() <= s.len(),
    decreases s.len() + 1 - from,
{
    if !(from < 0 || from + pat.len() > s.len()) && s.subrange(from, from + pat.len()) != pat {
        lemma_find_from_bounds(s, pat, from + 1);
    }
}

fn matches_at(s: &Vec<char>, pat: &Vec<char>, at: usize) -> (r: bool)
    requires
        at + pat@.len() <= s@.len(),
    ensures
        r == (s@.subrange(at as int, at + pat@.len()) == pat@),
{
    let n = s.len();
    let mut j: usize = 0;
    while j < pat.len()
        invariant
            n == s@.len(),
            at + pat@.len() <= s@.len(),
            j <= pat@.len(),
            s@.subrange(at as int, at + j) == pat@.take(j as int),
        decreases pat@.len() - j,
    {
        if s[at + j] != pat[j] {
            assert(s@.subrange(at as int, at + pat@.len())[j as int] != pat@[j as int]);
            return false;
        }
        assert(s@.subrange(at as int, at + j + 1) =~= pat@.take(j + 1));
        j = j + 1;
    }
    assert(pat@.take(pat@.len() as int) =~= pat@);
    true
}

fn find_first(s: &Vec<char>, pat: &Vec<char>) -> (r: Option<usize>)
    ensures
        match r {
            Some(i) => find_from(s@, pat@, 0) == Some(i as int),
            None => find_from(s@, pat@, 0) is None,
        },
{
    let mut i: usize = 0;
    while pat.len() <= s.len() - i
        invariant
            i <= s@.len(),
            find_from(s@, pat@, 0) == find_from(s@, pat@, i as int),
        decreases s@.len() - i,
    {
        if matches_at(s, pat, i) {
            return Some(i);
        }
        assert(pat@.len() > 0) by {
            if pat@.len() == 0 {
                assert(s@.subrange(i as int, i as int) =~= pat@);
            }
        }
        i = i + 1;
    }
    None
}

/// The host of a remote URL such as `git@github.com:user/repo.git` or
/// `ssh://git@github.com/project/repo.git`.
pub fn get_domain(url: &str) -> (r: std::io::Result<&str>)
    ensures
        r matches Ok(d) && d@ == domain(url@),
{
    let n = url.unicode_len();
    let mut chars: Vec<char> = Vec::new();
    for i in 0..n
        invariant
            n == url@.len(),
            chars@ == url@.take(i as int),
    {
        chars.push(url.get_char(i));
        assert(chars@ =~= url@.take(i + 1));
    }
    assert(chars@ =~= url@);
    let scheme_sep = vec![':', '/', '/'];
    let user_sep = vec!['@'];
    assert(scheme_sep@ =~= seq![':', '/', '/']);
    assert(user_sep@ =~= seq!['@']);
    proof {
        lemma_find_from_bounds(url@, scheme_sep@, 0);
        lemma_find_from_bounds(url@, user_sep@, 0);
    }
    let after_scheme = match find_first(&chars, &scheme_sep) {
        Some(i) => i + 3,
        None => 0,
    };
    let after_user = match find_first(&chars, &user_sep) {
        Some(i) => i + 1,
        None => 0,
    };
    let start = if after_scheme >= after_user {
        after_scheme
    } else {
        after_user
    };
    assert(start == host_start(url@));
    let mut rest: Vec<char> = Vec::new();
    let mut k: usize = start;
    while k < n
        invariant
            start <= k <= n,
            n == chars@.len(),
            rest@ == chars@.subrange(start as int, k as int),
        decreases n - k,
    {
        rest.push(chars[k]);
        assert(rest@ =~= chars@.subrange(start as int, k + 1));
        k = k + 1;
    }
    assert(rest@ =~= url@.skip(start as int));
    let port_sep = vec![':'];
    let path_sep = vec!['/'];
    assert(port_sep@ =~= seq![':']);
    assert(path_sep@ =~= seq!['/']);
    proof {
        lemma_find_from_bounds(rest@, port_sep@, 0);
        lemma_find_from_bounds(rest@, path_sep@, 0);
    }
    let before_port = match find_first(&rest, &port_sep) {
        Some(i) => i,
        None => rest.len(),
    };
    let before_path = match find_first(&rest, &path_sep) {
        Some(i) => i,
        None => rest.len(),
    };
    let end = if before_port <= before_path {
        before_port
    } else {
        before_path
    };
    assert(end == host_end(rest@));
    let host = url.substring_char(start, start + end);
    assert(host@ =~= domain(url@));
    Ok(host)
}

} // verus!
