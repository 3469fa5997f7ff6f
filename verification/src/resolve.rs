//! Locating the server executable before a launch: trimming a path
//! search's output, accepting it only when it names the executable, and
//! resolving the ordered list of well-known install locations.

use vstd::prelude::*;
use crate::textfmt::concat_str;

verus! {

pub open spec fn is_ws_char(c: char) -> bool {
    c == ' ' || c == '\t' || c == '\n' || c == '\r'
}

pub open spec fn spec_trim_front(s: Seq<char>) -> Seq<char>
    decreases s.len(),
{
    if s.len() > 0 && is_ws_char(s[0]) {
        spec_trim_front(s.skip(1))
    } else {
        s
    }
}

pub open spec fn spec_trim_back(s: Seq<char>) -> Seq<char>
    decreases s.len(),
{
    if s.len() > 0 && is_ws_char(s.last()) {
        spec_trim_back(s.drop_last())
    } else {
        s
    }
}

/// The text with leading and trailing whitespace removed.
pub open spec fn spec_trim(s: Seq<char>) -> Seq<char> {
    spec_trim_back(spec_trim_front(s))
}

fn is_ws(c: char) -> (r: bool)
    ensures
        r == is_ws_char(c),
{
    c == ' ' || c == '\t' || c == '\n' || c == '\r'
}

/// Executable twin of `spec_trim`.
pub fn trim_str(s: &str) -> (r: String)
    ensures
        r@ == spec_trim(s@),
{
    let n = s.unicode_len();
    proof {
        assert(s@.skip(0) =~= s@);
    }
    let mut a: usize = 0;
    while a < n && is_ws(s.get_char(a))
        invariant
            n == s@.len(),
            a <= n,
            spec_trim_front(s@) == spec_trim_front(s@.skip(a as int)),
        decreases n - a,
    {
        proof {
            assert(s@.skip(a as int)[0] == s@[a as int]);
            assert(s@.skip(a as int).skip(1) =~= s@.skip(a + 1 as int));
        }
        a = a + 1;
    }
    proof {
        if a == n {
            assert(s@.skip(a as int) =~= Seq::<char>::empty());
        }
        assert(spec_trim_front(s@) == s@.skip(a as int));
    }
    let mut b: usize = n;
    proof {
        assert(s@.subrange(a as int, n as int) =~= s@.skip(a as int));
    }
    while b > a && is_ws(s.get_char(b - 1))
        invariant
            a <= b <= n,
            n == s@.len(),
            spec_trim_back(s@.skip(a as int)) == spec_trim_back(s@.subrange(a as int, b as int)),
        decreases b,
    {
        proof {
            let t = s@.subrange(a as int, b as int);
            assert(t.last() == s@[b - 1 as int]);
            assert(t.drop_last() =~= s@.subrange(a as int, b - 1 as int));
        }
        b = b - 1;
    }
    proof {
        let t = s@.subrange(a as int, b as int);
        if b == a {
            assert(t =~= Seq::<char>::empty());
        }
        assert(spec_trim_back(s@.skip(a as int)) == t);
    }
    let piece = s.substring_char(a, b);
    piece.to_owned()
}

/// `c` reads as the (lowercase) target character `t`, case ignored for
/// ASCII letters.
pub open spec fn ci_matches(c: char, t: char) -> bool {
    c == t || (97 <= t as u32 && t as u32 <= 122 && c as u32 == t as u32 - 32)
}

/// The text ends with the given lowercase suffix, ASCII case ignored.
pub open spec fn spec_suffix_ci(s: Seq<char>, suf: Seq<char>) -> bool {
    s.len() >= suf.len() && (forall|k: int|
        0 <= k < suf.len() ==> ci_matches(s[s.len() - suf.len() + k], #[trigger] suf[k]))
}

/// Executable twin of `spec_suffix_ci`.
pub fn has_suffix_ci(s: &str, suf: &str) -> (r: bool)
    ensures
        r == spec_suffix_ci(s@, suf@),
{
    let n = s.unicode_len();
    let m = suf.unicode_len();
    if n < m {
        return false;
    }
    let mut k: usize = 0;
    while k < m
        invariant
            n == s@.len(),
            m == suf@.len(),
            m <= n,
            k <= m,
            forall|j: int| 0 <= j < k ==> ci_matches(s@[n - m + j], #[trigger] suf@[j]),
        decreases m - k,
    {
        let c = s.get_char(n - m + k);
        let t = suf.get_char(k);
        let ok = c == t || (97 <= t as u32 && t as u32 <= 122 && c as u32 + 32 == t as u32 + 0);
        if !ok {
            return false;
        }
        k = k + 1;
    }
    true
}

/// Accept the output of a path search only when, trimmed, it is
/// non-empty and names the server executable (ASCII case ignored).
pub fn windows_search_result(output: &str) -> (r: Option<String>)
    ensures
        ({
            let t = spec_trim(output@);
            &&& (r is Some <==> t.len() > 0 && spec_suffix_ci(t, "ollama.exe"@))
            &&& (r matches Some(p) ==> p@ == t)
        }),
{
    let t = trim_str(output);
    if t.as_str().unicode_len() > 0 && has_suffix_ci(t.as_str(), "ollama.exe") {
        Some(t)
    } else {
        None
    }
}

/// The ordered list of common install locations probed on Linux, the
/// per-user path last.
pub fn linux_candidate_paths(home: &str) -> (r: Vec<String>)
    ensures
        r@.map_values(|s: String| s@) == seq![
            "/usr/local/bin/ollama"@,
            "/usr/bin/ollama"@,
            "/opt/ollama/bin/ollama"@,
            home@ + "/.local/bin/ollama"@,
        ],
{
    let user_path = concat_str(home, "/.local/bin/ollama");
    let r = vec![
        "/usr/local/bin/ollama".to_owned(),
        "/usr/bin/ollama".to_owned(),
        "/opt/ollama/bin/ollama".to_owned(),
        user_path,
    ];
    proof {
        assert(r@.map_values(|s: String| s@) =~= seq![
            "/usr/local/bin/ollama"@,
            "/usr/bin/ollama"@,
            "/opt/ollama/bin/ollama"@,
            home@ + "/.local/bin/ollama"@,
        ]);
    }
    r
}

/// The index of the first set flag, if any.
pub open spec fn first_true(ex: Seq<bool>) -> Option<int>
    decreases ex.len(),
{
    if ex.len() == 0 {
        None
    } else if ex[0] {
        Some(0)
    } else {
        match first_true(ex.skip(1)) {
            Some(i) => Some(i + 1),
            None => None,
        }
    }
}

proof fn lemma_first_true_at(ex: Seq<bool>, i: int)
    requires
        0 <= i < ex.len(),
        ex[i],
        forall|j: int| 0 <= j < i ==> !ex[j],
    ensures
        first_true(ex) == Some(i),
    decreases i,
{
    if i == 0 {
    } else {
        assert(!ex[0]);
        assert(ex.skip(1)[i - 1] == ex[i]);
        assert(forall|j: int| 0 <= j < i - 1 ==> ex.skip(1)[j] == ex[j + 1] && !ex.skip(1)[j]);
        lemma_first_true_at(ex.skip(1), i - 1);
    }
}

proof fn lemma_first_true_none(ex: Seq<bool>)
    requires
        forall|j: int| 0 <= j < ex.len() ==> !ex[j],
    ensures
        first_true(ex) is None,
    decreases ex.len(),
{
    if ex.len() > 0 {
        assert(forall|j: int|
            0 <= j < ex.skip(1).len() ==> ex.skip(1)[j] == ex[j + 1] && !ex.skip(1)[j]);
        lemma_first_true_none(ex.skip(1));
    }
}

/// The trimmed output of the path lookup, or nothing when the lookup
/// itself failed.
pub open spec fn trimmed_which(which_output: Option<&str>) -> Seq<char> {
    match which_output {
        Some(o) => spec_trim(o@),
        None => Seq::empty(),
    }
}

/// Resolve the server executable on Linux: the path lookup's trimmed
/// non-empty output wins; otherwise the first well-known location that
/// exists; otherwise the launch fails at once with an install
/// instruction, no strategy attempted.
pub fn linux_resolve(
    which_output: Option<&str>,
    candidates: &Vec<String>,
    exists: &Vec<bool>,
) -> (r: Result<String, String>)
    requires
        exists@.len() == candidates@.len(),
    ensures
        trimmed_which(which_output).len() > 0 ==> (r matches Ok(p) && p@ == trimmed_which(
            which_output,
        )),
        trimmed_which(which_output).len() == 0 ==> match first_true(exists@) {
            Some(i) => (r matches Ok(p) && p@ == candidates@[i]@),
            None => (r matches Err(e) && e@
                == "Ollama is not installed or not in PATH. Please install Ollama from https://ollama.com/download/linux"@),
        },
{
    match which_output {
        Some(o) => {
            let t = trim_str(o);
            if t.as_str().unicode_len() > 0 {
                return Ok(t);
            }
        },
        None => {},
    }
    assert(trimmed_which(which_output).len() == 0);
    let mut i: usize = 0;
    while i < exists.len()
        invariant
            trimmed_which(which_output).len() == 0,
            exists@.len() == candidates@.len(),
            i <= exists@.len(),
            forall|j: int| 0 <= j < i ==> !exists@[j],
        decreases exists@.len() - i,
    {
        if exists[i] {
            proof {
                lemma_first_true_at(exists@, i as int);
            }
            return Ok(clone_string(&candidates[i]));
        }
        i = i + 1;
    }
    proof {
        lemma_first_true_none(exists@);
    }
    Err(
        "Ollama is not installed or not in PATH. Please install Ollama from https://ollama.com/download/linux".to_owned(),
    )
}

/// A unit status exit code of 3 or less means the unit exists and is in
/// a recognized state; higher codes (unit not found) and a failed query
/// do not.
pub fn unit_state_recognized(code: Option<i32>) -> (r: bool)
    ensures
        r == (code matches Some(c) && c <= 3),
{
    match code {
        Some(c) => c <= 3,
        None => false,
    }
}

/// A copy of a string, view preserved.
fn clone_string(s: &String) -> (r: String)
    ensures
        r@ == s@,
{
    s.as_str().to_owned()
}

} // verus!
