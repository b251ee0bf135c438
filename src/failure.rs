use vstd::prelude::*;

verus! {

/// What a transport failure that is not a timeout amounts to.
#[derive(Clone, Copy, Debug, PartialEq, Eq, Structural)]
pub enum FailureKind {
    /// The host ran out of file descriptors: the run cannot go on.
    ResourceExhausted,
    /// Any other network or application failure.
    Ordinary,
}

/// `pat` occurs in `text` starting at position `i`.
pub open spec fn occurs_at(text: Seq<char>, pat: Seq<char>, i: int) -> bool {
    0 <= i && i + pat.len() <= text.len() && text.subrange(i, i + pat.len()) == pat
}

/// `pat` occurs somewhere in `text`.
pub open spec fn contains_text(text: Seq<char>, pat: Seq<char>) -> bool {
    exists|i: int| occurs_at(text, pat, i)
}

/// The text by which the operating system reports that the open file
/// descriptor limit was reached.
pub open spec fn fd_limit_marker() -> Seq<char> {
    "Too many open files"@
}

/// Some message of an error's cause chain reports the file descriptor limit.
pub open spec fn exhausts_descriptors(chain: Seq<String>) -> bool {
    exists|k: int| 0 <= k < chain.len() && contains_text(#[trigger] chain[k]@, fd_limit_marker())
}

/// The kind of a failure whose cause chain reads `chain`.
pub open spec fn failure_kind_of(chain: Seq<String>) -> FailureKind {
    if exhausts_descriptors(chain) {
        FailureKind::ResourceExhausted
    } else {
        FailureKind::Ordinary
    }
}

fn occurs_at_exec(text: &str, n: usize, pat: &str, m: usize, i: usize) -> (r: bool)
    requires
        n == text@.len(),
        m == pat@.len(),
        i + m <= n,
    ensures
        r == occurs_at(text@, pat@, i as int),
{
    let mut j: usize = 0;
    while j < m
        invariant
            n == text@.len(),
            m == pat@.len(),
            i + m <= n,
            j <= m,
            forall|k: int| 0 <= k < j ==> text@[i + k] == pat@[k],
        decreases m - j,
    {
        if text.get_char(i + j) != pat.get_char(j) {
            assert(text@.subrange(i as int, i + m)[j as int] != pat@[j as int]);
            return false;
        }
        j = j + 1;
    }
    assert(text@.subrange(i as int, i + m) =~= pat@);
    true
}

/// Whether `pat` occurs somewhere in `text`.
pub fn text_contains(text: &str, pat: &str) -> (r: bool)
    ensures
        r == contains_text(text@, pat@),
{
    let n = text.unicode_len();
    let m = pat.unicode_len();
    if m > n {
        return false;
    }
    if m == 0 {
        assert(text@.subrange(0, 0) =~= pat@);
        assert(occurs_at(text@, pat@, 0));
        return true;
    }
    let mut i: usize = 0;
    while i <= n - m
        invariant
            n == text@.len(),
            m == pat@.len(),
            1 <= m <= n,
            i <= n - m + 1,
            forall|k: int| 0 <= k < i ==> !occurs_at(text@, pat@, k),
        decreases n - m + 1 - i,
    {
        if occurs_at_exec(text, n, pat, m, i) {
            return true;
        }
        i = i + 1;
    }
    false
}

/// Reads an error's cause chain (the error's own message first, then each
/// underlying cause) for the operating system's report that the file
/// descriptor limit was reached.
pub fn classify_failure(chain: &Vec<String>) -> (r: FailureKind)
    ensures
        r == failure_kind_of(chain@),
{
    let marker = "Too many open files";
    let mut k: usize = 0;
    while k < chain.len()
        invariant
            k <= chain@.len(),
            marker@ == fd_limit_marker(),
            forall|q: int| 0 <= q < k ==> !contains_text(#[trigger] chain@[q]@, fd_limit_marker()),
        decreases chain@.len() - k,
    {
        if text_contains(chain[k].as_str(), marker) {
            return FailureKind::ResourceExhausted;
        }
        k = k + 1;
    }
    FailureKind::Ordinary
}

} // verus!
