//! How many `#` a raw string needs around a given content.
//!
//! A raw string `r##"..."##` ends at the first `"` that is followed by as
//! many `#` as the opening has, so its content must not hold such a
//! sequence. The longest run of `#` directly behind a `"` in the content
//! decides how wide the fence has to be.

use vstd::prelude::*;
use crate::chars::chars_of;

verus! {

/// `n` times `#`.
pub open spec fn hashes(n: nat) -> Seq<char> {
    Seq::new(n, |i: int| '#')
}

/// What closes a raw string that was opened with `n` hashes: `"` and then
/// `n` times `#`.
pub open spec fn closing_fence(n: nat) -> Seq<char> {
    seq!['"'] + hashes(n)
}

/// `text` holds `closing_fence(n)` somewhere as a substring.
pub open spec fn contains_fence(text: Seq<char>, n: nat) -> bool {
    exists|i: int| #[trigger] fence_at(text, n, i)
}

/// `closing_fence(n)` stands in `text` at index `i`.
pub open spec fn fence_at(text: Seq<char>, n: nat, i: int) -> bool {
    &&& 0 <= i
    &&& i + 1 + n <= text.len()
    &&& text.subrange(i, i + 1 + n) == closing_fence(n)
}

/// The number of consecutive `#` in `text` that start at index `from`.
pub open spec fn hash_run(text: Seq<char>, from: int) -> nat
    decreases text.len() - from,
{
    if 0 <= from < text.len() && text[from] == '#' {
        1 + hash_run(text, from + 1)
    } else {
        0
    }
}

/// The hash streak at index `i`: the number of `#` directly behind a `"`
/// at `i`, and 0 where there is no `"`.
pub open spec fn streak_at(text: Seq<char>, i: int) -> nat {
    if 0 <= i < text.len() && text[i] == '"' {
        hash_run(text, i + 1)
    } else {
        0
    }
}

/// The longest hash streak at an index below `n`.
pub open spec fn max_streak_before(text: Seq<char>, n: int) -> nat
    decreases n,
{
    if n <= 0 {
        0
    } else {
        let before = max_streak_before(text, n - 1);
        let here = streak_at(text, n - 1);
        if here > before {
            here
        } else {
            before
        }
    }
}

/// The longest hash streak in `text`; 0 if no `"` is followed by a `#`.
pub open spec fn max_hash_streak(text: Seq<char>) -> nat {
    max_streak_before(text, text.len() as int)
}

/// The width of the fence that a raw string with the content `text` gets:
/// one `#` more than the longest hash streak.
pub open spec fn fence_width(text: Seq<char>) -> nat {
    max_hash_streak(text) + 1
}

/// `max_streak_before` is an upper bound that is reached, or 0.
pub proof fn lemma_max_streak_before(text: Seq<char>, n: int)
    requires
        0 <= n <= text.len(),
    ensures
        forall|i: int| 0 <= i < n ==> streak_at(text, i) <= max_streak_before(text, n),
        max_streak_before(text, n) == 0 || exists|i: int|
            0 <= i < n && #[trigger] streak_at(text, i) == max_streak_before(text, n),
    decreases n,
{
    if n > 0 {
        lemma_max_streak_before(text, n - 1);
        let before = max_streak_before(text, n - 1);
        let here = streak_at(text, n - 1);
        if here > before {
            assert(streak_at(text, n - 1) == max_streak_before(text, n));
        } else if before != 0 {
            let i = choose|i: int| 0 <= i < n - 1 && #[trigger] streak_at(text, i) == before;
            assert(streak_at(text, i) == max_streak_before(text, n));
        }
    }
}

/// The longest streak is the greatest of the streaks: no index has a longer
/// one, and unless it is 0 some index has exactly that one.
pub proof fn lemma_max_hash_streak(text: Seq<char>)
    ensures
        forall|i: int| streak_at(text, i) <= max_hash_streak(text),
        max_hash_streak(text) == 0 || exists|i: int|
            0 <= i < text.len() && #[trigger] streak_at(text, i) == max_hash_streak(text),
{
    lemma_max_streak_before(text, text.len() as int);
}

/// A run of at least `n` hashes starts at `from` exactly if the `n`
/// characters from there on exist and are all `#`.
pub proof fn lemma_hash_run_at_least(text: Seq<char>, from: int, n: nat)
    requires
        0 <= from,
    ensures
        hash_run(text, from) >= n <==> (from + n <= text.len() && forall|k: int|
            from <= k < from + n ==> text[k] == '#') || n == 0,
    decreases n,
{
    if n > 0 {
        if from < text.len() && text[from] == '#' {
            lemma_hash_run_at_least(text, from + 1, (n - 1) as nat);
            if hash_run(text, from) >= n {
                assert forall|k: int| from <= k < from + n implies text[k] == '#' by {
                    if k > from {
                    }
                }
            }
        }
    }
}

/// The closing fence of width `n` stands at `i` exactly if a `"` stands
/// there with a hash streak of at least `n`.
pub proof fn lemma_fence_at(text: Seq<char>, n: nat, i: int)
    ensures
        fence_at(text, n, i) <==> 0 <= i < text.len() && text[i] == '"' && streak_at(text, i)
            >= n,
{
    if 0 <= i < text.len() {
        lemma_hash_run_at_least(text, i + 1, n);
        let fence = closing_fence(n);
        if fence_at(text, n, i) {
            let part = text.subrange(i, i + 1 + n);
            assert(part[0] == fence[0]);
            assert forall|k: int| i + 1 <= k < i + 1 + n implies text[k] == '#' by {
                assert(part[k - i] == fence[k - i]);
            }
        }
        if text[i] == '"' && streak_at(text, i) >= n {
            if n > 0 {
                assert(i + 1 + n <= text.len());
            }
            assert(text.subrange(i, i + 1 + n) =~= fence);
        }
    }
}

/// The fence that a raw string gets is the narrowest that its content
/// cannot close. No closing fence of that width or of a greater one occurs
/// in the content, and one of every smaller width occurs in it, from one
/// hash on. The fence without any hash, a bare `"`, occurs exactly if the
/// content holds a `"`: only then is the chosen width the least of all.
pub proof fn lemma_fence_minimal(text: Seq<char>)
    ensures
        forall|n: nat| n >= fence_width(text) ==> !contains_fence(text, n),
        forall|n: nat| 1 <= n < fence_width(text) ==> contains_fence(text, n),
        contains_fence(text, 0) <==> text.contains('"'),
{
    lemma_max_hash_streak(text);
    let max = max_hash_streak(text);
    assert forall|n: nat| n > max implies !contains_fence(text, n) by {
        assert forall|i: int| !fence_at(text, n, i) by {
            lemma_fence_at(text, n, i);
        }
    }
    assert forall|n: nat| 1 <= n <= max implies contains_fence(text, n) by {
        let i = choose|i: int| 0 <= i < text.len() && #[trigger] streak_at(text, i) == max;
        lemma_fence_at(text, n, i);
        assert(fence_at(text, n, i));
    }
    if contains_fence(text, 0) {
        let i = choose|i: int| #[trigger] fence_at(text, 0, i);
        lemma_fence_at(text, 0, i);
        assert(text[i] == '"');
    }
    if text.contains('"') {
        let i = choose|i: int| 0 <= i < text.len() && text[i] == '"';
        lemma_fence_at(text, 0, i);
        assert(fence_at(text, 0, i));
    }
}

/// The longest run of `#` that directly follows a `"` in `s`.
pub fn count_hashes(s: &str) -> (n: usize)
    ensures
        n == max_hash_streak(s@),
        fence_width(s@) <= usize::MAX,
{
    let chars = chars_of(s);
    let mut max: usize = 0;
    let mut i: usize = 0;
    while i < chars.len()
        invariant
            i <= chars.len(),
            max == max_streak_before(chars@, i as int),
            max == 0 || max < chars.len(),
        decreases chars.len() - i,
    {
        if chars[i] == '"' {
            let mut j: usize = i + 1;
            while j < chars.len() && chars[j] == '#'
                invariant
                    i < j <= chars.len(),
                    hash_run(chars@, i + 1) == (j - i - 1) + hash_run(chars@, j as int),
                decreases chars.len() - j,
            {
                j += 1;
            }
            let run: usize = j - i - 1;
            if run > max {
                max = run;
            }
        }
        i += 1;
    }
    max
}

} // verus!
