//! Best-effort cleanup of the inference server's reply text.
//!
//! The reply is expected to look like JSON wrapped in markdown code fences
//! and escape artifacts. Cleanup is a fixed sequence of five literal
//! substring rewrites, applied left to right, one pass each; it is not a
//! parser and the result may still be malformed JSON text.

use crate::text::{chars_to_string, str_to_chars};
use vstd::prelude::*;

verus! {

/// The literal two-character escape sequence backslash-n.
pub open spec fn escaped_newline() -> Seq<char> {
    seq!['\\', 'n']
}

/// A literal newline character.
pub open spec fn newline() -> Seq<char> {
    seq!['\n']
}

/// The literal escaped quote: backslash, quote.
pub open spec fn escaped_quote() -> Seq<char> {
    seq!['\\', '"']
}

/// A plain quote character.
pub open spec fn quote() -> Seq<char> {
    seq!['"']
}

/// The literal fenced-code-block opener for JSON.
pub open spec fn fence_json() -> Seq<char> {
    seq!['`', '`', '`', 'j', 's', 'o', 'n']
}

/// The literal fenced-code-block marker.
pub open spec fn fence() -> Seq<char> {
    seq!['`', '`', '`']
}

/// One left-to-right pass replacing each non-overlapping occurrence of
/// `pat` in `s` by `rep`, the way `str::replace` does for a non-empty
/// pattern.
pub open spec fn spec_replace(s: Seq<char>, pat: Seq<char>, rep: Seq<char>) -> Seq<char>
    decreases s.len(),
{
    if pat.len() == 0 || s.len() < pat.len() {
        s
    } else if s.subrange(0, pat.len() as int) == pat {
        rep + spec_replace(s.skip(pat.len() as int), pat, rep)
    } else {
        seq![s[0]] + spec_replace(s.skip(1), pat, rep)
    }
}

/// The five rewrites in their fixed order: drop backslash-n, drop newlines,
/// unescape quotes, drop the JSON fence opener, drop remaining fences.
pub open spec fn spec_clean(s: Seq<char>) -> Seq<char> {
    spec_replace(
        spec_replace(
            spec_replace(
                spec_replace(spec_replace(s, escaped_newline(), Seq::empty()), newline(), Seq::empty()),
                escaped_quote(),
                quote(),
            ),
            fence_json(),
            Seq::empty(),
        ),
        fence(),
        Seq::empty(),
    )
}

/// `pat` appears somewhere in `s` as a contiguous substring.
pub open spec fn occurs(s: Seq<char>, pat: Seq<char>) -> bool {
    exists|i: int|
        0 <= i && i + pat.len() <= s.len() && #[trigger] s.subrange(i, i + pat.len() as int)
            == pat
}

/// Free of every pattern the cleanup rewrites.
pub open spec fn pattern_free(s: Seq<char>) -> bool {
    &&& !occurs(s, escaped_newline())
    &&& !occurs(s, newline())
    &&& !occurs(s, escaped_quote())
    &&& !occurs(s, fence_json())
    &&& !occurs(s, fence())
}

/// A pass for a pattern that does not occur in the text leaves it unchanged.
pub proof fn lemma_replace_absent(s: Seq<char>, pat: Seq<char>, rep: Seq<char>)
    requires
        pat.len() > 0,
        !occurs(s, pat),
    ensures
        spec_replace(s, pat, rep) == s,
    decreases s.len(),
{
    if s.len() < pat.len() {
    } else if s.subrange(0, pat.len() as int) == pat {
        assert(s.subrange(0, 0 + pat.len() as int) == pat);
        assert(occurs(s, pat));
    } else {
        assert(!occurs(s.skip(1), pat)) by {
            if occurs(s.skip(1), pat) {
                let i = choose|i: int|
                    0 <= i && i + pat.len() <= s.skip(1).len() && #[trigger] s.skip(1).subrange(
                        i,
                        i + pat.len() as int,
                    ) == pat;
                assert(s.subrange(i + 1, i + 1 + pat.len() as int) =~= s.skip(1).subrange(
                    i,
                    i + pat.len() as int,
                ));
                assert(occurs(s, pat));
            }
        }
        lemma_replace_absent(s.skip(1), pat, rep);
        assert(seq![s[0]] + s.skip(1) =~= s);
    }
}

/// Cleaning leaves a text that is already free of the five target patterns
/// unchanged.
pub proof fn lemma_clean_fixed_point(s: Seq<char>)
    requires
        pattern_free(s),
    ensures
        spec_clean(s) == s,
{
    lemma_replace_absent(s, escaped_newline(), Seq::empty());
    lemma_replace_absent(s, newline(), Seq::empty());
    lemma_replace_absent(s, escaped_quote(), quote());
    lemma_replace_absent(s, fence_json(), Seq::empty());
    lemma_replace_absent(s, fence(), Seq::empty());
}

/// Cleaning is idempotent on input already free of the five target
/// patterns: a second pass returns the first pass's output unchanged.
pub proof fn lemma_clean_idempotent(s: Seq<char>)
    requires
        pattern_free(s),
    ensures
        spec_clean(spec_clean(s)) == spec_clean(s),
{
    lemma_clean_fixed_point(s);
}

/// Length of the run of backtick characters at the head of `s`.
spec fn lead_run(s: Seq<char>) -> nat
    decreases s.len(),
{
    if s.len() > 0 && s[0] == '`' {
        1 + lead_run(s.skip(1))
    } else {
        0
    }
}

proof fn lemma_lead_run_le_len(s: Seq<char>)
    ensures
        lead_run(s) <= s.len(),
    decreases s.len(),
{
    if s.len() > 0 && s[0] == '`' {
        lemma_lead_run_le_len(s.skip(1));
    }
}

/// A text whose head does not match the pattern, and whose tail is free of
/// it, is free of it as a whole once the head position is also ruled out.
proof fn lemma_occurs_cons(c: char, t: Seq<char>, pat: Seq<char>)
    requires
        pat.len() > 0,
        !occurs(t, pat),
        (seq![c] + t).len() >= pat.len() ==> (seq![c] + t).subrange(0, pat.len() as int) != pat,
    ensures
        !occurs(seq![c] + t, pat),
{
    let r = seq![c] + t;
    if occurs(r, pat) {
        let i = choose|i: int|
            0 <= i && i + pat.len() <= r.len() && #[trigger] r.subrange(i, i + pat.len() as int)
                == pat;
        if i >= 1 {
            assert(t.subrange(i - 1, i - 1 + pat.len() as int) =~= r.subrange(
                i,
                i + pat.len() as int,
            ));
            assert(occurs(t, pat));
        }
    }
}

/// One pass removing the fence marker leaves a text with no fence marker at
/// all, and at most two backticks at its head; a head run of fewer than
/// three backticks is kept as it is.
proof fn lemma_replace_fence_shape(s: Seq<char>)
    ensures
        !occurs(spec_replace(s, fence(), Seq::empty()), fence()),
        lead_run(spec_replace(s, fence(), Seq::empty())) < 3,
        lead_run(s) < 3 ==> lead_run(spec_replace(s, fence(), Seq::empty())) == lead_run(s),
    decreases s.len(),
{
    let p = fence();
    let r = spec_replace(s, p, Seq::empty());
    assert(p.len() == 3);
    if s.len() < 3 {
        assert(r == s);
        lemma_lead_run_le_len(s);
        assert(!occurs(r, p)) by {
            if occurs(r, p) {
                let i = choose|i: int|
                    0 <= i && i + p.len() <= r.len() && #[trigger] r.subrange(
                        i,
                        i + p.len() as int,
                    ) == p;
                assert(false);
            }
        }
    } else if s.subrange(0, 3) == p {
        assert(s[0] == '`' && s[1] == '`' && s[2] == '`') by {
            assert(s.subrange(0, 3)[0] == s[0]);
            assert(s.subrange(0, 3)[1] == s[1]);
            assert(s.subrange(0, 3)[2] == s[2]);
        }
        lemma_replace_fence_shape(s.skip(3));
        assert(r =~= spec_replace(s.skip(3), p, Seq::empty()));
        assert(lead_run(s) >= 3) by {
            assert(s.skip(1)[0] == s[1]);
            assert(s.skip(1).skip(1) =~= s.skip(2));
            assert(s.skip(2)[0] == s[2]);
            assert(lead_run(s) == 1 + lead_run(s.skip(1)));
            assert(lead_run(s.skip(1)) == 1 + lead_run(s.skip(2)));
            assert(lead_run(s.skip(2)) >= 1);
        }
    } else {
        let t = spec_replace(s.skip(1), p, Seq::empty());
        lemma_replace_fence_shape(s.skip(1));
        assert(r == seq![s[0]] + t);
        assert(r.len() == 1 + t.len());
        assert(r[0] == s[0]);
        assert(forall|k: int| 0 <= k < t.len() ==> r[k + 1] == t[k]);
        assert(r.skip(1) =~= t);
        if s[0] != '`' {
            assert(lead_run(r) == 0);
            assert(lead_run(s) == 0);
            assert(r.len() >= 3 ==> r.subrange(0, 3) != p) by {
                if r.len() >= 3 && r.subrange(0, 3) == p {
                    assert(r.subrange(0, 3)[0] == r[0]);
                    assert(p[0] == '`');
                }
            }
            lemma_occurs_cons(s[0], t, p);
        } else {
            // No match at the head, so the head run of `s` stops at one or
            // two backticks.
            assert(s[1] != '`' || s[2] != '`') by {
                if s[1] == '`' && s[2] == '`' {
                    assert(s.subrange(0, 3) =~= p);
                }
            }
            assert(s.skip(1)[0] == s[1]);
            assert(s.skip(1).skip(1) =~= s.skip(2));
            assert(s.skip(2)[0] == s[2]);
            if s[1] != '`' {
                assert(lead_run(s.skip(1)) == 0);
                assert(lead_run(s) == 1);
                assert(lead_run(t) == 0);
                assert(lead_run(r) == 1 + lead_run(r.skip(1)));
                assert(lead_run(r) == 1);
                assert(r.len() >= 3 ==> r.subrange(0, 3) != p) by {
                    if r.len() >= 3 && r.subrange(0, 3) == p {
                        assert(r.subrange(0, 3)[1] == r[1]);
                        assert(r[1] == t[0]);
                        assert(p[1] == '`');
                        assert(lead_run(t) >= 1);
                    }
                }
                lemma_occurs_cons(s[0], t, p);
            } else {
                assert(lead_run(s.skip(1)) == 1 + lead_run(s.skip(2)));
                assert(lead_run(s.skip(2)) == 0);
                assert(lead_run(s.skip(1)) == 1);
                assert(lead_run(s) == 2);
                assert(lead_run(t) == 1);
                assert(t[0] == '`' && lead_run(t.skip(1)) == 0);
                assert(lead_run(r) == 1 + lead_run(r.skip(1)));
                assert(lead_run(r) == 2);
                assert(r.len() >= 3 ==> r.subrange(0, 3) != p) by {
                    if r.len() >= 3 && r.subrange(0, 3) == p {
                        assert(r.subrange(0, 3)[2] == r[2]);
                        assert(r[2] == t[1]);
                        assert(t.skip(1)[0] == t[1]);
                        assert(p[2] == '`');
                        assert(lead_run(t.skip(1)) >= 1);
                    }
                }
                lemma_occurs_cons(s[0], t, p);
            }
        }
    }
}

/// Cleaning removes every literal occurrence of the code-fence markers: the
/// cleaned text holds neither a fence nor a JSON fence opener, wherever
/// they stood in the input.
pub proof fn lemma_clean_no_fence(s: Seq<char>)
    ensures
        !occurs(spec_clean(s), fence()),
        !occurs(spec_clean(s), fence_json()),
{
    let before = spec_replace(
        spec_replace(
            spec_replace(
                spec_replace(spec_replace(s, escaped_newline(), Seq::empty()), newline(), Seq::empty()),
                escaped_quote(),
                quote(),
            ),
            fence_json(),
            Seq::empty(),
        ),
        fence(),
        Seq::empty(),
    );
    lemma_replace_fence_shape(
        spec_replace(
            spec_replace(
                spec_replace(spec_replace(s, escaped_newline(), Seq::empty()), newline(), Seq::empty()),
                escaped_quote(),
                quote(),
            ),
            fence_json(),
            Seq::empty(),
        ),
    );
    assert(!occurs(before, fence_json())) by {
        if occurs(before, fence_json()) {
            let i = choose|i: int|
                0 <= i && i + fence_json().len() <= before.len() && #[trigger] before.subrange(
                    i,
                    i + fence_json().len() as int,
                ) == fence_json();
            assert(before.subrange(i, i + fence().len() as int) =~= fence()) by {
                assert(forall|k: int|
                    0 <= k < 3 ==> #[trigger] before.subrange(i, i + fence().len() as int)[k]
                        == before.subrange(i, i + fence_json().len() as int)[k]);
            }
            assert(occurs(before, fence()));
        }
    }
}

/// Whether `pat` stands in `s` at position `i`.
fn matches_at(s: &Vec<char>, i: usize, pat: &Vec<char>) -> (b: bool)
    requires
        i + pat@.len() <= s@.len(),
    ensures
        b == (s@.subrange(i as int, i + pat@.len()) == pat@),
{
    let n = s.len();
    let mut j: usize = 0;
    while j < pat.len()
        invariant
            n == s@.len(),
            i + pat@.len() <= s@.len(),
            j <= pat@.len(),
            forall|k: int| 0 <= k < j ==> s@[i + k] == pat@[k],
        decreases pat@.len() - j,
    {
        assert(i + j < n);
        if s[i + j] != pat[j] {
            assert(s@.subrange(i as int, i + pat@.len())[j as int] != pat@[j as int]);
            return false;
        }
        j = j + 1;
    }
    assert(s@.subrange(i as int, i + pat@.len()) =~= pat@);
    true
}

/// One left-to-right replacement pass over the characters, the executable
/// counterpart of [`spec_replace`].
fn replace_chars(s: &Vec<char>, pat: &Vec<char>, rep: &Vec<char>) -> (r: Vec<char>)
    requires
        pat@.len() > 0,
    ensures
        r@ == spec_replace(s@, pat@, rep@),
{
    let mut out: Vec<char> = Vec::new();
    let mut i: usize = 0;
    assert(s@.skip(0) =~= s@);
    assert(out@ + spec_replace(s@, pat@, rep@) =~= spec_replace(s@, pat@, rep@));
    while i < s.len()
        invariant
            pat@.len() > 0,
            i <= s@.len(),
            spec_replace(s@, pat@, rep@) == out@ + spec_replace(
                s@.skip(i as int),
                pat@,
                rep@,
            ),
        decreases s@.len() - i,
    {
        let ghost tail = s@.skip(i as int);
        if s.len() - i >= pat.len() && matches_at(s, i, pat) {
            assert(tail.subrange(0, pat@.len() as int) =~= s@.subrange(i as int, i + pat@.len()));
            let ghost out_before = out@;
            let mut j: usize = 0;
            while j < rep.len()
                invariant
                    j <= rep@.len(),
                    out@ == out_before + rep@.subrange(0, j as int),
                decreases rep@.len() - j,
            {
                out.push(rep[j]);
                j = j + 1;
                assert(out@ =~= out_before + rep@.subrange(0, j as int));
            }
            assert(rep@.subrange(0, rep@.len() as int) =~= rep@);
            i = i + pat.len();
            assert(tail.skip(pat@.len() as int) =~= s@.skip(i as int));
            assert(spec_replace(s@, pat@, rep@) =~= out@ + spec_replace(
                s@.skip(i as int),
                pat@,
                rep@,
            ));
        } else {
            assert(tail.len() >= pat@.len() ==> tail.subrange(0, pat@.len() as int) != pat@) by {
                if tail.len() >= pat@.len() {
                    assert(tail.subrange(0, pat@.len() as int) =~= s@.subrange(
                        i as int,
                        i + pat@.len(),
                    ));
                }
            }
            out.push(s[i]);
            i = i + 1;
            assert(tail.skip(1) =~= s@.skip(i as int));
            assert(seq![tail[0]] =~= seq![s@[i - 1]]);
            assert(spec_replace(s@, pat@, rep@) =~= out@ + spec_replace(
                s@.skip(i as int),
                pat@,
                rep@,
            ));
        }
    }
    assert(s@.skip(i as int) =~= Seq::<char>::empty());
    assert(out@ =~= spec_replace(s@, pat@, rep@));
    out
}

/// Cleans the reply text: drops literal backslash-n sequences and newline
/// characters, turns escaped quotes into plain quotes, and drops the
/// markdown code-fence markers, in that fixed order, one literal pass each.
pub fn clean_json_response(response: &str) -> (r: String)
    ensures
        r@ == spec_clean(response@),
{
    let chars = str_to_chars(response);
    let pat_escaped_newline: Vec<char> = vec!['\\', 'n'];
    let pat_newline: Vec<char> = vec!['\n'];
    let pat_escaped_quote: Vec<char> = vec!['\\', '"'];
    let rep_quote: Vec<char> = vec!['"'];
    let pat_fence_json: Vec<char> = vec!['`', '`', '`', 'j', 's', 'o', 'n'];
    let pat_fence: Vec<char> = vec!['`', '`', '`'];
    let empty: Vec<char> = Vec::new();
    assert(pat_escaped_newline@ =~= escaped_newline());
    assert(pat_newline@ =~= newline());
    assert(pat_escaped_quote@ =~= escaped_quote());
    assert(rep_quote@ =~= quote());
    assert(pat_fence_json@ =~= fence_json());
    assert(pat_fence@ =~= fence());
    assert(empty@ =~= Seq::<char>::empty());
    let step1 = replace_chars(&chars, &pat_escaped_newline, &empty);
    let step2 = replace_chars(&step1, &pat_newline, &empty);
    let step3 = replace_chars(&step2, &pat_escaped_quote, &rep_quote);
    let step4 = replace_chars(&step3, &pat_fence_json, &empty);
    let step5 = replace_chars(&step4, &pat_fence, &empty);
    chars_to_string(&step5)
}

} // verus!
