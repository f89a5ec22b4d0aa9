use vstd::prelude::*;

verus! {

/// `c` is an ASCII lowercase letter.
pub open spec fn is_ascii_lower(c: u8) -> bool {
    97 <= c <= 122
}

/// ASCII uppercase of a byte; other bytes are left alone.
pub open spec fn ascii_upper(c: u8) -> u8 {
    if is_ascii_lower(c) {
        (c - 32) as u8
    } else {
        c
    }
}

/// A pattern byte `p` accepts the input byte `ch`: equal, or, when case is
/// ignored, `ch` is a lowercase letter whose uppercase is `p`.
pub open spec fn byte_matches(p: u8, ch: u8, ignore_case: bool) -> bool {
    p == ch || (ignore_case && is_ascii_lower(ch) && ch - 97 + 65 == p)
}

/// Tries to extend a partial match of length `idx` with `ch`.
pub open spec fn advance(pattern: Seq<u8>, ignore_case: bool, idx: nat, ch: u8) -> Option<(nat, bool)> {
    if byte_matches(pattern[idx as int], ch, ignore_case) {
        if idx + 1 >= pattern.len() {
            Some((0nat, true))
        } else {
            Some(((idx + 1) as nat, false))
        }
    } else {
        None
    }
}

/// One step of the recognizer: the new partial-match length and whether the
/// whole pattern has just been seen. On a mismatch inside a partial match the
/// byte is tried again from the start of the pattern.
pub open spec fn step(pattern: Seq<u8>, ignore_case: bool, idx: nat, ch: u8) -> (nat, bool) {
    match advance(pattern, ignore_case, idx, ch) {
        Some(r) => r,
        None => if idx > 0 {
            match advance(pattern, ignore_case, 0, ch) {
                Some(r) => r,
                None => (0nat, false),
            }
        } else {
            (0nat, false)
        },
    }
}

/// The state reached from `idx` by pushing `chars` one after the other, and
/// the answer of the last push (`false` when nothing was pushed).
pub open spec fn run(pattern: Seq<u8>, ignore_case: bool, idx: nat, chars: Seq<u8>) -> (nat, bool)
    decreases chars.len(),
{
    if chars.len() == 0 {
        (idx, false)
    } else {
        let prev = run(pattern, ignore_case, idx, chars.drop_last());
        step(pattern, ignore_case, prev.0, chars.last())
    }
}

/// The last `k` bytes of `hist` are accepted by the first `k` pattern bytes.
pub open spec fn suffix_matches(pattern: Seq<u8>, ignore_case: bool, hist: Seq<u8>, k: nat) -> bool {
    &&& k <= hist.len()
    &&& k <= pattern.len()
    &&& forall|j: int| 0 <= j < k ==> #[trigger] byte_matches(pattern[j], hist[hist.len() - k + j], ignore_case)
}

/// Soundness: from a fresh (or reset) recognizer, after any sequence of
/// pushes the partial-match length stays below the pattern length, the most
/// recent bytes are accepted by that many leading pattern bytes, and when the
/// last push answered `true` the most recent `pattern.len()` bytes spell the
/// whole pattern.
pub proof fn lemma_run_sound(pattern: Seq<u8>, ignore_case: bool, chars: Seq<u8>)
    requires
        pattern.len() > 0,
    ensures
        run(pattern, ignore_case, 0, chars).0 < pattern.len(),
        suffix_matches(pattern, ignore_case, chars, run(pattern, ignore_case, 0, chars).0),
        run(pattern, ignore_case, 0, chars).1 ==> suffix_matches(pattern, ignore_case, chars, pattern.len()),
    decreases chars.len(),
{
    if chars.len() > 0 {
        let prefix = chars.drop_last();
        let c = chars.last();
        lemma_run_sound(pattern, ignore_case, prefix);
        let i0 = run(pattern, ignore_case, 0, prefix).0;
        assert(chars =~= prefix.push(c));
        if byte_matches(pattern[i0 as int], c, ignore_case) {
            let k = (i0 + 1) as nat;
            assert forall|j: int| 0 <= j < k implies #[trigger] byte_matches(pattern[j], chars[chars.len() - k + j], ignore_case) by {
                if j < i0 {
                    assert(chars[chars.len() - k + j] == prefix[prefix.len() - i0 + j]);
                    assert(byte_matches(pattern[j], prefix[prefix.len() - i0 + j], ignore_case));
                } else {
                    assert(chars[chars.len() - k + j] == c);
                }
            }
            assert(suffix_matches(pattern, ignore_case, chars, k));
        } else if i0 > 0 && byte_matches(pattern[0], c, ignore_case) {
            assert(chars[chars.len() - 1] == c);
            assert(suffix_matches(pattern, ignore_case, chars, 1));
        }
    }
}

/// Pushing the stored pattern into a fresh recognizer reports it on the
/// last byte and leaves the recognizer at the start again.
pub proof fn lemma_pattern_recognized(pattern: Seq<u8>, ignore_case: bool)
    requires
        pattern.len() > 0,
    ensures
        run(pattern, ignore_case, 0, pattern) == (0nat, true),
{
    lemma_prefix_run(pattern, ignore_case, (pattern.len() - 1) as nat);
    assert(pattern.take(pattern.len() as int) =~= pattern);
    assert(pattern.take(pattern.len() as int).drop_last() =~= pattern.take(pattern.len() - 1));
}

proof fn lemma_prefix_run(pattern: Seq<u8>, ignore_case: bool, k: nat)
    requires
        k < pattern.len(),
    ensures
        run(pattern, ignore_case, 0, pattern.take(k as int)) == (k, false),
    decreases k,
{
    if k > 0 {
        lemma_prefix_run(pattern, ignore_case, (k - 1) as nat);
        assert(pattern.take(k as int).drop_last() =~= pattern.take(k - 1));
    } else {
        assert(pattern.take(0) =~= Seq::<u8>::empty());
    }
}

/// A stored pattern whose bytes are all free of ASCII lowercase letters
/// (as `from` builds it when case is ignored).
pub open spec fn is_upper_normalized(pattern: Seq<u8>) -> bool {
    forall|j: int| 0 <= j < pattern.len() ==> !is_ascii_lower(#[trigger] pattern[j])
}

/// Case-insensitive recognition is exact recognition of the input after
/// ASCII uppercasing, for a pattern stored in uppercase.
pub proof fn lemma_ignore_case_is_uppercase_match(pattern: Seq<u8>, chars: Seq<u8>)
    requires
        pattern.len() > 0,
        is_upper_normalized(pattern),
    ensures
        run(pattern, true, 0, chars) == run(pattern, false, 0, chars.map_values(|c: u8| ascii_upper(c))),
    decreases chars.len(),
{
    if chars.len() > 0 {
        let prefix = chars.drop_last();
        let c = chars.last();
        let up = chars.map_values(|c: u8| ascii_upper(c));
        lemma_ignore_case_is_uppercase_match(pattern, prefix);
        lemma_run_sound(pattern, true, prefix);
        assert(up.drop_last() =~= prefix.map_values(|c: u8| ascii_upper(c)));
        assert(up.last() == ascii_upper(c));
        let i0 = run(pattern, true, 0, prefix).0;
        assert(byte_matches(pattern[i0 as int], c, true) == byte_matches(pattern[i0 as int], ascii_upper(c), false));
        assert(byte_matches(pattern[0], c, true) == byte_matches(pattern[0], ascii_upper(c), false));
    }
}

/// No later pattern byte equals the first one.
pub open spec fn first_byte_unique(pattern: Seq<u8>) -> bool {
    forall|j: int| 1 <= j < pattern.len() ==> #[trigger] pattern[j] != pattern[0]
}

/// No push before the last one of `chars` reported the pattern: the bytes
/// all come after the last reset or match.
pub open spec fn no_earlier_report(pattern: Seq<u8>, ignore_case: bool, chars: Seq<u8>) -> bool {
    forall|m: int| 1 <= m < chars.len() ==> !(#[trigger] run(pattern, ignore_case, 0, chars.take(m))).1
}

/// Two pattern bytes that accept the same input byte are equal (for a
/// pattern stored in uppercase when case is ignored).
proof fn lemma_accepts_same(p: u8, q: u8, ch: u8, ignore_case: bool)
    requires
        byte_matches(p, ch, ignore_case),
        byte_matches(q, ch, ignore_case),
        ignore_case ==> !is_ascii_lower(p) && !is_ascii_lower(q),
    ensures
        p == q,
{
}

/// With a unique first byte, the history ends with at most one non-empty
/// prefix of the pattern.
proof fn lemma_one_partial(pattern: Seq<u8>, ignore_case: bool, hist: Seq<u8>, k: nat, k2: nat)
    requires
        first_byte_unique(pattern),
        ignore_case ==> is_upper_normalized(pattern),
        0 < k < k2 <= pattern.len(),
    ensures
        !(suffix_matches(pattern, ignore_case, hist, k) && suffix_matches(pattern, ignore_case, hist, k2)),
{
    if !(suffix_matches(pattern, ignore_case, hist, k) && suffix_matches(pattern, ignore_case, hist, k2)) {
        return;
    }
    let d = (k2 - k) as int;
    let pos = hist.len() - k;
    assert(byte_matches(pattern[0], hist[hist.len() - k + 0], ignore_case));
    assert(byte_matches(pattern[d], hist[hist.len() - k2 + d], ignore_case));
    assert(hist.len() - k2 + d == pos);
    lemma_accepts_same(pattern[0], pattern[d], hist[pos], ignore_case);
    assert(pattern[d] != pattern[0]);
}

/// The state after a run without an earlier report: it is the length of
/// the matched prefix the bytes end with (0 when none), and the last push
/// reports exactly when the bytes end with the whole pattern.
proof fn lemma_run_exact(pattern: Seq<u8>, ignore_case: bool, chars: Seq<u8>)
    requires
        pattern.len() > 0,
        first_byte_unique(pattern),
        ignore_case ==> is_upper_normalized(pattern),
        no_earlier_report(pattern, ignore_case, chars),
    ensures
        ({
            let (i, f) = run(pattern, ignore_case, 0, chars);
            &&& f <==> suffix_matches(pattern, ignore_case, chars, pattern.len())
            &&& i < pattern.len()
            &&& i > 0 ==> suffix_matches(pattern, ignore_case, chars, i)
            &&& forall|k: nat| 0 < k < pattern.len() && #[trigger] suffix_matches(pattern, ignore_case, chars, k) ==> i == k
        }),
    decreases chars.len(),
{
    let n = pattern.len();
    if chars.len() == 0 {
        assert forall|k: nat| 0 < k < n && #[trigger] suffix_matches(pattern, ignore_case, chars, k) implies 0 == k by {}
    } else {
        let prefix = chars.drop_last();
        let c = chars.last();
        assert forall|m: int| 1 <= m < prefix.len() implies !(#[trigger] run(pattern, ignore_case, 0, prefix.take(m))).1 by {
            assert(prefix.take(m) =~= chars.take(m));
        }
        lemma_run_exact(pattern, ignore_case, prefix);
        lemma_run_sound(pattern, ignore_case, prefix);
        let i0 = run(pattern, ignore_case, 0, prefix).0;
        if prefix.len() > 0 {
            assert(prefix.take(prefix.len() as int) =~= prefix);
            assert(!run(pattern, ignore_case, 0, prefix.take(prefix.len() as int)).1);
        }
        // A matched prefix of length k >= 1 of chars is one of length k - 1
        // of prefix followed by an accepted c.
        assert forall|k: nat| 1 <= k <= n implies
            (#[trigger] suffix_matches(pattern, ignore_case, chars, k)
                <==> (suffix_matches(pattern, ignore_case, prefix, (k - 1) as nat) && byte_matches(pattern[k - 1], c, ignore_case))) by {
            if suffix_matches(pattern, ignore_case, chars, k) {
                assert(byte_matches(pattern[k - 1], chars[chars.len() - k + (k - 1)], ignore_case));
                assert forall|j: int| 0 <= j < k - 1 implies #[trigger] byte_matches(pattern[j], prefix[prefix.len() - (k - 1) + j], ignore_case) by {
                    assert(byte_matches(pattern[j], chars[chars.len() - k + j], ignore_case));
                }
            }
            if suffix_matches(pattern, ignore_case, prefix, (k - 1) as nat) && byte_matches(pattern[k - 1], c, ignore_case) {
                assert forall|j: int| 0 <= j < k implies #[trigger] byte_matches(pattern[j], chars[chars.len() - k + j], ignore_case) by {
                    if j < k - 1 {
                        assert(byte_matches(pattern[j], prefix[prefix.len() - (k - 1) + j], ignore_case));
                    }
                }
            }
        }
        // The prefix ends with no partial match but its state, and never with
        // the whole pattern.
        assert(!suffix_matches(pattern, ignore_case, prefix, n));
        let r = run(pattern, ignore_case, 0, chars);
        assert(r == step(pattern, ignore_case, i0, c));
        if byte_matches(pattern[i0 as int], c, ignore_case) {
            assert(suffix_matches(pattern, ignore_case, prefix, i0));
            assert(suffix_matches(pattern, ignore_case, chars, (i0 + 1) as nat));
            assert forall|k: nat| 0 < k < n && #[trigger] suffix_matches(pattern, ignore_case, chars, k) implies r.0 == k by {
                if k != i0 + 1 {
                    if k < i0 + 1 {
                        lemma_one_partial(pattern, ignore_case, chars, k, (i0 + 1) as nat);
                    } else {
                        lemma_one_partial(pattern, ignore_case, chars, (i0 + 1) as nat, k);
                    }
                }
                if i0 + 1 == n {
                    lemma_one_partial(pattern, ignore_case, chars, k, n);
                }
            }
            if i0 + 1 < n {
                if suffix_matches(pattern, ignore_case, chars, n) {
                    lemma_one_partial(pattern, ignore_case, chars, (i0 + 1) as nat, n);
                }
            }
        } else {
            // No matched prefix of length >= 2 ends chars: it would extend
            // the prefix's state, which does not accept c.
            assert forall|k: nat| 2 <= k <= n implies !#[trigger] suffix_matches(pattern, ignore_case, chars, k) by {
                if suffix_matches(pattern, ignore_case, chars, k) {
                    assert(suffix_matches(pattern, ignore_case, prefix, (k - 1) as nat));
                    if (k - 1) < n {
                        assert(suffix_matches(pattern, ignore_case, chars, ((k - 1) + 1) as nat));
                        assert(i0 == k - 1);
                    }
                }
            }
            assert(suffix_matches(pattern, ignore_case, prefix, 0));
            assert(suffix_matches(pattern, ignore_case, chars, 1) <==> byte_matches(pattern[0], c, ignore_case));
            if n == 1 {
            } else {
                assert(!suffix_matches(pattern, ignore_case, chars, n));
            }
        }
    }
}

/// Completeness: for a pattern whose first byte does not occur again, a
/// push reports the pattern exactly when the bytes pushed since the last
/// reset or match end with the pattern (for a recognizer built by `from`,
/// whose stored pattern is uppercase when case is ignored).
pub proof fn lemma_run_complete(pattern: Seq<u8>, ignore_case: bool, chars: Seq<u8>)
    requires
        pattern.len() > 0,
        first_byte_unique(pattern),
        ignore_case ==> is_upper_normalized(pattern),
        no_earlier_report(pattern, ignore_case, chars),
    ensures
        run(pattern, ignore_case, 0, chars).1 <==> suffix_matches(pattern, ignore_case, chars, pattern.len()),
{
    lemma_run_exact(pattern, ignore_case, chars);
}

/// Recognizes a byte pattern in a stream of bytes pushed one at a time.
pub struct PatternRecognizer {
    pattern: Vec<u8>,
    cur_idx: usize,
    ignore_case: bool,
}

impl PatternRecognizer {
    /// The stored pattern (uppercased when case is ignored).
    pub closed spec fn pattern(&self) -> Seq<u8> {
        self.pattern@
    }

    /// Length of the current partial match.
    pub closed spec fn cur_idx(&self) -> nat {
        self.cur_idx as nat
    }

    pub closed spec fn ignore_case(&self) -> bool {
        self.ignore_case
    }

    #[verifier::type_invariant]
    closed spec fn inv(&self) -> bool {
        self.cur_idx == 0 || self.cur_idx < self.pattern@.len()
    }

    /// Creates a recognizer for `data`; when `ignore_case` is set the pattern
    /// is stored in ASCII uppercase.
    pub fn from(data: &[u8], ignore_case: bool) -> (res: Self)
        ensures
            res.pattern() == (if ignore_case { data@.map_values(|c: u8| ascii_upper(c)) } else { data@ }),
            res.cur_idx() == 0,
            res.ignore_case() == ignore_case,
    {
        let mut pattern: Vec<u8> = Vec::new();
        let mut i: usize = 0;
        while i < data.len()
            invariant
                i <= data.len(),
                pattern@.len() == i,
                forall|j: int| 0 <= j < i ==> #[trigger] pattern@[j] == (if ignore_case { ascii_upper(data@[j]) } else { data@[j] }),
            decreases data.len() - i,
        {
            let c = data[i];
            if ignore_case {
                pattern.push(to_ascii_uppercase(c));
            } else {
                pattern.push(c);
            }
            i = i + 1;
        }
        let res = PatternRecognizer { pattern, cur_idx: 0, ignore_case };
        assert(res.pattern@ =~= (if ignore_case { data@.map_values(|c: u8| ascii_upper(c)) } else { data@ }));
        res
    }

    /// Forgets any partial match.
    pub fn reset(&mut self)
        ensures
            final(self).cur_idx() == 0,
            final(self).pattern() == old(self).pattern(),
            final(self).ignore_case() == old(self).ignore_case(),
    {
        self.cur_idx = 0;
    }

    /// Feeds one byte; returns `true` when it completes the pattern.
    pub fn push_ch(&mut self, ch: u8) -> (found: bool)
        requires
            old(self).pattern().len() > 0,
        ensures
            (final(self).cur_idx(), found) == step(old(self).pattern(), old(self).ignore_case(), old(self).cur_idx(), ch),
            final(self).pattern() == old(self).pattern(),
            final(self).ignore_case() == old(self).ignore_case(),
        decreases old(self).cur_idx(),
    {
        proof { use_type_invariant(&*self); }
        let len = self.pattern.len();
        let p = self.pattern[self.cur_idx];
        if p == ch || (self.ignore_case && 97 <= ch && ch <= 122 && ch - 97 + 65 == p) {
            let next = self.cur_idx + 1;
            if next >= len {
                self.cur_idx = 0;
                return true;
            }
            self.cur_idx = next;
        } else if self.cur_idx > 0 {
            self.cur_idx = 0;
            return self.push_ch(ch);
        }
        false
    }
}

/// ASCII uppercase of one byte.
fn to_ascii_uppercase(c: u8) -> (r: u8)
    ensures
        r == ascii_upper(c),
{
    if 97 <= c && c <= 122 {
        c - 32
    } else {
        c
    }
}

} // verus!
