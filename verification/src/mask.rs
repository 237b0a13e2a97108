//! The channel mask parser: a comma-separated list of channel numbers and
//! inclusive ranges (`"0,2-4"`), turned into an ordered sequence of
//! per-channel toggles.
//!
//! The same parser serves muting and soloing: the toggles carry the
//! requested value, and applying them means first setting every channel to
//! the opposite value, then walking the toggles in textual order.

use vstd::prelude::*;
use vstd::pervasive::VecAdditionalExecFns;
use crate::numbers::{NumError, spec_parse_radix, parse_radix};

verus! {

/// Why a mask specification was rejected.
#[derive(Clone, Copy, Debug, PartialEq, Eq, Structural)]
pub enum MaskError {
    /// A token, or an endpoint of a range, is not a number.
    NotANumber,
    /// A channel number does not fit in `usize`.
    TooLarge,
    /// A range runs backwards: its start is greater than its end.
    ReversedRange,
    /// A range has more than two endpoints.
    MalformedRange,
}

/// A parsed mask specification: the value requested for the listed
/// channels, and the per-channel toggles in textual order.
#[derive(Debug)]
pub struct MuteSoloSpec {
    /// The value the listed channels are set to; every other channel is set
    /// to the opposite.
    pub enabled: bool,
    /// One `(channel, value)` pair per listed channel, ranges expanded, in
    /// textual order.
    pub toggles: Vec<(usize, bool)>,
}

/// The index of the first occurrence of `c` in `s`, or `-1` if absent.
pub open spec fn find_char(s: Seq<char>, c: char) -> int
    decreases s.len(),
{
    if s.len() == 0 {
        -1
    } else if s[0] == c {
        0
    } else {
        let r = find_char(s.skip(1), c);
        if r < 0 {
            -1
        } else {
            r + 1
        }
    }
}

/// What `find_char` returns: the first occurrence, or `-1` when there is
/// none.
pub proof fn lemma_find_char(s: Seq<char>, c: char)
    ensures
        ({
            let r = find_char(s, c);
            &&& r == -1 ==> forall|j: int| 0 <= j < s.len() ==> s[j] != c
            &&& r >= 0 ==> 0 <= r < s.len() && s[r] == c && (forall|j: int|
                0 <= j < r ==> s[j] != c)
        }),
    decreases s.len(),
{
    if s.len() == 0 {
    } else if s[0] == c {
    } else {
        lemma_find_char(s.skip(1), c);
        assert(forall|j: int| 1 <= j < s.len() ==> s[j] == s.skip(1)[j - 1]);
    }
}

/// The error a number error surfaces as in a mask specification.
pub open spec fn mask_err(e: NumError) -> MaskError {
    match e {
        NumError::NotANumber => MaskError::NotANumber,
        NumError::TooLarge => MaskError::TooLarge,
    }
}

/// The toggles an inclusive range `a-b` expands to, in ascending order.
pub open spec fn range_toggles(a: usize, b: usize, val: bool) -> Seq<(usize, bool)>
    recommends
        a <= b,
{
    Seq::new((b - a + 1) as nat, |k: int| (((a + k) as usize, val)))
}

/// What one comma-separated token yields: either a single toggle or an
/// expanded range.
pub open spec fn spec_token(t: Seq<char>, val: bool) -> Result<Seq<(usize, bool)>, MaskError> {
    let h = find_char(t, '-');
    if h < 0 {
        match spec_parse_radix(t, 10) {
            Ok(v) => Ok(seq![(v, val)]),
            Err(e) => Err(mask_err(e)),
        }
    } else {
        let left = t.take(h);
        let right = t.skip(h + 1);
        if find_char(right, '-') >= 0 {
            Err(MaskError::MalformedRange)
        } else {
            match spec_parse_radix(left, 10) {
                Err(e) => Err(mask_err(e)),
                Ok(a) => match spec_parse_radix(right, 10) {
                    Err(e) => Err(mask_err(e)),
                    Ok(b) => if a > b {
                        Err(MaskError::ReversedRange)
                    } else {
                        Ok(range_toggles(a, b, val))
                    },
                },
            }
        }
    }
}

/// What the whole comma-separated list yields: the concatenation of every
/// token's toggles, in textual order, or the leftmost error.
pub open spec fn spec_mask_list(s: Seq<char>, val: bool) -> Result<Seq<(usize, bool)>, MaskError>
    decreases s.len(),
    via spec_mask_list_decreases
{
    let h = find_char(s, ',');
    if h < 0 {
        spec_token(s, val)
    } else {
        match spec_token(s.take(h), val) {
            Err(e) => Err(e),
            Ok(first) => match spec_mask_list(s.skip(h + 1), val) {
                Err(e) => Err(e),
                Ok(rest) => Ok(first + rest),
            },
        }
    }
}

#[via_fn]
proof fn spec_mask_list_decreases(s: Seq<char>, val: bool) {
    lemma_find_char(s, ',');
}

/// The index of the first occurrence of `target`, or nothing.
fn find_in(s: &str, target: char) -> (r: Option<usize>)
    ensures
        r matches Some(i) ==> i == find_char(s@, target) && i < s@.len(),
        r is None ==> find_char(s@, target) == -1,
{
    let n = s.unicode_len();
    let mut i: usize = 0;
    while i < n
        invariant
            n == s@.len(),
            0 <= i <= n,
            forall|j: int| 0 <= j < i ==> s@[j] != target,
        decreases n - i,
    {
        if s.get_char(i) == target {
            proof {
                lemma_find_char(s@, target);
                let r = find_char(s@, target);
                assert(r >= 0);
                assert(!(r < i) && !(i < r));
            }
            return Some(i);
        }
        i = i + 1;
    }
    proof {
        lemma_find_char(s@, target);
    }
    None
}

/// Parse one comma-separated token into its toggles.
fn parse_token(t: &str, val: bool) -> (r: Result<Vec<(usize, bool)>, MaskError>)
    ensures
        r matches Ok(v) ==> spec_token(t@, val) == Ok::<Seq<(usize, bool)>, MaskError>(v@),
        r matches Err(e) ==> spec_token(t@, val) == Err::<Seq<(usize, bool)>, MaskError>(e),
{
    let n = t.unicode_len();
    match find_in(t, '-') {
        None => {
            match parse_radix(t, 10) {
                Ok(v) => {
                    let mut out: Vec<(usize, bool)> = Vec::new();
                    out.push((v, val));
                    proof {
                        assert(out@ =~= seq![(v, val)]);
                    }
                    Ok(out)
                },
                Err(e) => Err(match e {
                    NumError::NotANumber => MaskError::NotANumber,
                    NumError::TooLarge => MaskError::TooLarge,
                }),
            }
        },
        Some(h) => {
            let left = t.substring_char(0, h);
            let right = t.substring_char(h + 1, n);
            proof {
                assert(left@ =~= t@.take(h as int));
                assert(right@ =~= t@.skip(h + 1));
            }
            if find_in(right, '-').is_some() {
                return Err(MaskError::MalformedRange);
            }
            let a = match parse_radix(left, 10) {
                Ok(a) => a,
                Err(e) => {
                    return Err(match e {
                        NumError::NotANumber => MaskError::NotANumber,
                        NumError::TooLarge => MaskError::TooLarge,
                    });
                },
            };
            let b = match parse_radix(right, 10) {
                Ok(b) => b,
                Err(e) => {
                    return Err(match e {
                        NumError::NotANumber => MaskError::NotANumber,
                        NumError::TooLarge => MaskError::TooLarge,
                    });
                },
            };
            if a > b {
                return Err(MaskError::ReversedRange);
            }
            let mut out: Vec<(usize, bool)> = Vec::new();
            let mut i: usize = a;
            while i < b
                invariant
                    a <= i <= b,
                    out@ =~= Seq::new((i - a) as nat, |k: int| (((a + k) as usize, val))),
                decreases b - i,
            {
                out.push((i, val));
                proof {
                    assert(out@ =~= Seq::new((i + 1 - a) as nat, |k: int| (((a + k) as usize, val))));
                }
                i = i + 1;
            }
            out.push((b, val));
            proof {
                assert(out@ =~= range_toggles(a, b, val));
            }
            Ok(out)
        },
    }
}

/// The list result with `p` prepended to its toggles, errors unchanged.
pub open spec fn with_prefix(
    p: Seq<(usize, bool)>,
    r: Result<Seq<(usize, bool)>, MaskError>,
) -> Result<Seq<(usize, bool)>, MaskError> {
    match r {
        Ok(ts) => Ok(p + ts),
        Err(e) => Err(e),
    }
}

/// Parse a whole mask specification.
pub fn parse_mask(s: &str, enabled: bool) -> (r: Result<MuteSoloSpec, MaskError>)
    ensures
        r matches Ok(m) ==> m.enabled == enabled && spec_mask_list(s@, enabled) == Ok::<
            Seq<(usize, bool)>,
            MaskError,
        >(m.toggles@),
        r matches Err(e) ==> spec_mask_list(s@, enabled) == Err::<Seq<(usize, bool)>, MaskError>(
            e,
        ),
{
    let mut toggles: Vec<(usize, bool)> = Vec::new();
    let mut rest: &str = s;
    proof {
        match spec_mask_list(rest@, enabled) {
            Ok(ts) => {
                assert(toggles@ + ts =~= ts);
            },
            Err(_) => {},
        }
    }
    loop
        invariant
            spec_mask_list(s@, enabled) == with_prefix(toggles@, spec_mask_list(rest@, enabled)),
        decreases rest@.len(),
    {
        match find_in(rest, ',') {
            None => {
                match parse_token(rest, enabled) {
                    Ok(mut tv) => {
                        toggles.append(&mut tv);
                        return Ok(MuteSoloSpec { enabled, toggles });
                    },
                    Err(e) => {
                        return Err(e);
                    },
                }
            },
            Some(h) => {
                let n = rest.unicode_len();
                let tok = rest.substring_char(0, h);
                proof {
                    assert(tok@ =~= rest@.take(h as int));
                }
                match parse_token(tok, enabled) {
                    Err(e) => {
                        return Err(e);
                    },
                    Ok(mut tv) => {
                        let ghost old_toggles = toggles@;
                        let ghost tok_toggles = tv@;
                        toggles.append(&mut tv);
                        let new_rest = rest.substring_char(h + 1, n);
                        proof {
                            assert(new_rest@ =~= rest@.skip(h + 1));
                            match spec_mask_list(new_rest@, enabled) {
                                Ok(ts) => {
                                    assert((old_toggles + tok_toggles) + ts =~= old_toggles + (
                                    tok_toggles + ts));
                                },
                                Err(_) => {},
                            }
                        }
                        rest = new_rest;
                    },
                }
            },
        }
    }
}

/// One toggle applied to the channel states; a channel beyond the count is
/// ignored.
pub open spec fn apply_one(mask: Seq<bool>, t: (usize, bool)) -> Seq<bool> {
    if t.0 < mask.len() {
        mask.update(t.0 as int, t.1)
    } else {
        mask
    }
}

/// The channel states after the toggles are applied from first to last.
pub open spec fn apply_toggles(mask: Seq<bool>, ts: Seq<(usize, bool)>) -> Seq<bool>
    decreases ts.len(),
{
    if ts.len() == 0 {
        mask
    } else {
        apply_toggles(apply_one(mask, ts[0]), ts.skip(1))
    }
}

/// The channel states a parsed specification produces for `n` channels:
/// every channel first takes the opposite of the requested value, then the
/// toggles apply in textual order.
pub open spec fn spec_apply_mask(ts: Seq<(usize, bool)>, enabled: bool, n: nat) -> Seq<bool> {
    apply_toggles(Seq::new(n, |i: int| !enabled), ts)
}

/// Whether channel `i` is listed among the toggles.
pub open spec fn listed(ts: Seq<(usize, bool)>, i: int) -> bool {
    exists|k: int| 0 <= k < ts.len() && ts[k].0 == i
}

/// Listing in a non-empty toggle sequence, unfolded by one step.
proof fn lemma_listed_unfold(ts: Seq<(usize, bool)>, i: int)
    requires
        ts.len() > 0,
    ensures
        listed(ts, i) <==> (ts[0].0 == i || listed(ts.skip(1), i)),
{
    if listed(ts, i) {
        let k = choose|k: int| 0 <= k < ts.len() && ts[k].0 == i;
        if k > 0 {
            assert(ts.skip(1)[k - 1].0 == i);
        }
    }
    if listed(ts.skip(1), i) {
        let k = choose|k: int| 0 <= k < ts.skip(1).len() && ts.skip(1)[k].0 == i;
        assert(ts[k + 1].0 == i);
    }
}

/// Applying toggles that all carry the same value sets exactly the listed
/// channels to that value and leaves the rest as they were.
proof fn lemma_apply_pointwise(mask: Seq<bool>, ts: Seq<(usize, bool)>, enabled: bool)
    requires
        forall|k: int| 0 <= k < ts.len() ==> (#[trigger] ts[k]).1 == enabled,
    ensures
        apply_toggles(mask, ts).len() == mask.len(),
        forall|i: int| 0 <= i < mask.len() ==> apply_toggles(mask, ts)[i] == (if listed(ts, i) {
            enabled
        } else {
            mask[i]
        }),
    decreases ts.len(),
{
    if ts.len() > 0 {
        let m2 = apply_one(mask, ts[0]);
        assert(forall|k: int|
            0 <= k < ts.skip(1).len() ==> (#[trigger] ts.skip(1)[k]).1 == ts[k + 1].1);
        lemma_apply_pointwise(m2, ts.skip(1), enabled);
        assert(ts[0].1 == enabled);
        assert forall|i: int| 0 <= i < mask.len() implies apply_toggles(mask, ts)[i] == (
        if listed(ts, i) {
            enabled
        } else {
            mask[i]
        }) by {
            lemma_listed_unfold(ts, i);
        }
    }
}

/// A channel is set to the requested value exactly when it is listed, and
/// to the opposite value otherwise.
pub proof fn lemma_mask_set_semantics(ts: Seq<(usize, bool)>, enabled: bool, n: nat)
    requires
        forall|k: int| 0 <= k < ts.len() ==> (#[trigger] ts[k]).1 == enabled,
    ensures
        spec_apply_mask(ts, enabled, n).len() == n,
        forall|i: int| 0 <= i < n ==> spec_apply_mask(ts, enabled, n)[i] == (if listed(ts, i) {
            enabled
        } else {
            !enabled
        }),
{
    lemma_apply_pointwise(Seq::new(n, |i: int| !enabled), ts, enabled);
}

/// Token order within the list does not matter: two toggle sequences that
/// carry the same value and list the same set of channels produce the same
/// channel states.
pub proof fn lemma_mask_order_irrelevant(
    t1: Seq<(usize, bool)>,
    t2: Seq<(usize, bool)>,
    enabled: bool,
    n: nat,
)
    requires
        forall|k: int| 0 <= k < t1.len() ==> (#[trigger] t1[k]).1 == enabled,
        forall|k: int| 0 <= k < t2.len() ==> (#[trigger] t2[k]).1 == enabled,
        forall|i: int| (#[trigger] listed(t1, i)) <==> listed(t2, i),
    ensures
        spec_apply_mask(t1, enabled, n) == spec_apply_mask(t2, enabled, n),
{
    lemma_mask_set_semantics(t1, enabled, n);
    lemma_mask_set_semantics(t2, enabled, n);
    assert(spec_apply_mask(t1, enabled, n) =~= spec_apply_mask(t2, enabled, n));
}

/// Every toggle a well-formed token yields carries the requested value.
proof fn lemma_token_uniform_value(t: Seq<char>, val: bool)
    ensures
        spec_token(t, val) matches Ok(ts) ==> forall|k: int|
            0 <= k < ts.len() ==> (#[trigger] ts[k]).1 == val,
{
}

/// Every toggle a well-formed list yields carries the requested value.
pub proof fn lemma_list_uniform_value(s: Seq<char>, val: bool)
    ensures
        spec_mask_list(s, val) matches Ok(ts) ==> forall|k: int|
            0 <= k < ts.len() ==> (#[trigger] ts[k]).1 == val,
    decreases s.len(),
{
    lemma_find_char(s, ',');
    let h = find_char(s, ',');
    if h < 0 {
        lemma_token_uniform_value(s, val);
    } else {
        lemma_token_uniform_value(s.take(h), val);
        lemma_list_uniform_value(s.skip(h + 1), val);
    }
}

/// Token order in the textual list does not matter: two well-formed lists
/// that request the same value for the same set of channels produce the
/// same channel states.
pub proof fn lemma_parsed_order_irrelevant(s1: Seq<char>, s2: Seq<char>, val: bool, n: nat)
    requires
        spec_mask_list(s1, val) is Ok,
        spec_mask_list(s2, val) is Ok,
        forall|i: int| (#[trigger] listed(spec_mask_list(s1, val)->Ok_0, i)) <==> listed(
            spec_mask_list(s2, val)->Ok_0,
            i,
        ),
    ensures
        spec_apply_mask(spec_mask_list(s1, val)->Ok_0, val, n) == spec_apply_mask(
            spec_mask_list(s2, val)->Ok_0,
            val,
            n,
        ),
{
    lemma_list_uniform_value(s1, val);
    lemma_list_uniform_value(s2, val);
    lemma_mask_order_irrelevant(
        spec_mask_list(s1, val)->Ok_0,
        spec_mask_list(s2, val)->Ok_0,
        val,
        n,
    );
}

/// Appending one toggle applies it after the others.
proof fn lemma_apply_snoc(mask: Seq<bool>, ts: Seq<(usize, bool)>, x: (usize, bool))
    ensures
        apply_toggles(mask, ts.push(x)) == apply_one(apply_toggles(mask, ts), x),
    decreases ts.len(),
{
    let snoc = ts.push(x);
    assert(snoc.len() == ts.len() + 1);
    if ts.len() == 0 {
        assert(snoc[0] == x);
        assert(snoc.skip(1) =~= Seq::<(usize, bool)>::empty());
        assert(apply_toggles(mask, snoc) == apply_toggles(apply_one(mask, x), snoc.skip(1)));
        assert(apply_toggles(apply_one(mask, x), snoc.skip(1)) == apply_one(mask, x));
        assert(apply_toggles(mask, ts) == mask);
    } else {
        assert(snoc[0] == ts[0]);
        assert(snoc.skip(1) =~= ts.skip(1).push(x));
        assert(apply_toggles(mask, snoc) == apply_toggles(apply_one(mask, ts[0]), ts.skip(1).push(
        x)));
        lemma_apply_snoc(apply_one(mask, ts[0]), ts.skip(1), x);
        assert(apply_toggles(mask, ts) == apply_toggles(apply_one(mask, ts[0]), ts.skip(1)));
    }
}

/// Compute the per-channel states a parsed specification produces for `n`
/// channels.  This is the application the session performs at startup, one
/// engine call per channel state.
pub fn apply_mask(m: &MuteSoloSpec, n: usize) -> (mask: Vec<bool>)
    ensures
        mask@ == spec_apply_mask(m.toggles@, m.enabled, n as nat),
{
    let ghost init = Seq::new(n as nat, |i: int| !m.enabled);
    let mut mask: Vec<bool> = Vec::new();
    let mut i: usize = 0;
    while i < n
        invariant
            0 <= i <= n,
            mask@ =~= Seq::new(i as nat, |j: int| !m.enabled),
        decreases n - i,
    {
        mask.push(!m.enabled);
        proof {
            assert(mask@ =~= Seq::new((i + 1) as nat, |j: int| !m.enabled));
        }
        i = i + 1;
    }
    proof {
        assert(mask@ =~= init);
    }
    let mut k: usize = 0;
    while k < m.toggles.len()
        invariant
            0 <= k <= m.toggles@.len(),
            init == Seq::new(n as nat, |i: int| !m.enabled),
            mask@.len() == n,
            mask@ == apply_toggles(init, m.toggles@.take(k as int)),
        decreases m.toggles@.len() - k,
    {
        let t = m.toggles[k];
        proof {
            assert(m.toggles@.take(k + 1) =~= m.toggles@.take(k as int).push(m.toggles@[k as int]));
            lemma_apply_snoc(init, m.toggles@.take(k as int), m.toggles@[k as int]);
        }
        if t.0 < n {
            mask.set(t.0, t.1);
        }
        k = k + 1;
    }
    proof {
        assert(m.toggles@.take(m.toggles@.len() as int) =~= m.toggles@);
    }
    mask
}

} // verus!
