//! Template interpolation: substituting `$name` tokens in a template with
//! resolved parameter values, by literal substring replacement, one pass
//! per parameter in declaration order.

use vstd::prelude::*;
use vstd::string::StrSliceExecFns;
use vstd::string::StringExecFns;

use crate::config::{
    all_resolve, first_fault_is, fits_all, resolve_params, resolved_views, Lookup, Parameter,
    ParameterError,
};

verus! {

/// One left-to-right pass replacing every non-overlapping occurrence of
/// `pat` in `s` with `to`.
pub open spec fn replaced(s: Seq<char>, pat: Seq<char>, to: Seq<char>) -> Seq<char>
    decreases s.len(),
{
    if pat.len() == 0 || s.len() < pat.len() {
        s
    } else if s.subrange(0, pat.len() as int) == pat {
        to + replaced(s.skip(pat.len() as int), pat, to)
    } else {
        seq![s[0]] + replaced(s.skip(1), pat, to)
    }
}

/// The token a parameter name stands for in a template: `$` + name.
pub open spec fn token_of(name: Seq<char>) -> Seq<char> {
    seq!['$'] + name
}

/// The result of substituting the pairs into the template, one
/// replacement pass per pair, in order.
pub open spec fn interpolated(template: Seq<char>, pairs: Seq<(Seq<char>, Seq<char>)>) -> Seq<char>
    decreases pairs.len(),
{
    if pairs.len() == 0 {
        template
    } else {
        interpolated(replaced(template, token_of(pairs[0].0), pairs[0].1), pairs.drop_first())
    }
}

/// The name/value pairs of a resolved parameter list, as character
/// sequences.
pub open spec fn pair_views(values: Seq<(String, String)>) -> Seq<(Seq<char>, Seq<char>)> {
    Seq::new(values.len(), |i: int| (values[i].0@, values[i].1@))
}

/// Whether `pat` occurs in `s` starting at position `i`.
pub open spec fn occurs_at(s: Seq<char>, pat: Seq<char>, i: int) -> bool {
    0 <= i && i + pat.len() <= s.len() && s.subrange(i, i + pat.len()) == pat
}

/// Whether `pat` occurs anywhere in `s`.
pub open spec fn occurs(s: Seq<char>, pat: Seq<char>) -> bool {
    exists|i: int| occurs_at(s, pat, i)
}

/// No character of `a` is a character of `b`.
pub open spec fn chars_disjoint(a: Seq<char>, b: Seq<char>) -> bool {
    forall|x: int, y: int| 0 <= x < a.len() && 0 <= y < b.len() ==> a[x] != b[y]
}

/// An occurrence past a skipped prefix is an occurrence in the whole.
proof fn lemma_occurs_after_skip(s: Seq<char>, q: Seq<char>, m: int)
    requires
        0 <= m <= s.len(),
        occurs(s.skip(m), q),
    ensures
        occurs(s, q),
{
    let i = choose|i: int| occurs_at(s.skip(m), q, i);
    assert(s.subrange(m + i, m + i + q.len()) =~= s.skip(m).subrange(i, i + q.len()));
    assert(occurs_at(s, q, m + i));
}

/// If a replacement pass leaves `w` at the front of its output, `w` was
/// already at the front of its input, provided `w` shares no character
/// with the nonempty replacement text.
proof fn lemma_replace_prefix(s: Seq<char>, pat: Seq<char>, to: Seq<char>, w: Seq<char>)
    requires
        pat.len() >= 1,
        to.len() >= 1,
        w.len() >= 1,
        chars_disjoint(w, to),
        replaced(s, pat, to).len() >= w.len(),
        replaced(s, pat, to).subrange(0, w.len() as int) == w,
    ensures
        s.len() >= w.len(),
        s.subrange(0, w.len() as int) == w,
    decreases s.len(),
{
    let r = replaced(s, pat, to);
    assert(r.subrange(0, w.len() as int)[0] == r[0]);
    assert(w[0] == r[0]);
    if s.len() < pat.len() {
        // the pass left `s` untouched
    } else if s.subrange(0, pat.len() as int) == pat {
        let rest = replaced(s.skip(pat.len() as int), pat, to);
        assert(r == to + rest);
        assert(r[0] == to[0]);
        assert(false);
    } else {
        let rest = replaced(s.skip(1), pat, to);
        assert(r == seq![s[0]] + rest);
        assert(r[0] == s[0]);
        if w.len() == 1 {
            assert(s.subrange(0, w.len() as int) =~= w);
        } else {
            assert(rest.len() >= w.len() - 1);
            assert(rest.subrange(0, w.len() - 1) =~= w.skip(1)) by {
                assert forall|k: int| 0 <= k < w.len() - 1 implies rest.subrange(
                    0,
                    w.len() - 1,
                )[k] == w.skip(1)[k] by {
                    assert(rest[k] == r[k + 1]);
                    assert(r.subrange(0, w.len() as int)[k + 1] == r[k + 1]);
                }
            }
            assert(chars_disjoint(w.skip(1), to)) by {
                assert forall|x: int, y: int|
                    0 <= x < w.skip(1).len() && 0 <= y < to.len() implies w.skip(1)[x]
                    != to[y] by {
                    assert(w.skip(1)[x] == w[x + 1]);
                }
            }
            lemma_replace_prefix(s.skip(1), pat, to, w.skip(1));
            assert(s.subrange(0, w.len() as int) =~= w) by {
                assert forall|k: int| 0 <= k < w.len() implies s.subrange(0, w.len() as int)[k]
                    == w[k] by {
                    if k >= 1 {
                        assert(s.skip(1).subrange(0, w.len() - 1)[k - 1] == s[k]);
                        assert(w.skip(1)[k - 1] == w[k]);
                    }
                }
            }
        }
    }
}

/// After one replacement pass, the pattern no longer occurs anywhere in
/// the output, provided the replacement text is nonempty and shares no
/// character with the pattern.
pub proof fn lemma_replaced_no_pattern(s: Seq<char>, pat: Seq<char>, to: Seq<char>)
    requires
        pat.len() >= 1,
        to.len() >= 1,
        chars_disjoint(pat, to),
    ensures
        !occurs(replaced(s, pat, to), pat),
    decreases s.len(),
{
    let r = replaced(s, pat, to);
    if s.len() < pat.len() {
        if occurs(r, pat) {
            let i = choose|i: int| occurs_at(r, pat, i);
            assert(false);
        }
    } else if s.subrange(0, pat.len() as int) == pat {
        let rest = replaced(s.skip(pat.len() as int), pat, to);
        lemma_replaced_no_pattern(s.skip(pat.len() as int), pat, to);
        assert(r == to + rest);
        if occurs(r, pat) {
            let i = choose|i: int| occurs_at(r, pat, i);
            if i < to.len() {
                assert(r.subrange(i, i + pat.len())[0] == r[i]);
                assert(pat[0] == to[i]);
                assert(false);
            } else {
                assert(rest.subrange(i - to.len(), i - to.len() + pat.len()) =~= r.subrange(
                    i,
                    i + pat.len(),
                ));
                assert(occurs_at(rest, pat, i - to.len()));
                assert(false);
            }
        }
    } else {
        let rest = replaced(s.skip(1), pat, to);
        lemma_replaced_no_pattern(s.skip(1), pat, to);
        assert(r == seq![s[0]] + rest);
        if occurs(r, pat) {
            let i = choose|i: int| occurs_at(r, pat, i);
            if i >= 1 {
                assert(rest.subrange(i - 1, i - 1 + pat.len()) =~= r.subrange(i, i + pat.len()));
                assert(occurs_at(rest, pat, i - 1));
                assert(false);
            } else {
                assert(r.subrange(0, pat.len() as int)[0] == r[0]);
                assert(pat[0] == s[0]);
                if pat.len() == 1 {
                    assert(s.subrange(0, pat.len() as int) =~= pat);
                    assert(false);
                } else {
                    assert(rest.len() >= pat.len() - 1);
                    assert(rest.subrange(0, pat.len() - 1) =~= pat.skip(1)) by {
                        assert forall|k: int| 0 <= k < pat.len() - 1 implies rest.subrange(
                            0,
                            pat.len() - 1,
                        )[k] == pat.skip(1)[k] by {
                            assert(rest[k] == r[k + 1]);
                            assert(r.subrange(0, pat.len() as int)[k + 1] == r[k + 1]);
                        }
                    }
                    assert(chars_disjoint(pat.skip(1), to)) by {
                        assert forall|x: int, y: int|
                            0 <= x < pat.skip(1).len() && 0 <= y < to.len() implies pat.skip(1)[x]
                            != to[y] by {
                            assert(pat.skip(1)[x] == pat[x + 1]);
                        }
                    }
                    lemma_replace_prefix(s.skip(1), pat, to, pat.skip(1));
                    assert(s.subrange(0, pat.len() as int) =~= pat) by {
                        assert forall|k: int| 0 <= k < pat.len() implies s.subrange(
                            0,
                            pat.len() as int,
                        )[k] == pat[k] by {
                            if k >= 1 {
                                assert(s.skip(1).subrange(0, pat.len() - 1)[k - 1] == s[k]);
                                assert(pat.skip(1)[k - 1] == pat[k]);
                            }
                        }
                    }
                    assert(false);
                }
            }
        }
    }
}

/// A replacement pass cannot create an occurrence of `q` out of nothing,
/// provided the replacement text is nonempty and shares no character
/// with `q`.
pub proof fn lemma_replaced_keeps_absence(s: Seq<char>, pat: Seq<char>, to: Seq<char>, q: Seq<char>)
    requires
        pat.len() >= 1,
        to.len() >= 1,
        q.len() >= 1,
        chars_disjoint(q, to),
        !occurs(s, q),
    ensures
        !occurs(replaced(s, pat, to), q),
    decreases s.len(),
{
    let r = replaced(s, pat, to);
    if s.len() < pat.len() {
        // the pass left `s` untouched
    } else if s.subrange(0, pat.len() as int) == pat {
        let rest = replaced(s.skip(pat.len() as int), pat, to);
        if occurs(s.skip(pat.len() as int), q) {
            lemma_occurs_after_skip(s, q, pat.len() as int);
        }
        lemma_replaced_keeps_absence(s.skip(pat.len() as int), pat, to, q);
        assert(r == to + rest);
        if occurs(r, q) {
            let i = choose|i: int| occurs_at(r, q, i);
            if i < to.len() {
                assert(r.subrange(i, i + q.len())[0] == r[i]);
                assert(q[0] == to[i]);
                assert(false);
            } else {
                assert(rest.subrange(i - to.len(), i - to.len() + q.len()) =~= r.subrange(
                    i,
                    i + q.len(),
                ));
                assert(occurs_at(rest, q, i - to.len()));
                assert(false);
            }
        }
    } else {
        let rest = replaced(s.skip(1), pat, to);
        if occurs(s.skip(1), q) {
            lemma_occurs_after_skip(s, q, 1);
        }
        lemma_replaced_keeps_absence(s.skip(1), pat, to, q);
        assert(r == seq![s[0]] + rest);
        if occurs(r, q) {
            let i = choose|i: int| occurs_at(r, q, i);
            if i >= 1 {
                assert(rest.subrange(i - 1, i - 1 + q.len()) =~= r.subrange(i, i + q.len()));
                assert(occurs_at(rest, q, i - 1));
                assert(false);
            } else {
                assert(r.subrange(0, q.len() as int)[0] == r[0]);
                assert(q[0] == s[0]);
                if q.len() == 1 {
                    assert(s.subrange(0, q.len() as int) =~= q);
                    assert(occurs_at(s, q, 0));
                    assert(false);
                } else {
                    assert(rest.len() >= q.len() - 1);
                    assert(rest.subrange(0, q.len() - 1) =~= q.skip(1)) by {
                        assert forall|k: int| 0 <= k < q.len() - 1 implies rest.subrange(
                            0,
                            q.len() - 1,
                        )[k] == q.skip(1)[k] by {
                            assert(rest[k] == r[k + 1]);
                            assert(r.subrange(0, q.len() as int)[k + 1] == r[k + 1]);
                        }
                    }
                    assert(chars_disjoint(q.skip(1), to)) by {
                        assert forall|x: int, y: int|
                            0 <= x < q.skip(1).len() && 0 <= y < to.len() implies q.skip(1)[x]
                            != to[y] by {
                            assert(q.skip(1)[x] == q[x + 1]);
                        }
                    }
                    lemma_replace_prefix(s.skip(1), pat, to, q.skip(1));
                    assert(s.subrange(0, q.len() as int) =~= q) by {
                        assert forall|k: int| 0 <= k < q.len() implies s.subrange(
                            0,
                            q.len() as int,
                        )[k] == q[k] by {
                            if k >= 1 {
                                assert(s.skip(1).subrange(0, q.len() - 1)[k - 1] == s[k]);
                                assert(q.skip(1)[k - 1] == q[k]);
                            }
                        }
                    }
                    assert(occurs_at(s, q, 0));
                    assert(false);
                }
            }
        }
    }
}

/// Values hygienic for a parameter set: every value is nonempty and
/// shares no character with any declared `$name` token of the set; in
/// particular no value contains `$`.
pub open spec fn hygienic(pairs: Seq<(Seq<char>, Seq<char>)>) -> bool {
    forall|i: int, j: int|
        0 <= i < pairs.len() && 0 <= j < pairs.len() ==> (#[trigger] pairs[i]).1.len() >= 1
            && chars_disjoint(token_of((#[trigger] pairs[j]).0), pairs[i].1)
}

/// The remaining passes of an interpolation cannot re-create a token
/// that is already absent, provided every remaining value is nonempty
/// and shares no character with it.
proof fn lemma_interpolated_keeps_absence(
    t: Seq<char>,
    pairs: Seq<(Seq<char>, Seq<char>)>,
    q: Seq<char>,
)
    requires
        q.len() >= 1,
        !occurs(t, q),
        forall|i: int|
            0 <= i < pairs.len() ==> (#[trigger] pairs[i]).1.len() >= 1 && chars_disjoint(
                q,
                pairs[i].1,
            ),
    ensures
        !occurs(interpolated(t, pairs), q),
    decreases pairs.len(),
{
    if pairs.len() > 0 {
        let t1 = replaced(t, token_of(pairs[0].0), pairs[0].1);
        lemma_replaced_keeps_absence(t, token_of(pairs[0].0), pairs[0].1, q);
        assert(forall|i: int|
            0 <= i < pairs.drop_first().len() ==> (#[trigger] pairs.drop_first()[i]).1.len() >= 1
                && chars_disjoint(q, pairs.drop_first()[i].1)) by {
            assert(forall|i: int|
                0 <= i < pairs.drop_first().len() ==> #[trigger] pairs.drop_first()[i] == pairs[i
                    + 1]);
        }
        lemma_interpolated_keeps_absence(t1, pairs.drop_first(), q);
    }
}

/// After successful interpolation, no `$name` token of any declared
/// parameter remains in the output, provided the resolved values are
/// hygienic for the parameter set: each value nonempty and sharing no
/// character with any declared token. Without that proviso the statement
/// fails: a value that itself spells a declared token reintroduces it.
pub proof fn lemma_interpolation_leaves_no_token(
    template: Seq<char>,
    pairs: Seq<(Seq<char>, Seq<char>)>,
    j: int,
)
    requires
        hygienic(pairs),
        0 <= j < pairs.len(),
    ensures
        !occurs(interpolated(template, pairs), token_of(pairs[j].0)),
    decreases pairs.len(),
{
    let pat = token_of(pairs[0].0);
    let t1 = replaced(template, pat, pairs[0].1);
    assert(forall|i: int|
        0 <= i < pairs.drop_first().len() ==> #[trigger] pairs.drop_first()[i] == pairs[i + 1]);
    if j == 0 {
        lemma_replaced_no_pattern(template, pat, pairs[0].1);
        lemma_interpolated_keeps_absence(t1, pairs.drop_first(), pat);
    } else {
        assert(hygienic(pairs.drop_first()));
        lemma_interpolation_leaves_no_token(t1, pairs.drop_first(), j - 1);
        assert(pairs.drop_first()[j - 1] == pairs[j]);
    }
}

/// Whether `pat` occurs in `s` starting at position `i`.
fn starts_at(s: &str, pat: &str, i: usize) -> (r: bool)
    requires
        i + pat@.len() <= s@.len(),
        s@.len() <= usize::MAX,
    ensures
        r == (s@.subrange(i as int, i + pat@.len()) == pat@),
{
    let m = pat.unicode_len();
    let mut j: usize = 0;
    while j < m
        invariant
            0 <= j <= m,
            m == pat@.len(),
            i + m <= s@.len() <= usize::MAX,
            forall|k: int| 0 <= k < j ==> s@[i + k] == pat@[k],
        decreases m - j,
    {
        let sc = s.get_char(i + j);
        let pc = pat.get_char(j);
        if sc != pc {
            proof {
                assert(s@.subrange(i as int, i + pat@.len())[j as int] == s@[i + j]);
            }
            return false;
        }
        j += 1;
    }
    proof {
        assert(s@.subrange(i as int, i + pat@.len()) =~= pat@);
    }
    true
}

/// Replaces every non-overlapping occurrence of `pat` in `s` with `to`,
/// scanning left to right.
pub fn replace_all(s: &str, pat: &str, to: &str) -> (r: String)
    requires
        pat@.len() >= 1,
    ensures
        r@ == replaced(s@, pat@, to@),
{
    let n = s.unicode_len();
    let m = pat.unicode_len();
    let mut out = String::new();
    let mut i: usize = 0;
    proof {
        assert(s@.skip(0) =~= s@);
    }
    while i < n
        invariant
            n == s@.len(),
            m == pat@.len(),
            m >= 1,
            0 <= i <= n,
            replaced(s@, pat@, to@) == out@ + replaced(s@.skip(i as int), pat@, to@),
        decreases n - i,
    {
        let ghost rem = s@.skip(i as int);
        if m <= n - i && starts_at(s, pat, i) {
            proof {
                assert(rem.subrange(0, pat@.len() as int) =~= s@.subrange(
                    i as int,
                    i + pat@.len(),
                ));
                assert(rem.skip(pat@.len() as int) =~= s@.skip(i + pat@.len()));
            }
            out.append(to);
            i += m;
        } else {
            proof {
                if m <= rem.len() {
                    assert(rem.subrange(0, pat@.len() as int) =~= s@.subrange(
                        i as int,
                        i + pat@.len(),
                    ));
                }
                assert(rem.skip(1) =~= s@.skip(i + 1));
                assert(seq![rem[0]] =~= s@.subrange(i as int, i + 1));
                if rem.len() < m {
                    // here the spec keeps the tail as it is; peeling one
                    // character off keeps it equal
                    assert(rem =~= seq![rem[0]] + rem.skip(1));
                    assert(replaced(rem.skip(1), pat@, to@) == rem.skip(1));
                }
            }
            let c = s.substring_char(i, i + 1);
            out.append(c);
            i += 1;
        }
    }
    proof {
        assert(s@.skip(n as int) =~= Seq::<char>::empty());
    }
    out
}

/// Builds the template token for a parameter name: `$` + name.
fn dollar_token(name: &String) -> (t: String)
    ensures
        t@ == token_of(name@),
{
    proof {
        reveal_strlit("$");
    }
    let mut t = String::from_str("$");
    proof {
        assert(t@ =~= seq!['$']);
    }
    t.append(name.as_str());
    t
}

/// Substitutes the already-resolved values into the template, one
/// replacement pass per pair, in order.
pub fn interpolate(input: &str, values: &Vec<(String, String)>) -> (r: String)
    ensures
        r@ == interpolated(input@, pair_views(values@)),
{
    let ghost pv = pair_views(values@);
    let mut out = input.to_owned();
    let n = values.len();
    let mut i: usize = 0;
    proof {
        assert(pv.skip(0) =~= pv);
    }
    while i < n
        invariant
            n == values@.len(),
            0 <= i <= n,
            pv == pair_views(values@),
            interpolated(input@, pv) == interpolated(out@, pv.skip(i as int)),
        decreases n - i,
    {
        let pair = &values[i];
        let pat = dollar_token(&pair.0);
        proof {
            assert(pv.skip(i as int).drop_first() =~= pv.skip(i + 1));
            assert(pv.skip(i as int)[0] == pv[i as int]);
        }
        out = replace_all(out.as_str(), pat.as_str(), pair.1.as_str());
        i += 1;
    }
    proof {
        assert(pv.skip(n as int) =~= Seq::<(Seq<char>, Seq<char>)>::empty());
    }
    out
}

/// Resolves every parameter of the set, referenced by the template or
/// not, then substitutes each `$name` token; the first resolution failure
/// wins.
pub fn interpolate_params(
    input: &str,
    params: &Vec<(String, Parameter)>,
    lookups: &Vec<Lookup>,
) -> (r: Result<String, ParameterError>)
    requires
        fits_all(params@, lookups@),
    ensures
        r matches Ok(s) ==> all_resolve(params@, lookups@) && s@ == interpolated(
            input@,
            resolved_views(params@, lookups@),
        ),
        r matches Err(e) ==> first_fault_is(params@, lookups@, e),
{
    match resolve_params(params, lookups) {
        Ok(values) => {
            proof {
                assert(pair_views(values@) =~= resolved_views(params@, lookups@));
            }
            Ok(interpolate(input, &values))
        },
        Err(e) => Err(e),
    }
}

/// Interpolates an optional template: an absent template stays absent and
/// resolves nothing.
pub fn interpolate_option_params(
    input: &Option<String>,
    params: &Vec<(String, Parameter)>,
    lookups: &Vec<Lookup>,
) -> (r: Result<Option<String>, ParameterError>)
    requires
        fits_all(params@, lookups@),
    ensures
        input is None ==> (r matches Ok(v) && v is None),
        input matches Some(t) ==> {
            &&& r matches Ok(v) ==> (v matches Some(s) && all_resolve(params@, lookups@) && s@
                == interpolated(t@, resolved_views(params@, lookups@)))
            &&& r matches Err(e) ==> first_fault_is(params@, lookups@, e)
        },
{
    match input {
        Some(t) => match interpolate_params(t.as_str(), params, lookups) {
            Ok(s) => Ok(Some(s)),
            Err(e) => Err(e),
        },
        None => Ok(None),
    }
}

} // verus!
