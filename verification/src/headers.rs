//! The header codec: conversion between the native list of header pairs and
//! the transportable multimap `{ name -> [value, ...] }` that the
//! coprocessor wire format uses, preserving multi-valued ordering.
use vstd::prelude::*;
use std::str::FromStr;

verus! {

// ---------------------------------------------------------------------------
// What the http crate decides about names and values
// ---------------------------------------------------------------------------

/// Normalization of a header name: `Some` of the lowercased name when the
/// string is a valid header name, `None` otherwise.
pub uninterp spec fn header_name_norm(s: Seq<char>) -> Option<Seq<char>>;

/// Validity of a header value: exactly the strings the native header type
/// accepts.
pub uninterp spec fn header_value_ok(s: Seq<char>) -> bool;

/// Relies on `http::header::HeaderName::from_str`: it accepts exactly the
/// valid header names, normalizes them to lower case, and depends on the
/// characters alone.
#[verifier::external_body]
fn parse_header_name(s: &String) -> (r: Option<String>)
    ensures
        r is Some <==> header_name_norm(s@) is Some,
        r matches Some(n) ==> header_name_norm(s@) == Some(n@),
{
    match http::header::HeaderName::from_str(s.as_str()) {
        Ok(name) => Some(name.as_str().to_owned()),
        Err(_) => None,
    }
}

/// Relies on `http::header::HeaderValue::from_str`: it accepts exactly the
/// valid header values and depends on the characters alone.
#[verifier::external_body]
fn header_value_valid(s: &String) -> (r: bool)
    ensures
        r == header_value_ok(s@),
{
    http::header::HeaderValue::from_str(s.as_str()).is_ok()
}

// ---------------------------------------------------------------------------
// Views
// ---------------------------------------------------------------------------

/// The mathematical shape of a flat header list.
pub open spec fn pairs_view(pairs: Seq<(String, String)>) -> Seq<(Seq<char>, Seq<char>)> {
    pairs.map_values(|p: (String, String)| (p.0@, p.1@))
}

/// The mathematical shape of a list of strings.
pub open spec fn strings_view(values: Seq<String>) -> Seq<Seq<char>> {
    values.map_values(|v: String| v@)
}

/// The mathematical shape of a header multimap.
pub open spec fn multimap_view(entries: Seq<(String, Vec<String>)>) -> Seq<
    (Seq<char>, Seq<Seq<char>>),
> {
    entries.map_values(|e: (String, Vec<String>)| (e.0@, strings_view(e.1@)))
}

/// A well-formed native header list: every name is already in normalized
/// form and every value is one the native type accepts.
pub open spec fn headers_wf(pairs: Seq<(String, String)>) -> bool {
    forall|i: int|
        0 <= i < pairs.len() ==> #[trigger] header_name_norm(pairs[i].0@) == Some(pairs[i].0@)
            && header_value_ok(pairs[i].1@)
}

// ---------------------------------------------------------------------------
// Externalization: flat pairs to multimap
// ---------------------------------------------------------------------------

/// Whether the name at position `i` already occurred before it.
pub open spec fn seen_before(pairs: Seq<(String, String)>, i: int) -> bool {
    exists|j: int| 0 <= j < i && pairs[j].0@ == pairs[i].0@
}

/// The values under `name` from position `k` on, in order.
pub open spec fn values_from(pairs: Seq<(String, String)>, k: int, name: Seq<char>) -> Seq<
    Seq<char>,
>
    decreases pairs.len() - k,
{
    if k < 0 || k >= pairs.len() {
        Seq::empty()
    } else if pairs[k].0@ == name {
        seq![pairs[k].1@] + values_from(pairs, k + 1, name)
    } else {
        values_from(pairs, k + 1, name)
    }
}

/// The multimap built from position `k` on: one entry per name at its first
/// occurrence, carrying every value under that name.
pub open spec fn spec_externalize_from(pairs: Seq<(String, String)>, k: int) -> Seq<
    (Seq<char>, Seq<Seq<char>>),
>
    decreases pairs.len() - k,
{
    if k < 0 || k >= pairs.len() {
        Seq::empty()
    } else if seen_before(pairs, k) {
        spec_externalize_from(pairs, k + 1)
    } else {
        seq![(pairs[k].0@, values_from(pairs, k, pairs[k].0@))] + spec_externalize_from(
            pairs,
            k + 1,
        )
    }
}

/// What `externalize_header_map` returns.
pub open spec fn spec_externalize(pairs: Seq<(String, String)>) -> Seq<
    (Seq<char>, Seq<Seq<char>>),
> {
    spec_externalize_from(pairs, 0)
}

/// Converts the native header list into the transportable multimap: names
/// keep their first-occurrence order and each name's values their order.
pub fn externalize_header_map(input: &Vec<(String, String)>) -> (r: Vec<(String, Vec<String>)>)
    ensures
        multimap_view(r@) == spec_externalize(input@),
{
    let n = input.len();
    let mut out: Vec<(String, Vec<String>)> = Vec::new();
    let mut k: usize = 0;
    while k < n
        invariant
            n == input.len(),
            0 <= k <= n,
            spec_externalize(input@) == multimap_view(out@) + spec_externalize_from(
                input@,
                k as int,
            ),
        decreases n - k,
    {
        // does the name at k occur earlier?
        let mut seen = false;
        let mut j: usize = 0;
        while j < k
            invariant
                n == input.len(),
                0 <= j <= k < n,
                seen <==> exists|j0: int| 0 <= j0 < j && input@[j0].0@ == input@[k as int].0@,
            decreases k - j,
        {
            if input[j].0 == input[k].0 {
                seen = true;
            }
            j += 1;
        }
        if !seen {
            let name = input[k].0.clone();
            let mut values: Vec<String> = Vec::new();
            let mut m: usize = k;
            proof {
                assert(strings_view(values@) =~= Seq::<Seq<char>>::empty());
            }
            while m < n
                invariant
                    n == input.len(),
                    0 <= k <= m <= n,
                    name@ == input@[k as int].0@,
                    values_from(input@, k as int, name@) == strings_view(values@) + values_from(
                        input@,
                        m as int,
                        name@,
                    ),
                decreases n - m,
            {
                if input[m].0 == name {
                    proof {
                        assert(strings_view(values@.push(input@[m as int].1)) =~= strings_view(
                            values@,
                        ).push(input@[m as int].1@));
                        assert(strings_view(values@) + (seq![input@[m as int].1@] + values_from(
                            input@,
                            m + 1,
                            name@,
                        )) =~= strings_view(values@).push(input@[m as int].1@) + values_from(
                            input@,
                            m + 1,
                            name@,
                        ));
                    }
                    values.push(input[m].1.clone());
                }
                m += 1;
            }
            proof {
                assert(strings_view(values@) + values_from(input@, n as int, name@)
                    =~= strings_view(values@));
                let entry_v = (input@[k as int].0@, values_from(input@, k as int, name@));
                assert(multimap_view(out@.push((name, values))) =~= multimap_view(out@).push(
                    entry_v,
                ));
                assert(multimap_view(out@) + (seq![entry_v] + spec_externalize_from(
                    input@,
                    k + 1,
                )) =~= multimap_view(out@).push(entry_v) + spec_externalize_from(input@, k + 1));
            }
            out.push((name, values));
        }
        k += 1;
    }
    proof {
        assert(multimap_view(out@) + spec_externalize_from(input@, n as int) =~= multimap_view(
            out@,
        ));
    }
    out
}

// ---------------------------------------------------------------------------
// Internalization: multimap back to flat pairs
// ---------------------------------------------------------------------------

/// Why a multimap could not be turned back into native headers.
#[derive(Debug, PartialEq, Eq)]
pub enum HeaderError {
    /// The offending name.
    InvalidName(String),
    /// The offending value.
    InvalidValue(String),
}

/// The mathematical shape of a [`HeaderError`].
#[verifier::ext_equal]
pub enum HeaderErrorV {
    InvalidName(Seq<char>),
    InvalidValue(Seq<char>),
}

impl View for HeaderError {
    type V = HeaderErrorV;

    open spec fn view(&self) -> HeaderErrorV {
        match self {
            HeaderError::InvalidName(s) => HeaderErrorV::InvalidName(s@),
            HeaderError::InvalidValue(s) => HeaderErrorV::InvalidValue(s@),
        }
    }
}

/// The flat pairs one multimap entry contributes: the normalized name with
/// each value in order; the first invalid name or value decides the error.
pub open spec fn spec_internalize_entry(name: Seq<char>, values: Seq<Seq<char>>) -> Result<
    Seq<(Seq<char>, Seq<char>)>,
    HeaderErrorV,
>
    decreases values,
{
    if values.len() == 0 {
        Ok(Seq::empty())
    } else {
        match header_name_norm(name) {
            None => Err(HeaderErrorV::InvalidName(name)),
            Some(n) => if !header_value_ok(values[0]) {
                Err(HeaderErrorV::InvalidValue(values[0]))
            } else {
                match spec_internalize_entry(name, values.subrange(1, values.len() as int)) {
                    Err(e) => Err(e),
                    Ok(rest) => Ok(seq![(n, values[0])] + rest),
                }
            },
        }
    }
}

/// What `internalize_header_map` returns: every entry flattened in order.
pub open spec fn spec_internalize(entries: Seq<(Seq<char>, Seq<Seq<char>>)>) -> Result<
    Seq<(Seq<char>, Seq<char>)>,
    HeaderErrorV,
>
    decreases entries,
{
    if entries.len() == 0 {
        Ok(Seq::empty())
    } else {
        match spec_internalize_entry(entries[0].0, entries[0].1) {
            Err(e) => Err(e),
            Ok(pairs) => match spec_internalize(entries.subrange(1, entries.len() as int)) {
                Err(e) => Err(e),
                Ok(rest) => Ok(pairs + rest),
            },
        }
    }
}

fn internalize_entry(name: &String, values: &Vec<String>, out: &mut Vec<(String, String)>) -> (r:
    Result<(), HeaderError>)
    ensures
        match r {
            Ok(_) => spec_internalize_entry(name@, strings_view(values@)) matches Ok(pairs)
                && pairs_view(final(out)@) == pairs_view(old(out)@) + pairs,
            Err(e) => spec_internalize_entry(name@, strings_view(values@)) == Err::<
                Seq<(Seq<char>, Seq<char>)>,
                HeaderErrorV,
            >(e@),
        },
{
    let ghost out0 = out@;
    let n = values.len();
    let mut i: usize = 0;
    proof {
        assert(strings_view(values@).subrange(0, n as int) =~= strings_view(values@));
    }
    while i < n
        invariant
            n == values.len(),
            0 <= i <= n,
            out@.len() >= out0.len(),
            out@.subrange(0, out0.len() as int) == out0,
            spec_internalize_entry(name@, strings_view(values@)) == (match spec_internalize_entry(
                name@,
                strings_view(values@).subrange(i as int, n as int),
            ) {
                Err(e) => Err::<Seq<(Seq<char>, Seq<char>)>, HeaderErrorV>(e),
                Ok(rest) => Ok(
                    pairs_view(out@.subrange(out0.len() as int, out@.len() as int)) + rest,
                ),
            }),
        decreases n - i,
    {
        proof {
            assert(strings_view(values@).subrange(i as int, n as int)[0] == values@[i as int]@);
            assert(strings_view(values@).subrange(i as int, n as int).subrange(
                1,
                n - i,
            ) =~= strings_view(values@).subrange(i + 1, n as int));
        }
        let parsed = parse_header_name(name);
        match parsed {
            None => {
                return Err(HeaderError::InvalidName(name.clone()));
            },
            Some(norm) => {
                if !header_value_valid(&values[i]) {
                    return Err(HeaderError::InvalidValue(values[i].clone()));
                }
                proof {
                    let pre = out@.subrange(out0.len() as int, out@.len() as int);
                    let pushed = out@.push((norm, values@[i as int]));
                    assert(pushed.subrange(0, out0.len() as int) =~= out0);
                    assert(pushed.subrange(out0.len() as int, pushed.len() as int) =~= pre.push(
                        (norm, values@[i as int]),
                    ));
                    assert(pairs_view(pre.push((norm, values@[i as int]))) =~= pairs_view(
                        pre,
                    ).push((norm@, values@[i as int]@)));
                    assert(pairs_view(pre) + (seq![(norm@, values@[i as int]@)]
                        + spec_internalize_entry(
                        name@,
                        strings_view(values@).subrange(i + 1, n as int),
                    )->Ok_0) =~= pairs_view(pre).push((norm@, values@[i as int]@))
                        + spec_internalize_entry(
                        name@,
                        strings_view(values@).subrange(i + 1, n as int),
                    )->Ok_0);
                }
                out.push((norm, values[i].clone()));
            },
        }
        i += 1;
    }
    proof {
        assert(strings_view(values@).subrange(n as int, n as int) =~= Seq::<Seq<char>>::empty());
        assert(pairs_view(out@.subrange(out0.len() as int, out@.len() as int)) + Seq::<
            (Seq<char>, Seq<char>),
        >::empty() =~= pairs_view(out@.subrange(out0.len() as int, out@.len() as int)));
    }
    Ok(())
}

/// Converts a transportable multimap back into the native header list: every
/// (name, value) pair is re-inserted in order, so multi-valued headers keep
/// their order; the first invalid name or value fails the conversion.
pub fn internalize_header_map(input: &Vec<(String, Vec<String>)>) -> (r: Result<
    Vec<(String, String)>,
    HeaderError,
>)
    ensures
        match r {
            Ok(pairs) => spec_internalize(multimap_view(input@)) == Ok::<
                Seq<(Seq<char>, Seq<char>)>,
                HeaderErrorV,
            >(pairs_view(pairs@)),
            Err(e) => spec_internalize(multimap_view(input@)) == Err::<
                Seq<(Seq<char>, Seq<char>)>,
                HeaderErrorV,
            >(e@),
        },
{
    let n = input.len();
    let mut out: Vec<(String, String)> = Vec::new();
    let mut k: usize = 0;
    proof {
        assert(multimap_view(input@).subrange(0, n as int) =~= multimap_view(input@));
        assert(pairs_view(out@) =~= Seq::<(Seq<char>, Seq<char>)>::empty());
    }
    while k < n
        invariant
            n == input.len(),
            0 <= k <= n,
            spec_internalize(multimap_view(input@)) == (match spec_internalize(
                multimap_view(input@).subrange(k as int, n as int),
            ) {
                Err(e) => Err::<Seq<(Seq<char>, Seq<char>)>, HeaderErrorV>(e),
                Ok(rest) => Ok(pairs_view(out@) + rest),
            }),
        decreases n - k,
    {
        proof {
            assert(multimap_view(input@).subrange(k as int, n as int)[0] == multimap_view(
                input@,
            )[k as int]);
            assert(multimap_view(input@).subrange(k as int, n as int).subrange(
                1,
                n - k,
            ) =~= multimap_view(input@).subrange(k + 1, n as int));
        }
        let ghost out_before = out@;
        match internalize_entry(&input[k].0, &input[k].1, &mut out) {
            Err(e) => {
                return Err(e);
            },
            Ok(_) => {
                proof {
                    assert(out_before.subrange(0, out_before.len() as int) =~= out_before);
                    let entry_pairs = spec_internalize_entry(
                        input@[k as int].0@,
                        strings_view(input@[k as int].1@),
                    )->Ok_0;
                    let rest = spec_internalize(
                        multimap_view(input@).subrange(k + 1, n as int),
                    );
                    if rest is Ok {
                        assert((pairs_view(out_before) + entry_pairs) + rest->Ok_0 =~= pairs_view(
                            out_before,
                        ) + (entry_pairs + rest->Ok_0));
                    }
                }
            },
        }
        k += 1;
    }
    proof {
        assert(multimap_view(input@).subrange(n as int, n as int) =~= Seq::<
            (Seq<char>, Seq<Seq<char>>),
        >::empty());
        assert(pairs_view(out@) + Seq::<(Seq<char>, Seq<char>)>::empty() =~= pairs_view(out@));
    }
    Ok(out)
}

// ---------------------------------------------------------------------------
// The codec round trip
// ---------------------------------------------------------------------------

/// Equal names stand adjacent, as the native header container hands them
/// out: between two positions of one name no other name intervenes.
pub open spec fn grouped(pairs: Seq<(String, String)>) -> bool {
    forall|i: int, j: int, m: int|
        #![trigger pairs[i], pairs[j], pairs[m]]
        0 <= i < j < m < pairs.len() && pairs[i].0@ == pairs[m].0@ ==> pairs[j].0@ == pairs[i].0@
}

proof fn lemma_internalize_entry_ok(name: Seq<char>, values: Seq<Seq<char>>)
    requires
        header_name_norm(name) == Some(name),
        forall|i: int| 0 <= i < values.len() ==> header_value_ok(#[trigger] values[i]),
    ensures
        spec_internalize_entry(name, values) == Ok::<Seq<(Seq<char>, Seq<char>)>, HeaderErrorV>(
            values.map_values(|v: Seq<char>| (name, v)),
        ),
    decreases values,
{
    let f = |v: Seq<char>| (name, v);
    if values.len() == 0 {
        assert(values.map_values(f) =~= Seq::<(Seq<char>, Seq<char>)>::empty());
    } else {
        let rest = values.subrange(1, values.len() as int);
        assert forall|i: int| 0 <= i < rest.len() implies header_value_ok(#[trigger] rest[i]) by {
            assert(rest[i] == values[i + 1]);
        }
        lemma_internalize_entry_ok(name, rest);
        assert(seq![(name, values[0])] + rest.map_values(f) =~= values.map_values(f));
    }
}

proof fn lemma_values_from_absent(pairs: Seq<(String, String)>, m: int, name: Seq<char>)
    requires
        forall|j: int| m <= j < pairs.len() ==> #[trigger] pairs[j].0@ != name,
    ensures
        values_from(pairs, m, name) == Seq::<Seq<char>>::empty(),
    decreases pairs.len() - m,
{
    if 0 <= m && m < pairs.len() {
        lemma_values_from_absent(pairs, m + 1, name);
    }
}

proof fn lemma_values_from_block(pairs: Seq<(String, String)>, j: int, k: int, name: Seq<char>)
    requires
        0 <= j <= k <= pairs.len(),
        forall|i: int| j <= i < k ==> #[trigger] pairs[i].0@ == name,
        forall|i: int| k <= i < pairs.len() ==> #[trigger] pairs[i].0@ != name,
    ensures
        values_from(pairs, j, name) == Seq::new((k - j) as nat, |t: int| pairs[j + t].1@),
    decreases k - j,
{
    if j == k {
        lemma_values_from_absent(pairs, j, name);
        assert(Seq::new(0, |t: int| pairs[j + t].1@) =~= Seq::<Seq<char>>::empty());
    } else {
        lemma_values_from_block(pairs, j + 1, k, name);
        assert(seq![pairs[j].1@] + Seq::new((k - j - 1) as nat, |t: int| pairs[j + 1 + t].1@)
            =~= Seq::new((k - j) as nat, |t: int| pairs[j + t].1@));
    }
}

proof fn lemma_values_from_shift(pairs: Seq<(String, String)>, k: int, j: int, name: Seq<char>)
    requires
        0 <= k <= j <= pairs.len(),
    ensures
        values_from(pairs, j, name) == values_from(
            pairs.subrange(k as int, pairs.len() as int),
            j - k,
            name,
        ),
    decreases pairs.len() - j,
{
    let suffix = pairs.subrange(k as int, pairs.len() as int);
    if j < pairs.len() {
        assert(suffix[j - k] == pairs[j]);
        lemma_values_from_shift(pairs, k, j + 1, name);
    }
}

proof fn lemma_ext_from_skip(pairs: Seq<(String, String)>, j: int, k: int)
    requires
        1 <= j <= k <= pairs.len(),
        forall|i: int| 0 <= i < k ==> #[trigger] pairs[i].0@ == pairs[0].0@,
    ensures
        spec_externalize_from(pairs, j) == spec_externalize_from(pairs, k),
    decreases k - j,
{
    if j < k {
        assert(seen_before(pairs, j)) by {
            assert(pairs[0].0@ == pairs[j].0@);
        }
        lemma_ext_from_skip(pairs, j + 1, k);
    }
}

proof fn lemma_ext_from_shift(pairs: Seq<(String, String)>, k: int, j: int)
    requires
        0 <= k <= j <= pairs.len(),
        forall|i: int, m: int|
            0 <= i < k <= m < pairs.len() ==> #[trigger] pairs[i].0@ != #[trigger] pairs[m].0@,
    ensures
        spec_externalize_from(pairs, j) == spec_externalize_from(
            pairs.subrange(k as int, pairs.len() as int),
            j - k,
        ),
    decreases pairs.len() - j,
{
    let suffix = pairs.subrange(k as int, pairs.len() as int);
    if j < pairs.len() {
        assert(suffix[j - k] == pairs[j]);
        assert(seen_before(pairs, j) == seen_before(suffix, j - k)) by {
            if seen_before(pairs, j) {
                let w = choose|w: int| 0 <= w < j && pairs[w].0@ == pairs[j].0@;
                assert(w >= k);
                assert(suffix[w - k] == pairs[w]);
                assert(seen_before(suffix, j - k));
            }
            if seen_before(suffix, j - k) {
                let w = choose|w: int|
                    0 <= w < j - k && (#[trigger] suffix[w]).0@ == suffix[j - k].0@;
                assert(suffix[w] == pairs[w + k]);
                assert(seen_before(pairs, j));
            }
        }
        lemma_values_from_shift(pairs, k, j, pairs[j].0@);
        lemma_ext_from_shift(pairs, k, j + 1);
    }
}

/// The codec round trip: a grouped, well-formed native header list survives
/// externalization followed by internalization unchanged, multi-valued
/// ordering included.
pub proof fn lemma_header_codec_round_trip(pairs: Seq<(String, String)>)
    requires
        headers_wf(pairs),
        grouped(pairs),
    ensures
        spec_internalize(spec_externalize(pairs)) == Ok::<
            Seq<(Seq<char>, Seq<char>)>,
            HeaderErrorV,
        >(pairs_view(pairs)),
    decreases pairs.len(),
{
    let n = pairs.len() as int;
    if n == 0 {
        assert(pairs_view(pairs) =~= Seq::<(Seq<char>, Seq<char>)>::empty());
    } else {
        let bn = pairs[0].0@;
        // the length of the initial block of `bn`
        let k = lemma_block_len(pairs, bn, 1);
        // after the block, `bn` never recurs
        assert forall|j: int| k <= j < n implies #[trigger] pairs[j].0@ != bn by {
            if pairs[j].0@ == bn {
                assert(k < n);
                assert(j > k);
                assert(pairs[k].0@ == pairs[0].0@);
            }
        }
        // the multimap starts with the block entry
        assert(!seen_before(pairs, 0));
        let block_values = values_from(pairs, 0, bn);
        lemma_values_from_block(pairs, 0, k, bn);
        if k < n {
            lemma_ext_from_skip(pairs, 1, k);
        } else {
            lemma_ext_from_skip(pairs, 1, n);
        }
        let suffix = pairs.subrange(k, n);
        assert forall|i: int, m: int| 0 <= i < k <= m < n implies #[trigger] pairs[i].0@
            != #[trigger] pairs[m].0@ by {
            assert(pairs[i].0@ == bn);
        }
        lemma_ext_from_shift(pairs, k, k);
        // the suffix is itself grouped and well formed
        assert(headers_wf(suffix)) by {
            assert forall|i: int|
                0 <= i < suffix.len() implies #[trigger] header_name_norm(suffix[i].0@) == Some(
                suffix[i].0@,
            ) && header_value_ok(suffix[i].1@) by {
                assert(suffix[i] == pairs[k + i]);
            }
        }
        assert(grouped(suffix)) by {
            assert forall|i: int, j: int, m: int|
                #![trigger suffix[i], suffix[j], suffix[m]]
                0 <= i < j < m < suffix.len() && suffix[i].0@ == suffix[m].0@ implies suffix[j].0@
                == suffix[i].0@ by {
                assert(suffix[i] == pairs[k + i]);
                assert(suffix[j] == pairs[k + j]);
                assert(suffix[m] == pairs[k + m]);
            }
        }
        lemma_header_codec_round_trip(suffix);
        // assemble
        let entry = (bn, block_values);
        let ext = spec_externalize(pairs);
        assert(ext == seq![entry] + spec_externalize(suffix));
        assert(ext[0] == entry);
        assert(ext.subrange(1, ext.len() as int) =~= spec_externalize(suffix));
        assert forall|i: int| 0 <= i < block_values.len() implies header_value_ok(
            #[trigger] block_values[i],
        ) by {
            assert(block_values[i] == pairs[0 + i].1@);
            assert(header_name_norm(pairs[i].0@) == Some(pairs[i].0@));
        }
        assert(header_name_norm(bn) == Some(bn));
        lemma_internalize_entry_ok(bn, block_values);
        let entry_pairs = block_values.map_values(|v: Seq<char>| (bn, v));
        assert(entry_pairs =~= pairs_view(pairs.subrange(0, k))) by {
            assert forall|t: int| 0 <= t < k implies entry_pairs[t] == pairs_view(
                pairs.subrange(0, k),
            )[t] by {
                assert(block_values[t] == pairs[0 + t].1@);
                assert(pairs.subrange(0, k)[t] == pairs[t]);
                assert(pairs[t].0@ == bn);
            }
        }
        assert(pairs_view(pairs.subrange(0, k)) + pairs_view(suffix) =~= pairs_view(pairs)) by {
            assert forall|t: int| 0 <= t < n implies (pairs_view(pairs.subrange(0, k))
                + pairs_view(suffix))[t] == pairs_view(pairs)[t] by {
                if t < k {
                    assert(pairs.subrange(0, k)[t] == pairs[t]);
                } else {
                    assert(suffix[t - k] == pairs[t]);
                }
            }
        }
    }
}

proof fn lemma_block_len(pairs: Seq<(String, String)>, bn: Seq<char>, j: int) -> (k: int)
    requires
        pairs.len() > 0,
        bn == pairs[0].0@,
        1 <= j <= pairs.len(),
        forall|i: int| 0 <= i < j ==> #[trigger] pairs[i].0@ == bn,
    ensures
        1 <= k <= pairs.len(),
        forall|i: int| 0 <= i < k ==> #[trigger] pairs[i].0@ == bn,
        k < pairs.len() ==> pairs[k].0@ != bn,
    decreases pairs.len() - j,
{
    if j == pairs.len() || pairs[j].0@ != bn {
        j
    } else {
        lemma_block_len(pairs, bn, j + 1)
    }
}

} // verus!
