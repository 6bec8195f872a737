//! Parser of metric specifications `name[-raw][+min|+max|+ratio]*[/unit]`.
//!
//! The name may be a limited glob pattern: a prefix `mem:*`, a suffix
//! `*:call` or a middle part `io:*:call`.

use vstd::prelude::*;
use crate::agg::{Aggregation, AggregationSet};
use crate::format::Formatter;
use crate::metrics::{all_metric_ids, metric_name, MetricId};
use crate::strings::{
    ends_with, find_from, occurs_at, slice_ends_with, slice_find_from, slice_occurs_at,
    slice_starts_with, starts_with, str_chars, sub_chars,
};

verus! {

/// Characters allowed in a metric name or pattern.
pub open spec fn is_pattern_char(c: char) -> bool {
    c == ':' || c == '*' || ('a' <= c && c <= 'z')
}

/// End of the run of pattern characters that starts at `i`.
pub open spec fn pattern_end(s: Seq<char>, i: int) -> int
    decreases s.len() - i,
{
    if 0 <= i < s.len() && is_pattern_char(s[i]) {
        pattern_end(s, i + 1)
    } else {
        i
    }
}

/// Aggregations `+min`, `+max` or `+ratio` that follow position `i`, and the
/// position after the last one.
pub open spec fn aggregations_from(s: Seq<char>, i: int) -> (Set<Aggregation>, int)
    decreases s.len() - i,
{
    if i < 0 || i >= s.len() {
        (Set::empty(), i)
    } else if occurs_at(s, i, "+min"@) {
        proof { reveal_strlit("+min"); }
        let r = aggregations_from(s, i + "+min"@.len());
        (r.0.insert(Aggregation::Min), r.1)
    } else if occurs_at(s, i, "+max"@) {
        proof { reveal_strlit("+max"); }
        let r = aggregations_from(s, i + "+max"@.len());
        (r.0.insert(Aggregation::Max), r.1)
    } else if occurs_at(s, i, "+ratio"@) {
        proof { reveal_strlit("+ratio"); }
        let r = aggregations_from(s, i + "+ratio"@.len());
        (r.0.insert(Aggregation::Ratio), r.1)
    } else {
        (Set::empty(), i)
    }
}

/// Unit `/ki`, `/mi`, ... at position `i`, tried in this order, and the
/// position after it.
pub open spec fn formatter_at(s: Seq<char>, i: int) -> Option<(Formatter, int)> {
    if occurs_at(s, i, "/ki"@) {
        Some((Formatter::Kibi, i + "/ki"@.len()))
    } else if occurs_at(s, i, "/mi"@) {
        Some((Formatter::Mebi, i + "/mi"@.len()))
    } else if occurs_at(s, i, "/gi"@) {
        Some((Formatter::Gibi, i + "/gi"@.len()))
    } else if occurs_at(s, i, "/ti"@) {
        Some((Formatter::Tebi, i + "/ti"@.len()))
    } else if occurs_at(s, i, "/k"@) {
        Some((Formatter::Kilo, i + "/k"@.len()))
    } else if occurs_at(s, i, "/m"@) {
        Some((Formatter::Mega, i + "/m"@.len()))
    } else if occurs_at(s, i, "/g"@) {
        Some((Formatter::Giga, i + "/g"@.len()))
    } else if occurs_at(s, i, "/t"@) {
        Some((Formatter::Tera, i + "/t"@.len()))
    } else if occurs_at(s, i, "/sz"@) {
        Some((Formatter::Size, i + "/sz"@.len()))
    } else if occurs_at(s, i, "/du"@) {
        Some((Formatter::HumanMilliseconds, i + "/du"@.len()))
    } else {
        None
    }
}

/// The parts of a metric specification: the name or pattern, the selected
/// aggregations and the optional unit. None if the whole input is not a
/// specification.
pub open spec fn spec_parts(s: Seq<char>) -> Option<(Seq<char>, Set<Aggregation>, Option<Formatter>)> {
    let k = pattern_end(s, 0);
    let raw_removed = occurs_at(s, k, "-raw"@);
    let j = if raw_removed { k + "-raw"@.len() } else { k };
    let (aggs, m) = aggregations_from(s, j);
    let aggs = if raw_removed { aggs } else { aggs.insert(Aggregation::Raw) };
    let (fmt, e) = match formatter_at(s, m) {
        Some((f, e)) => (Some(f), e),
        None => (None, m),
    };
    if e == s.len() {
        Some((s.subrange(0, k), aggs, fmt))
    } else {
        None
    }
}

/// First metric of a list with the given name.
pub open spec fn first_named(ids: Seq<MetricId>, name: Seq<char>) -> Option<MetricId>
    decreases ids.len(),
{
    if ids.len() == 0 {
        None
    } else if metric_name(ids[0]) == name {
        Some(ids[0])
    } else {
        first_named(ids.drop_first(), name)
    }
}

/// Whether a metric name matches a limited glob pattern.
pub open spec fn glob_matches(pattern: Seq<char>, name: Seq<char>) -> bool {
    if starts_with(pattern, "*:"@) {
        ends_with(name, pattern.skip("*:"@.len() as int))
    } else if ends_with(pattern, ":*"@) {
        starts_with(name, pattern.take(pattern.len() - ":*"@.len()))
    } else {
        match find_from(pattern, ":*:"@, 0) {
            Some(i) => {
                let rest = pattern.skip(i + ":*:"@.len());
                find_from(rest, ":*:"@, 0) is None
                    && starts_with(name, pattern.take(i))
                    && ends_with(name, rest)
            },
            None => false,
        }
    }
}

/// Metrics of a list whose names match a pattern, in order.
pub open spec fn glob_filter(ids: Seq<MetricId>, pattern: Seq<char>) -> Seq<MetricId>
    decreases ids.len(),
{
    if ids.len() == 0 {
        Seq::empty()
    } else {
        let rest = glob_filter(ids.drop_last(), pattern);
        if glob_matches(pattern, metric_name(ids.last())) {
            rest.push(ids.last())
        } else {
            rest
        }
    }
}

/// Metrics designated by a name or a pattern.
pub open spec fn spec_metric_ids(pattern: Seq<char>) -> Seq<MetricId> {
    match first_named(all_metric_ids(), pattern) {
        Some(id) => seq![id],
        None => glob_filter(all_metric_ids(), pattern),
    }
}

/// Metric from its name, the first one in declaration order.
fn metric_by_name(name: &[char]) -> (r: Option<MetricId>)
    ensures
        r == first_named(all_metric_ids(), name@),
{
    let ids = MetricId::iter();
    let mut i: usize = 0;
    assert(ids@.skip(0) =~= ids@);
    while i < ids.len()
        invariant
            0 <= i <= ids.len(),
            ids@ == all_metric_ids(),
            first_named(all_metric_ids(), name@) == first_named(ids@.skip(i as int), name@),
        decreases ids.len() - i,
    {
        let id_name = str_chars(ids[i].as_str());
        assert(ids@.skip(i as int).drop_first() =~= ids@.skip(i + 1));
        if id_name.len() == name.len() && slice_starts_with(id_name.as_slice(), name) {
            assert(id_name@.take(name@.len() as int) =~= id_name@);
            return Some(ids[i]);
        }
        proof {
            if metric_name(ids@[i as int]) == name@ {
                assert(id_name@.take(name@.len() as int) =~= id_name@);
            }
        }
        i = i + 1;
    }
    None
}

/// How a pattern selects names.
enum GlobKind {
    Suffix(Vec<char>),
    Prefix(Vec<char>),
    Middle(Vec<char>, Vec<char>),
    Nothing,
}

spec fn glob_kind_matches(kind: GlobKind, name: Seq<char>) -> bool {
    match kind {
        GlobKind::Suffix(suf) => ends_with(name, suf@),
        GlobKind::Prefix(pre) => starts_with(name, pre@),
        GlobKind::Middle(pre, suf) => starts_with(name, pre@) && ends_with(name, suf@),
        GlobKind::Nothing => false,
    }
}

fn glob_kind(pattern: &[char]) -> (k: GlobKind)
    ensures
        forall|name: Seq<char>| glob_kind_matches(k, name) == glob_matches(pattern@, name),
{
    let star_colon = str_chars("*:");
    let colon_star = str_chars(":*");
    let middle = str_chars(":*:");
    proof {
        reveal_strlit("*:");
        reveal_strlit(":*");
        reveal_strlit(":*:");
    }
    if slice_starts_with(pattern, star_colon.as_slice()) {
        let suf = sub_chars(pattern, 2, pattern.len());
        assert(suf@ =~= pattern@.skip(2));
        GlobKind::Suffix(suf)
    } else if slice_ends_with(pattern, colon_star.as_slice()) {
        let pre = sub_chars(pattern, 0, pattern.len() - 2);
        assert(pre@ =~= pattern@.take(pattern@.len() - 2));
        GlobKind::Prefix(pre)
    } else {
        match slice_find_from(pattern, middle.as_slice(), 0) {
            Some(i) => {
                proof {
                    crate::strings::lemma_find_from(pattern@, ":*:"@, 0);
                }
                assert(occurs_at(pattern@, i as int, ":*:"@));
                assert(":*:"@.len() == 3);
                assert(i + 3 <= pattern.len());
                let pre = sub_chars(pattern, 0, i);
                let suf = sub_chars(pattern, i + 3, pattern.len());
                assert(pre@ =~= pattern@.take(i as int));
                assert(suf@ =~= pattern@.skip(i + 3));
                if slice_find_from(suf.as_slice(), middle.as_slice(), 0).is_some() {
                    GlobKind::Nothing
                } else {
                    GlobKind::Middle(pre, suf)
                }
            },
            None => GlobKind::Nothing,
        }
    }
}

fn kind_matches(kind: &GlobKind, name: &[char]) -> (r: bool)
    ensures
        r == glob_kind_matches(*kind, name@),
{
    match kind {
        GlobKind::Suffix(suf) => slice_ends_with(name, suf.as_slice()),
        GlobKind::Prefix(pre) => slice_starts_with(name, pre.as_slice()),
        GlobKind::Middle(pre, suf) => slice_starts_with(name, pre.as_slice()) && slice_ends_with(
            name,
            suf.as_slice(),
        ),
        GlobKind::Nothing => false,
    }
}

/// Expands limited globbing
/// Allowed: prefix mem:*, suffix *:call, middle io:*:call
fn expand_metric_name(metric_ids: &mut Vec<MetricId>, name: &[char])
    ensures
        final(metric_ids)@ == old(metric_ids)@ + glob_filter(all_metric_ids(), name@),
{
    let kind = glob_kind(name);
    let ids = MetricId::iter();
    let ghost start = metric_ids@;
    let mut i: usize = 0;
    while i < ids.len()
        invariant
            0 <= i <= ids.len(),
            ids@ == all_metric_ids(),
            forall|n: Seq<char>| glob_kind_matches(kind, n) == glob_matches(name@, n),
            metric_ids@ == start + glob_filter(ids@.take(i as int), name@),
        decreases ids.len() - i,
    {
        let id_name = str_chars(ids[i].as_str());
        assert(ids@.take(i + 1).drop_last() =~= ids@.take(i as int));
        if kind_matches(&kind, id_name.as_slice()) {
            metric_ids.push(ids[i]);
        }
        i = i + 1;
    }
    assert(ids@.take(ids.len() as int) =~= ids@);
}

/// Parse metric specification name[-raw][+modifier]*[/unit]
pub fn parse_metric_spec(input: &str) -> (r: Result<(Vec<MetricId>, AggregationSet, Option<Formatter>), ()>)
    ensures
        match spec_parts(input@) {
            None => r is Err,
            Some((pattern, aggs, fmt)) => r matches Ok(v) && v.0@ == spec_metric_ids(pattern)
                && v.1@ == aggs && v.2 == fmt,
        },
{
    let s = str_chars(input);
    // name or pattern
    let mut k: usize = 0;
    while k < s.len() && (s[k] == ':' || s[k] == '*' || ('a' <= s[k] && s[k] <= 'z'))
        invariant
            0 <= k <= s.len(),
            pattern_end(s@, 0) == pattern_end(s@, k as int),
        decreases s.len() - k,
    {
        k = k + 1;
    }
    let ghost ks = k as int;
    assert(pattern_end(s@, ks) == ks);
    let name = sub_chars(s.as_slice(), 0, k);
    assert(name@ =~= s@.subrange(0, ks));
    let mut metric_ids: Vec<MetricId> = Vec::new();
    match metric_by_name(name.as_slice()) {
        Some(id) => metric_ids.push(id),
        None => {
            expand_metric_name(&mut metric_ids, name.as_slice());
        },
    }
    assert(metric_ids@ =~= spec_metric_ids(name@));
    // optional -raw
    let mut aggs = AggregationSet::new();
    let raw_removed = crate::strings::matches_at(s.as_slice(), k, "-raw");
    let mut j = k;
    if raw_removed {
        proof { reveal_strlit("-raw"); }
        j = k + 4;
    }
    // aggregations
    let ghost j0 = j as int;
    assert(aggs@ + aggregations_from(s@, j0).0 =~= aggregations_from(s@, j0).0);
    let min_tag = str_chars("+min");
    let max_tag = str_chars("+max");
    let ratio_tag = str_chars("+ratio");
    proof {
        reveal_strlit("+min");
        reveal_strlit("+max");
        reveal_strlit("+ratio");
    }
    loop
        invariant
            j0 <= j <= s.len(),
            min_tag@ == "+min"@,
            max_tag@ == "+max"@,
            ratio_tag@ == "+ratio"@,
            min_tag@.len() == 4,
            max_tag@.len() == 4,
            ratio_tag@.len() == 6,
            aggregations_from(s@, j0).1 == aggregations_from(s@, j as int).1,
            aggregations_from(s@, j0).0 == aggs@ + aggregations_from(s@, j as int).0,
        ensures
            aggregations_from(s@, j as int) == (Set::<Aggregation>::empty(), j as int),
        decreases s.len() - j,
    {
        if j < s.len() && slice_occurs_at(s.as_slice(), j, min_tag.as_slice()) {
            aggs.set(Aggregation::Min);
            j = j + 4;
        } else if j < s.len() && slice_occurs_at(s.as_slice(), j, max_tag.as_slice()) {
            aggs.set(Aggregation::Max);
            j = j + 4;
        } else if j < s.len() && slice_occurs_at(s.as_slice(), j, ratio_tag.as_slice()) {
            aggs.set(Aggregation::Ratio);
            j = j + 6;
        } else {
            break;
        }
    }
    assert(aggs@ =~= aggregations_from(s@, j0).0);
    if !raw_removed {
        aggs.set(Aggregation::Raw);
    }
    // optional unit
    let mut fmt: Option<Formatter> = None;
    let mut e = j;
    proof {
        reveal_strlit("/ki");
        reveal_strlit("/mi");
        reveal_strlit("/gi");
        reveal_strlit("/ti");
        reveal_strlit("/k");
        reveal_strlit("/m");
        reveal_strlit("/g");
        reveal_strlit("/t");
        reveal_strlit("/sz");
        reveal_strlit("/du");
    }
    if crate::strings::matches_at(s.as_slice(), j, "/ki") {
        fmt = Some(Formatter::Kibi); e = j + 3;
    } else if crate::strings::matches_at(s.as_slice(), j, "/mi") {
        fmt = Some(Formatter::Mebi); e = j + 3;
    } else if crate::strings::matches_at(s.as_slice(), j, "/gi") {
        fmt = Some(Formatter::Gibi); e = j + 3;
    } else if crate::strings::matches_at(s.as_slice(), j, "/ti") {
        fmt = Some(Formatter::Tebi); e = j + 3;
    } else if crate::strings::matches_at(s.as_slice(), j, "/k") {
        fmt = Some(Formatter::Kilo); e = j + 2;
    } else if crate::strings::matches_at(s.as_slice(), j, "/m") {
        fmt = Some(Formatter::Mega); e = j + 2;
    } else if crate::strings::matches_at(s.as_slice(), j, "/g") {
        fmt = Some(Formatter::Giga); e = j + 2;
    } else if crate::strings::matches_at(s.as_slice(), j, "/t") {
        fmt = Some(Formatter::Tera); e = j + 2;
    } else if crate::strings::matches_at(s.as_slice(), j, "/sz") {
        fmt = Some(Formatter::Size); e = j + 3;
    } else if crate::strings::matches_at(s.as_slice(), j, "/du") {
        fmt = Some(Formatter::HumanMilliseconds); e = j + 3;
    }
    proof {
        reveal_strlit("/ki");
        reveal_strlit("/mi");
        reveal_strlit("/gi");
        reveal_strlit("/ti");
        reveal_strlit("/k");
        reveal_strlit("/m");
        reveal_strlit("/g");
        reveal_strlit("/t");
        reveal_strlit("/sz");
        reveal_strlit("/du");
    }
    if e == s.len() {
        Ok((metric_ids, aggs, fmt))
    } else {
        Err(())
    }
}


/// Multiplier of a size unit: kilo, mega, giga or tera, in either case.
pub open spec fn size_unit(c: char) -> Option<u64> {
    if c == 'k' || c == 'K' {
        Some(1_000u64)
    } else if c == 'm' || c == 'M' {
        Some(1_000_000u64)
    } else if c == 'g' || c == 'G' {
        Some(1_000_000_000u64)
    } else if c == 't' || c == 'T' {
        Some(1_000_000_000_000u64)
    } else {
        None
    }
}

/// A size: a number optionally followed by a unit, when it fits.
pub open spec fn spec_parse_size(s: Seq<char>) -> Option<u64> {
    let (digits, mult) = if s.len() > 0 && size_unit(s.last()) is Some {
        (s.drop_last(), size_unit(s.last()).unwrap())
    } else {
        (s, 1u64)
    };
    match crate::strings::spec_parse_usize(digits) {
        Some(n) => if n * mult <= u64::MAX { Some((n * mult) as u64) } else { None },
        None => None,
    }
}

fn unit_of(c: char) -> (r: Option<u64>)
    ensures
        r == size_unit(c),
{
    if c == 'k' || c == 'K' {
        Some(1_000)
    } else if c == 'm' || c == 'M' {
        Some(1_000_000)
    } else if c == 'g' || c == 'G' {
        Some(1_000_000_000)
    } else if c == 't' || c == 'T' {
        Some(1_000_000_000_000)
    } else {
        None
    }
}

/// Parse a size such as `10m` for ten millions.
pub fn parse_size(s: &str) -> (r: Result<u64, ()>)
    ensures
        r matches Ok(n) ==> spec_parse_size(s@) == Some(n),
        r is Err ==> spec_parse_size(s@) is None,
{
    let cs = crate::strings::str_chars(s);
    let n = cs.len();
    let unit = if n > 0 { unit_of(cs[n - 1]) } else { None };
    let (count, mult) = match unit {
        Some(m) => {
            let digits = crate::strings::sub_chars(cs.as_slice(), 0, n - 1);
            assert(digits@ =~= s@.drop_last());
            (crate::strings::parse_usize_chars(digits.as_slice()), m)
        },
        None => (crate::strings::parse_usize_chars(cs.as_slice()), 1u64),
    };
    match count {
        Some(c) => {
            let c64 = c as u64;
            match c64.checked_mul(mult) {
                Some(v) => Ok(v),
                None => Err(()),
            }
        },
        None => Err(()),
    }
}

} // verus!
