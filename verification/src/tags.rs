//! Release tags of the second model generation: reading `v{major}.{minor}.{patch}`
//! tags, choosing the newest compatible release, and listing the candidate
//! releases a user may pick from.
use vstd::prelude::*;

use crate::text::{
    all_digits, chars_of, copy_range, decimal_value, digit_char, digit_value, is_ascii_digit,
    lemma_split_plain, lemma_split_sep_then_plain, nat_to_decimal, parse_u32_range,
    parse_u32_spec, split_char, split_char_exec, unsigned_body,
};

verus! {

/// A `max_minor` of this value bounds only the major version.
pub const UNBOUNDED_MINOR: u32 = 0xffff_ffffu32;

/// What `v{major}.{minor}.{patch}` reads as: a leading `v`, then exactly
/// three `.`-separated parts, each read by `str::parse::<u32>`.
pub open spec fn semver_of(tag: Seq<char>) -> Option<(u32, u32, u32)> {
    if tag.len() == 0 || tag[0] != 'v' {
        None
    } else {
        let parts = split_char(tag.subrange(1, tag.len() as int), '.');
        if parts.len() != 3 {
            None
        } else {
            match (parse_u32_spec(parts[0]), parse_u32_spec(parts[1]), parse_u32_spec(parts[2])) {
                (Some(a), Some(b), Some(c)) => Some((a, b, c)),
                _ => None,
            }
        }
    }
}

/// Version order: by major, then minor, then patch.
pub open spec fn version_lt(a: (u32, u32, u32), b: (u32, u32, u32)) -> bool {
    a.0 < b.0 || (a.0 == b.0 && (a.1 < b.1 || (a.1 == b.1 && a.2 < b.2)))
}

fn part_value(p: &Vec<char>) -> (r: Option<u32>)
    ensures
        r == parse_u32_spec(p@),
{
    assert(p@.subrange(0, p@.len() as int) =~= p@);
    parse_u32_range(p, 0, p.len())
}

/// Reads a `v{major}.{minor}.{patch}` tag; `None` when it has another shape.
pub fn parse_semver_tag(tag: &str) -> (r: Option<(u32, u32, u32)>)
    ensures
        r == semver_of(tag@),
{
    let v = chars_of(tag);
    if v.len() == 0 || v[0] != 'v' {
        return None;
    }
    let rest = copy_range(&v, 1, v.len());
    let parts = split_char_exec(&rest, '.');
    proof {
        assert(parts@.map_values(|x: Vec<char>| x@).len() == parts@.len());
    }
    if parts.len() != 3 {
        return None;
    }
    proof {
        let pv = parts@.map_values(|x: Vec<char>| x@);
        assert(pv[0] == parts@[0]@);
        assert(pv[1] == parts@[1]@);
        assert(pv[2] == parts@[2]@);
    }
    let a = part_value(&parts[0]);
    let b = part_value(&parts[1]);
    let c = part_value(&parts[2]);
    match (a, b, c) {
        (Some(x), Some(y), Some(z)) => Some((x, y, z)),
        _ => None,
    }
}

/// A release as the GitHub releases API lists it (the fields used here).
#[derive(Debug, Clone)]
pub struct GhRelease {
    pub tag_name: String,
    pub published_at: Option<String>,
    pub prerelease: bool,
    pub draft: bool,
}

/// A release offered for selection.
#[derive(Debug, Clone)]
pub struct TagInfo {
    pub tag: String,
    pub published_at: Option<String>,
    pub prerelease: bool,
}

/// The version is inside the supported range: major `max_major`, and minor
/// at most `max_minor` unless that is `UNBOUNDED_MINOR`.
pub open spec fn in_range(v: (u32, u32, u32), max_major: u32, max_minor: u32) -> bool {
    v.0 == max_major && (max_minor == UNBOUNDED_MINOR || v.1 <= max_minor)
}

/// The version of a release that may be picked as the latest: a published
/// (neither draft nor pre-release) release with a tag in range.
pub open spec fn pickable(r: GhRelease, max_major: u32, max_minor: u32) -> Option<(u32, u32, u32)> {
    if r.draft || r.prerelease {
        None
    } else {
        match semver_of(r.tag_name@) {
            Some(v) => if in_range(v, max_major, max_minor) {
                Some(v)
            } else {
                None
            },
            None => None,
        }
    }
}

/// Among the first `n` releases, the position of the first pickable one
/// with the highest version.
pub open spec fn best_among(rs: Seq<GhRelease>, max_major: u32, max_minor: u32, n: int) -> Option<int>
    decreases n,
{
    if n <= 0 || n > rs.len() {
        None
    } else {
        let prev = best_among(rs, max_major, max_minor, n - 1);
        match pickable(rs[n - 1], max_major, max_minor) {
            None => prev,
            Some(v) => match prev {
                None => Some(n - 1),
                Some(p) => if version_lt(pickable(rs[p], max_major, max_minor).unwrap(), v) {
                    Some(n - 1)
                } else {
                    prev
                },
            },
        }
    }
}

/// The tag of the newest pickable release (the first of them where several
/// share the highest version), or `None` when no release is pickable.
pub fn pick_latest_tag(releases: &Vec<GhRelease>, max_major: u32, max_minor: u32) -> (r: Option<String>)
    ensures
        match best_among(releases@, max_major, max_minor, releases@.len() as int) {
            Some(i) => r matches Some(t) && t@ == releases@[i].tag_name@,
            None => r is None,
        },
{
    let mut best: Option<usize> = None;
    let mut best_v: (u32, u32, u32) = (0, 0, 0);
    let mut i: usize = 0;
    while i < releases.len()
        invariant
            i <= releases.len(),
            best_among(releases@, max_major, max_minor, i as int) == match best {
                Some(b) => Some(b as int),
                None => None::<int>,
            },
            best matches Some(b) ==> b < i && pickable(releases@[b as int], max_major, max_minor)
                == Some(best_v),
        decreases releases.len() - i,
    {
        let rel = &releases[i];
        if !rel.draft && !rel.prerelease {
            match parse_semver_tag(rel.tag_name.as_str()) {
                Some(v) => {
                    if v.0 == max_major && (max_minor == UNBOUNDED_MINOR || v.1 <= max_minor) {
                        let newer = match best {
                            None => true,
                            Some(_) => best_v.0 < v.0 || (best_v.0 == v.0 && (best_v.1 < v.1 || (
                            best_v.1 == v.1 && best_v.2 < v.2))),
                        };
                        if newer {
                            best = Some(i);
                            best_v = v;
                        }
                    }
                },
                None => {},
            }
        }
        i = i + 1;
    }
    match best {
        Some(b) => Some(releases[b].tag_name.clone()),
        None => None,
    }
}

/// The newest-release choice is right: the chosen release is pickable, no
/// pickable release has a higher version, none before it has the same one,
/// and nothing is chosen only when no release is pickable.
pub proof fn lemma_best_is_newest(rs: Seq<GhRelease>, max_major: u32, max_minor: u32, n: int)
    requires
        0 <= n <= rs.len(),
    ensures
        match best_among(rs, max_major, max_minor, n) {
            Some(b) => {
                &&& 0 <= b < n
                &&& pickable(rs[b], max_major, max_minor) is Some
                &&& forall|j: int|
                    0 <= j < n && (#[trigger] pickable(rs[j], max_major, max_minor)) is Some
                        ==> !version_lt(
                        pickable(rs[b], max_major, max_minor).unwrap(),
                        pickable(rs[j], max_major, max_minor).unwrap(),
                    )
                &&& forall|j: int|
                    0 <= j < b && (#[trigger] pickable(rs[j], max_major, max_minor)) is Some
                        ==> version_lt(
                        pickable(rs[j], max_major, max_minor).unwrap(),
                        pickable(rs[b], max_major, max_minor).unwrap(),
                    )
            },
            None => forall|j: int| 0 <= j < n ==> (#[trigger] pickable(rs[j], max_major, max_minor)) is None,
        },
    decreases n,
{
    if n > 0 {
        lemma_best_is_newest(rs, max_major, max_minor, n - 1);
    }
}

/// A release offered as a candidate: not a draft, a tag in range, and a
/// version not below `min`.
pub open spec fn offerable(r: GhRelease, max_major: u32, max_minor: u32, min: (u32, u32, u32)) -> bool {
    !r.draft && match semver_of(r.tag_name@) {
        Some(v) => in_range(v, max_major, max_minor) && !version_lt(v, min),
        None => false,
    }
}

pub open spec fn tag_info_view(t: TagInfo) -> (Seq<char>, Option<Seq<char>>, bool) {
    (
        t.tag@,
        match t.published_at {
            Some(p) => Some(p@),
            None => None,
        },
        t.prerelease,
    )
}

pub open spec fn release_info_view(r: GhRelease) -> (Seq<char>, Option<Seq<char>>, bool) {
    (
        r.tag_name@,
        match r.published_at {
            Some(p) => Some(p@),
            None => None,
        },
        r.prerelease,
    )
}

/// The candidates among the first `n` releases, in the order listed.
pub open spec fn candidates_among(
    rs: Seq<GhRelease>,
    max_major: u32,
    max_minor: u32,
    min: (u32, u32, u32),
    n: int,
) -> Seq<(Seq<char>, Option<Seq<char>>, bool)>
    decreases n,
{
    if n <= 0 || n > rs.len() {
        Seq::empty()
    } else if offerable(rs[n - 1], max_major, max_minor, min) {
        candidates_among(rs, max_major, max_minor, min, n - 1).push(release_info_view(rs[n - 1]))
    } else {
        candidates_among(rs, max_major, max_minor, min, n - 1)
    }
}

fn clone_opt(o: &Option<String>) -> (r: Option<String>)
    ensures
        match (r, *o) {
            (Some(a), Some(b)) => a@ == b@,
            (None, None) => true,
            _ => false,
        },
{
    match o {
        Some(s) => Some(s.clone()),
        None => None,
    }
}

/// The releases offered for selection, in the order listed: drafts, tags
/// of another shape or out of range, and versions below `min` are left
/// out; pre-releases stay.
pub fn filter_candidate_tags(
    releases: &Vec<GhRelease>,
    max_major: u32,
    max_minor: u32,
    min: (u32, u32, u32),
) -> (r: Vec<TagInfo>)
    ensures
        r@.map_values(|t: TagInfo| tag_info_view(t)) == candidates_among(
            releases@,
            max_major,
            max_minor,
            min,
            releases@.len() as int,
        ),
{
    let mut out: Vec<TagInfo> = Vec::new();
    let mut i: usize = 0;
    while i < releases.len()
        invariant
            i <= releases.len(),
            out@.map_values(|t: TagInfo| tag_info_view(t)) == candidates_among(
                releases@,
                max_major,
                max_minor,
                min,
                i as int,
            ),
        decreases releases.len() - i,
    {
        let rel = &releases[i];
        if !rel.draft {
            match parse_semver_tag(rel.tag_name.as_str()) {
                Some(v) => {
                    let below = v.0 < min.0 || (v.0 == min.0 && (v.1 < min.1 || (v.1 == min.1
                        && v.2 < min.2)));
                    if v.0 == max_major && (max_minor == UNBOUNDED_MINOR || v.1 <= max_minor)
                        && !below {
                        let info = TagInfo {
                            tag: rel.tag_name.clone(),
                            published_at: clone_opt(&rel.published_at),
                            prerelease: rel.prerelease,
                        };
                        let ghost before = out@.map_values(|t: TagInfo| tag_info_view(t));
                        out.push(info);
                        proof {
                            assert(tag_info_view(info) == release_info_view(releases@[i as int]));
                            assert(out@.map_values(|t: TagInfo| tag_info_view(t)) =~= before.push(
                                tag_info_view(info),
                            ));
                        }
                    }
                },
                None => {},
            }
        }
        i = i + 1;
    }
    out
}

/// `v{major}.{minor}.{patch}`, each part in decimal.
pub open spec fn semver_text(v: (u32, u32, u32)) -> Seq<char> {
    seq!['v'] + nat_to_decimal(v.0 as nat) + seq!['.'] + nat_to_decimal(v.1 as nat) + seq!['.']
        + nat_to_decimal(v.2 as nat)
}

proof fn lemma_digit_char(d: nat)
    requires
        d < 10,
    ensures
        is_ascii_digit(digit_char(d)),
        digit_value(digit_char(d)) == d,
{
}

proof fn lemma_decimal_of_nat(n: nat)
    ensures
        nat_to_decimal(n).len() > 0,
        all_digits(nat_to_decimal(n)),
        decimal_value(nat_to_decimal(n)) == n,
    decreases n,
{
    let s = nat_to_decimal(n);
    if n < 10 {
        lemma_digit_char(n);
        assert(s.drop_last() =~= Seq::<char>::empty());
        assert(s.last() == digit_char(n));
        assert(decimal_value(s) == decimal_value(s.drop_last()) * 10 + digit_value(s.last()));
    } else {
        lemma_decimal_of_nat(n / 10);
        lemma_digit_char(n % 10);
        assert(s.drop_last() =~= nat_to_decimal(n / 10));
        assert((n / 10) * 10 + n % 10 == n) by (nonlinear_arith);
        assert(s.last() == digit_char(n % 10));
        assert(decimal_value(s) == decimal_value(s.drop_last()) * 10 + digit_value(s.last()));
        assert forall|i: int| 0 <= i < s.len() implies is_ascii_digit(#[trigger] s[i]) by {
            if i < s.len() - 1 {
                assert(s[i] == nat_to_decimal(n / 10)[i]);
            }
        }
    }
}

proof fn lemma_parse_decimal(n: u32)
    ensures
        parse_u32_spec(nat_to_decimal(n as nat)) == Some(n),
        forall|k: int| 0 <= k < nat_to_decimal(n as nat).len() ==> #[trigger] nat_to_decimal(n as nat)[k] != '.',
{
    let s = nat_to_decimal(n as nat);
    lemma_decimal_of_nat(n as nat);
    assert(is_ascii_digit(s[0]));
    assert(unsigned_body(s) == s);
    assert forall|k: int| 0 <= k < s.len() implies #[trigger] s[k] != '.' by {
        assert(is_ascii_digit(s[k]));
    }
}

/// A tag written as `v{major}.{minor}.{patch}` reads back as the same
/// version.
pub proof fn lemma_semver_round_trip(v: (u32, u32, u32))
    ensures
        semver_of(semver_text(v)) == Some(v),
{
    let a = nat_to_decimal(v.0 as nat);
    let b = nat_to_decimal(v.1 as nat);
    let c = nat_to_decimal(v.2 as nat);
    lemma_parse_decimal(v.0);
    lemma_parse_decimal(v.1);
    lemma_parse_decimal(v.2);
    let t = semver_text(v);
    let body = a + seq!['.'] + b + seq!['.'] + c;
    assert(t =~= seq!['v'] + body);
    assert(t.subrange(1, t.len() as int) =~= body);
    lemma_split_plain(a, '.');
    lemma_split_sep_then_plain(a, b, '.');
    lemma_split_sep_then_plain(a + seq!['.'] + b, c, '.');
    assert(seq![a].push(b).push(c) =~= seq![a, b, c]);
}

} // verus!
