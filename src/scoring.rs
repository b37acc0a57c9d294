//! Scoring of cleanup candidates. A score is a weighted sum of sub-scores, in
//! thousandths: 1000 stands for 1.0. Size weighs 0.3, age 0.3 and usage 0.4.
use vstd::prelude::*;
use crate::docker::{ContainerState, DockerContainer, DockerImage, DockerNetwork, DockerVolume};
use crate::sizes::{format_size, format_size_spec};
use crate::text::{
    chars_of, contains, contains_str, digits_value, find, is_digit, lower_chars, lower_of, occurs_at, push_str_chars, string_of, string_views, trim, trim_chars, views, words, words_of,
};

verus! {

/// 1 GiB: from here a size scores in full.
pub const SIZE_LARGE: u64 = 1073741824;

/// 500 MiB.
pub const SIZE_MEDIUM: u64 = 524288000;

/// 100 MiB.
pub const SIZE_SMALL: u64 = 104857600;

/// Weight of the size sub-score, in thousandths.
pub const SIZE_WEIGHT: u64 = 300;

/// Weight of the age sub-score, in thousandths.
pub const AGE_WEIGHT: u64 = 300;

/// Weight of the usage sub-score, in thousandths.
pub const USAGE_WEIGHT: u64 = 400;

/// The full score.
pub const FULL_SCORE: u64 = 1000;

/// Size sub-score in thousandths: 1000 from 1 GiB, 700 from 500 MiB, 400 from
/// 100 MiB, and below that linear in the size up to 400.
pub open spec fn size_score(size: nat) -> nat {
    if size >= SIZE_LARGE {
        1000
    } else if size >= SIZE_MEDIUM {
        700
    } else if size >= SIZE_SMALL {
        400
    } else {
        size * 400 / (SIZE_SMALL as nat)
    }
}

/// The size sub-score of `size` bytes, in thousandths.
pub fn calculate_size_score(size: u64) -> (r: u64)
    ensures
        r == size_score(size as nat),
        r <= FULL_SCORE,
{
    if size >= SIZE_LARGE {
        1000
    } else if size >= SIZE_MEDIUM {
        700
    } else if size >= SIZE_SMALL {
        400
    } else {
        assert((size as int) * 400 <= 104857600 * 400) by (nonlinear_arith)
            requires
                size < 104857600,
        ;
        assert((size as int) * 400 / 104857600 <= 400) by (nonlinear_arith)
            requires
                (size as int) * 400 <= 104857600 * 400,
        ;
        size * 400 / SIZE_SMALL
    }
}

pub open spec fn all_digits(d: Seq<char>) -> bool {
    forall|i: int| 0 <= i < d.len() ==> is_digit(#[trigger] d[i])
}

/// A decimal number as `u64::from_str` reads it: an optional `+`, then one
/// or more digits, with a value that fits.
pub open spec fn parse_u64(w: Seq<char>) -> Option<nat> {
    let d = if w.len() > 0 && w[0] == '+' {
        w.drop_first()
    } else {
        w
    };
    if d.len() >= 1 && all_digits(d) && digits_value(d) <= u64::MAX {
        Some(digits_value(d))
    } else {
        None
    }
}

/// The first position of `unit` in `s`.
pub open spec fn first_occurrence(s: Seq<char>, unit: Seq<char>) -> int {
    choose|i: int| occurs_at(s, unit, i) && forall|k: int| 0 <= k < i ==> !occurs_at(s, unit, k)
}

/// The number written just before the first occurrence of `unit` in `s`
/// ("2 weeks ago", "weeks" gives 2): the last word before it, read as a `u64`.
pub open spec fn number_before(s: Seq<char>, unit: Seq<char>) -> Option<nat> {
    if contains(s, unit) {
        let ws = words(trim(s.subrange(0, first_occurrence(s, unit))));
        if ws.len() == 0 {
            None
        } else {
            parse_u64(ws.last())
        }
    } else {
        None
    }
}

fn parse_u64_exec(w: &Vec<char>) -> (r: Option<u64>)
    ensures
        r matches Some(v) ==> parse_u64(w@) == Some(v as nat),
        r is None ==> parse_u64(w@) is None,
{
    let start: usize = if w.len() > 0 && w[0] == '+' {
        1
    } else {
        0
    };
    let ghost d = if w@.len() > 0 && w@[0] == '+' {
        w@.drop_first()
    } else {
        w@
    };
    assert(d =~= w@.subrange(start as int, w@.len() as int));
    if start >= w.len() {
        assert(d.len() == 0);
        return None;
    }
    let mut v: u64 = 0;
    let mut i: usize = start;
    assert(w@.subrange(start as int, start as int).len() == 0);
    while i < w.len()
        invariant
            start <= i <= w.len(),
            d == w@.subrange(start as int, w@.len() as int),
            d == (if w@.len() > 0 && w@[0] == '+' {
                w@.drop_first()
            } else {
                w@
            }),
            forall|k: int| start <= k < i ==> is_digit(#[trigger] w@[k]),
            v == digits_value(w@.subrange(start as int, i as int)),
        decreases w.len() - i,
    {
        let c = w[i];
        if !('0' <= c && c <= '9') {
            assert(d[i - start] == c);
            assert(!is_digit(d[i - start]));
            return None;
        }
        let dv = (c as u32 - '0' as u32) as u64;
        let ghost sub = w@.subrange(start as int, i + 1);
        assert(sub.drop_last() =~= w@.subrange(start as int, i as int));
        assert(sub.last() == c);
        if v > (u64::MAX - dv) / 10 {
            proof {
                assert(v * 10 + dv > u64::MAX) by (nonlinear_arith)
                    requires
                        v > (u64::MAX - dv) / 10,
                        dv <= 9,
                ;
                lemma_digits_value_monotone(d, i - start + 1);
                assert(d.subrange(0, i - start + 1) =~= sub);
            }
            return None;
        }
        assert(v * 10 + dv <= u64::MAX) by (nonlinear_arith)
            requires
                v <= (u64::MAX - dv) / 10,
                dv <= 9,
        ;
        v = v * 10 + dv;
        i = i + 1;
    }
    assert(w@.subrange(start as int, w@.len() as int) =~= d);
    assert forall|k: int| 0 <= k < d.len() implies is_digit(#[trigger] d[k]) by {
        assert(d[k] == w@[start + k]);
    }
    Some(v)
}

/// A prefix of a run of digits is worth no more than the whole run.
proof fn lemma_digits_value_monotone(d: Seq<char>, n: int)
    requires
        0 <= n <= d.len(),
    ensures
        digits_value(d.subrange(0, n)) <= digits_value(d),
    decreases d.len() - n,
{
    if n < d.len() {
        lemma_digits_value_monotone(d.drop_last(), n);
        assert(d.drop_last().subrange(0, n) =~= d.subrange(0, n));
    } else {
        assert(d.subrange(0, n) =~= d);
    }
}

/// The number written just before the first occurrence of `unit` in `s`.
pub fn extract_number(s: &str, unit: &str) -> (r: Option<u64>)
    ensures
        r matches Some(v) ==> number_before(s@, unit@) == Some(v as nat),
        r is None ==> number_before(s@, unit@) is None,
{
    let sc = chars_of(s);
    let uc = chars_of(unit);
    match find(&sc, &uc) {
        None => None,
        Some(pos) => {
            proof {
                assert(contains(s@, unit@));
                let f = first_occurrence(s@, unit@);
                if f < pos {
                    assert(!occurs_at(s@, unit@, f));
                }
                if pos < f {
                    assert(!occurs_at(s@, unit@, pos as int));
                }
                assert(f == pos);
            }
            let mut before: Vec<char> = Vec::new();
            let mut i: usize = 0;
            while i < pos
                invariant
                    i <= pos <= sc.len(),
                    before@ == sc@.subrange(0, i as int),
                decreases pos - i,
            {
                before.push(sc[i]);
                i = i + 1;
                assert(before@ =~= sc@.subrange(0, i as int));
            }
            let t = trim_chars(&before);
            let ws = words_of(&t);
            assert(views(ws@).len() == ws@.len());
            if ws.len() == 0 {
                None
            } else {
                assert(ws@[ws.len() - 1]@ == words(t@).last());
                parse_u64_exec(&ws[ws.len() - 1])
            }
        },
    }
}

/// Age sub-score in thousandths, from a lower-case status text such as
/// "exited (0) 2 weeks ago".
pub open spec fn age_score_lower(l: Seq<char>) -> nat {
    if contains(l, "months"@) || contains(l, "year"@) {
        1000
    } else if contains(l, "weeks"@) {
        let w = match number_before(l, "weeks"@) {
            Some(n) => n,
            None => 1,
        };
        if w >= 4 {
            900
        } else if w >= 2 {
            600
        } else {
            300
        }
    } else if contains(l, "days"@) {
        let d = match number_before(l, "days"@) {
            Some(n) => n,
            None => 1,
        };
        if d >= 30 {
            800
        } else if d >= 7 {
            500
        } else {
            200
        }
    } else if contains(l, "hours"@) {
        100
    } else {
        0
    }
}

/// The age sub-score of a lower-case status text, in thousandths.
pub fn age_score_of_lowercase(l: &str) -> (r: u64)
    ensures
        r == age_score_lower(l@),
        r <= FULL_SCORE,
{
    let c = chars_of(l);
    if contains_str(&c, "months") || contains_str(&c, "year") {
        1000
    } else if contains_str(&c, "weeks") {
        let w = match extract_number(l, "weeks") {
            Some(n) => n,
            None => 1,
        };
        if w >= 4 {
            900
        } else if w >= 2 {
            600
        } else {
            300
        }
    } else if contains_str(&c, "days") {
        let d = match extract_number(l, "days") {
            Some(n) => n,
            None => 1,
        };
        if d >= 30 {
            800
        } else if d >= 7 {
            500
        } else {
            200
        }
    } else if contains_str(&c, "hours") {
        100
    } else {
        0
    }
}

/// The age sub-score of a container's status text, in thousandths.
pub fn estimate_age_score(status: &str) -> (r: u64)
    ensures
        r == age_score_lower(lower_of(status@)),
        r <= FULL_SCORE,
{
    let c = chars_of(status);
    let l = lower_chars(&c);
    let ls = string_of(&l);
    age_score_of_lowercase(ls.as_str())
}

/// `prefix` followed by `rest`.
pub fn joined(prefix: &str, rest: &str) -> (r: String)
    ensures
        r@ == prefix@ + rest@,
{
    let mut out: Vec<char> = Vec::new();
    push_str_chars(&mut out, prefix);
    push_str_chars(&mut out, rest);
    assert(out@ =~= prefix@ + rest@);
    string_of(&out)
}

/// The text of a string literal as an owned string.
pub fn text(s: &str) -> (r: String)
    ensures
        r@ == s@,
{
    s.to_owned()
}

/// The reasons that a size gives: "Large size: 1.5 GB" from 1 GiB,
/// "Size: 600.0 MB" from 500 MiB, none below.
pub open spec fn size_reasons(size: nat) -> Seq<Seq<char>> {
    if size >= SIZE_LARGE {
        seq!["Large size: "@ + format_size_spec(size)]
    } else if size >= SIZE_MEDIUM {
        seq!["Size: "@ + format_size_spec(size)]
    } else {
        Seq::empty()
    }
}

fn push_size_reasons(reasons: &mut Vec<String>, size: u64)
    ensures
        string_views(final(reasons)@) == string_views(old(reasons)@) + size_reasons(size as nat),
{
    let ghost before = string_views(reasons@);
    if size >= SIZE_LARGE {
        let f = format_size(size);
        reasons.push(joined("Large size: ", f.as_str()));
    } else if size >= SIZE_MEDIUM {
        let f = format_size(size);
        reasons.push(joined("Size: ", f.as_str()));
    }
    assert(string_views(reasons@) =~= before + size_reasons(size as nat));
}

/// Points that a container's state adds, in thousandths: the full usage
/// weight for an exited or dead container, half of it for one created but
/// never started.
pub open spec fn state_points(st: ContainerState) -> nat {
    match st {
        ContainerState::Exited => 400,
        ContainerState::Dead => 400,
        ContainerState::Created => 200,
        _ => 0,
    }
}

pub open spec fn state_reasons(st: ContainerState) -> Seq<Seq<char>> {
    match st {
        ContainerState::Exited => seq!["Container has exited"@],
        ContainerState::Dead => seq!["Container is dead"@],
        ContainerState::Created => seq!["Container was created but never started"@],
        _ => Seq::empty(),
    }
}

pub open spec fn min_full(v: nat) -> nat {
    if v > 1000 {
        1000
    } else {
        v
    }
}

pub open spec fn container_age(c: DockerContainer) -> nat {
    age_score_lower(lower_of(c.status@))
}

/// A container's score: 0.3 of its size sub-score, its state points and 0.3
/// of its age sub-score, at most 1000.
pub open spec fn container_score(c: DockerContainer) -> nat {
    min_full(size_score(c.size as nat) * 3 / 10 + state_points(c.state) + container_age(c) * 3 / 10)
}

pub open spec fn container_reasons(c: DockerContainer) -> Seq<Seq<char>> {
    size_reasons(c.size as nat) + state_reasons(c.state) + if container_age(c) >= 800 {
        seq!["Not used for a long time"@]
    } else {
        Seq::empty()
    }
}

/// Score, reasons and auto-selection of a stopped container; only dead
/// containers are auto-selected.
pub fn score_container(container: &DockerContainer) -> (r: (u64, Vec<String>, bool))
    ensures
        r.0 == container_score(*container),
        r.0 <= FULL_SCORE,
        string_views(r.1@) == container_reasons(*container),
        r.2 == (container.state == ContainerState::Dead),
{
    let mut reasons: Vec<String> = Vec::new();
    let size_score = calculate_size_score(container.size);
    push_size_reasons(&mut reasons, container.size);
    let ghost after_size = string_views(reasons@);
    let state_pts: u64 = match container.state {
        ContainerState::Exited => {
            reasons.push(text("Container has exited"));
            USAGE_WEIGHT
        },
        ContainerState::Dead => {
            reasons.push(text("Container is dead"));
            USAGE_WEIGHT
        },
        ContainerState::Created => {
            reasons.push(text("Container was created but never started"));
            USAGE_WEIGHT / 2
        },
        _ => 0,
    };
    assert(string_views(reasons@) =~= after_size + state_reasons(container.state));
    let age = estimate_age_score(container.status.as_str());
    if age >= 800 {
        reasons.push(text("Not used for a long time"));
    }
    assert(string_views(reasons@) =~= container_reasons(*container));
    let total = size_score * 3 / 10 + state_pts + age * 3 / 10;
    let score = if total > FULL_SCORE {
        FULL_SCORE
    } else {
        total
    };
    (score, reasons, container.state == ContainerState::Dead)
}

/// An image's score: 1000 when dangling; otherwise the usage weight when no
/// container uses it, plus 0.3 of its size sub-score.
pub open spec fn image_score(img: DockerImage) -> nat {
    if img.is_dangling {
        1000
    } else {
        (if img.used_by_containers@.len() == 0 {
            400nat
        } else {
            0nat
        }) + size_score(img.size as nat) * 3 / 10
    }
}

pub open spec fn image_reasons(img: DockerImage) -> Seq<Seq<char>> {
    (if img.is_dangling {
        seq!["Dangling image (untagged)"@]
    } else if img.used_by_containers@.len() == 0 {
        seq!["Not used by any container"@]
    } else {
        Seq::empty()
    }) + size_reasons(img.size as nat)
}

/// Score, reasons and auto-selection of an image; only dangling images are
/// auto-selected.
pub fn score_image(image: &DockerImage) -> (r: (u64, Vec<String>, bool))
    ensures
        r.0 == image_score(*image),
        r.0 <= FULL_SCORE,
        string_views(r.1@) == image_reasons(*image),
        r.2 == image.is_dangling,
{
    let mut reasons: Vec<String> = Vec::new();
    let score: u64;
    if image.is_dangling {
        score = FULL_SCORE;
        reasons.push(text("Dangling image (untagged)"));
    } else {
        let usage: u64 = if image.used_by_containers.len() == 0 {
            reasons.push(text("Not used by any container"));
            USAGE_WEIGHT
        } else {
            0
        };
        score = usage + calculate_size_score(image.size) * 3 / 10;
    }
    push_size_reasons(&mut reasons, image.size);
    assert(string_views(reasons@) =~= image_reasons(*image));
    (score, reasons, image.is_dangling)
}

/// A volume's score: 1000 when no container uses it, 0 otherwise.
pub open spec fn volume_score(v: DockerVolume) -> nat {
    if v.used_by_containers@.len() == 0 {
        1000
    } else {
        0
    }
}

pub open spec fn volume_reasons(v: DockerVolume) -> Seq<Seq<char>> {
    (if v.used_by_containers@.len() == 0 {
        seq!["Orphan volume (not used by any container)"@]
    } else {
        Seq::empty()
    }) + match v.size {
        Some(n) => size_reasons(n as nat),
        None => Seq::empty(),
    }
}

/// Score, reasons and auto-selection of a volume; orphan volumes are
/// auto-selected.
pub fn score_volume(volume: &DockerVolume) -> (r: (u64, Vec<String>, bool))
    ensures
        r.0 == volume_score(*volume),
        r.0 <= FULL_SCORE,
        string_views(r.1@) == volume_reasons(*volume),
        r.2 == (volume.used_by_containers@.len() == 0),
{
    let mut reasons: Vec<String> = Vec::new();
    let orphan = volume.used_by_containers.len() == 0;
    let score: u64 = if orphan {
        reasons.push(text("Orphan volume (not used by any container)"));
        FULL_SCORE
    } else {
        0
    };
    match volume.size {
        Some(n) => push_size_reasons(&mut reasons, n),
        None => {},
    }
    assert(string_views(reasons@) =~= volume_reasons(*volume));
    (score, reasons, orphan)
}

/// A network's score: 900 when no container uses it, 300 otherwise.
pub open spec fn network_score(n: DockerNetwork) -> nat {
    if n.used_by_containers@.len() == 0 {
        900
    } else {
        300
    }
}

pub open spec fn network_reasons(n: DockerNetwork) -> Seq<Seq<char>> {
    if n.used_by_containers@.len() == 0 {
        seq!["Not used by any container"@]
    } else {
        Seq::empty()
    }
}

/// Score, reasons and auto-selection of a network; networks are never
/// auto-selected, as they cost no space and may be kept on purpose.
pub fn score_network(network: &DockerNetwork) -> (r: (u64, Vec<String>, bool))
    ensures
        r.0 == network_score(*network),
        r.0 <= FULL_SCORE,
        string_views(r.1@) == network_reasons(*network),
        !r.2,
{
    let mut reasons: Vec<String> = Vec::new();
    let score: u64 = if network.used_by_containers.len() == 0 {
        reasons.push(text("Not used by any container"));
        900
    } else {
        300
    };
    assert(string_views(reasons@) =~= network_reasons(*network));
    (score, reasons, false)
}

} // verus!
