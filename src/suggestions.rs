//! Turning one scan into a ranked list of cleanup suggestions.
use vstd::prelude::*;
use crate::docker::{
    is_default_network, is_default_network_name, ContainerState, DockerResourceType,
    DockerScanResult, DockerSuggestion,
};
use crate::scoring::{
    size_score, SIZE_SMALL, container_reasons, container_score, image_reasons, image_score, joined, network_reasons,
    network_score, score_container, score_image, score_network, score_volume, text,
    volume_reasons, volume_score, FULL_SCORE,
};
use crate::sizes::{format_size, format_size_spec};
use crate::text::{chars_eq_str, chars_of, push_all, push_str_chars, string_of, string_views};

verus! {

/// A candidate: the kind of resource and its position in the scan's list of
/// that kind (0 for the build cache).
pub type Candidate = (DockerResourceType, int);

pub open spec fn stopped_candidates(scan: DockerScanResult, n: int) -> Seq<Candidate>
    decreases n,
{
    if n <= 0 {
        Seq::empty()
    } else if scan.containers@[n - 1].state != ContainerState::Running {
        stopped_candidates(scan, n - 1).push((DockerResourceType::Container, n - 1))
    } else {
        stopped_candidates(scan, n - 1)
    }
}

pub open spec fn image_candidates(scan: DockerScanResult, n: int) -> Seq<Candidate>
    decreases n,
{
    if n <= 0 {
        Seq::empty()
    } else if scan.images@[n - 1].is_dangling || scan.images@[n - 1].used_by_containers@.len()
        == 0 {
        image_candidates(scan, n - 1).push((DockerResourceType::Image, n - 1))
    } else {
        image_candidates(scan, n - 1)
    }
}

pub open spec fn volume_candidates(scan: DockerScanResult, n: int) -> Seq<Candidate>
    decreases n,
{
    if n <= 0 {
        Seq::empty()
    } else if scan.volumes@[n - 1].used_by_containers@.len() == 0 {
        volume_candidates(scan, n - 1).push((DockerResourceType::Volume, n - 1))
    } else {
        volume_candidates(scan, n - 1)
    }
}

pub open spec fn network_candidates(scan: DockerScanResult, n: int) -> Seq<Candidate>
    decreases n,
{
    if n <= 0 {
        Seq::empty()
    } else if scan.networks@[n - 1].used_by_containers@.len() == 0 && !is_default_network_name(
        scan.networks@[n - 1].name@,
    ) {
        network_candidates(scan, n - 1).push((DockerResourceType::Network, n - 1))
    } else {
        network_candidates(scan, n - 1)
    }
}

/// The candidates of a scan in the order in which they are found: stopped
/// containers, dangling or unused images, orphan volumes, unused networks
/// that are not built in, and the build cache when it is not empty.
pub open spec fn candidates(scan: DockerScanResult) -> Seq<Candidate> {
    stopped_candidates(scan, scan.containers@.len() as int) + image_candidates(
        scan,
        scan.images@.len() as int,
    ) + volume_candidates(scan, scan.volumes@.len() as int) + network_candidates(
        scan,
        scan.networks@.len() as int,
    ) + if scan.build_cache_size > 0 {
        seq![(DockerResourceType::BuildCache, 0int)]
    } else {
        Seq::empty()
    }
}

/// The score that a candidate receives.
pub open spec fn candidate_score(scan: DockerScanResult, c: Candidate) -> nat {
    match c.0 {
        DockerResourceType::Container => container_score(scan.containers@[c.1]),
        DockerResourceType::Image => image_score(scan.images@[c.1]),
        DockerResourceType::Volume => volume_score(scan.volumes@[c.1]),
        DockerResourceType::Network => network_score(scan.networks@[c.1]),
        DockerResourceType::BuildCache => 800,
    }
}

/// The candidates of `cs` whose score is `s`, in order.
pub open spec fn with_score(scan: DockerScanResult, cs: Seq<Candidate>, s: int) -> Seq<Candidate>
    decreases cs.len(),
{
    if cs.len() == 0 {
        Seq::empty()
    } else if candidate_score(scan, cs.last()) == s {
        with_score(scan, cs.drop_last(), s).push(cs.last())
    } else {
        with_score(scan, cs.drop_last(), s)
    }
}

/// The candidates of `cs` with a score above `s`, highest score first and in
/// order among equal scores.
pub open spec fn ranked_above(scan: DockerScanResult, cs: Seq<Candidate>, s: int) -> Seq<
    Candidate,
>
    decreases 1000 - s,
{
    if s >= 1000 {
        Seq::empty()
    } else {
        ranked_above(scan, cs, s + 1) + with_score(scan, cs, s + 1)
    }
}

/// The candidates of a scan, ranked by score, highest first; a stable order.
pub open spec fn ranked(scan: DockerScanResult) -> Seq<Candidate> {
    ranked_above(scan, candidates(scan), -1)
}

pub open spec fn none_repository() -> Seq<char> {
    seq!['<', 'n', 'o', 'n', 'e', '>']
}

/// The first twelve characters of `id`, or all of it when shorter.
pub open spec fn short_id(id: Seq<char>) -> Seq<char> {
    if id.len() > 12 {
        id.subrange(0, 12)
    } else {
        id
    }
}

/// The suggestion made for a candidate of the scan.
pub open spec fn suggests(s: DockerSuggestion, scan: DockerScanResult, c: Candidate) -> bool {
    &&& s.resource_type == c.0
    &&& s.score == candidate_score(scan, c)
    &&& match c.0 {
        DockerResourceType::Container => {
            let k = scan.containers@[c.1];
            &&& s.id@ == k.id@
            &&& s.name@ == k.name@
            &&& s.size == k.size
            &&& string_views(s.reasons@) == container_reasons(k)
            &&& s.auto_select == (k.state == ContainerState::Dead)
        },
        DockerResourceType::Image => {
            let k = scan.images@[c.1];
            &&& s.id@ == k.id@
            &&& s.name@ == if k.repository@ == none_repository() {
                short_id(k.id@) + "..."@
            } else {
                k.repository@ + ":"@ + k.tag@
            }
            &&& s.size == k.size
            &&& string_views(s.reasons@) == image_reasons(k)
            &&& s.auto_select == k.is_dangling
        },
        DockerResourceType::Volume => {
            let k = scan.volumes@[c.1];
            &&& s.id@ == k.name@
            &&& s.name@ == k.name@
            &&& s.size == match k.size {
                Some(n) => n,
                None => 0,
            }
            &&& string_views(s.reasons@) == volume_reasons(k)
            &&& s.auto_select == (k.used_by_containers@.len() == 0)
        },
        DockerResourceType::Network => {
            let k = scan.networks@[c.1];
            &&& s.id@ == k.id@
            &&& s.name@ == k.name@
            &&& s.size == 0
            &&& string_views(s.reasons@) == network_reasons(k)
            &&& !s.auto_select
        },
        DockerResourceType::BuildCache => {
            &&& s.id@ == "build_cache"@
            &&& s.name@ == "Docker Build Cache"@
            &&& s.size == scan.build_cache_size
            &&& string_views(s.reasons@) == seq![
                "Build cache: "@ + format_size_spec(scan.build_cache_size as nat),
                "Can be safely removed"@,
            ]
            &&& !s.auto_select
        },
    }
}

/// A candidate that indexes an entry of its list.
pub open spec fn valid_candidate(scan: DockerScanResult, c: Candidate) -> bool {
    match c.0 {
        DockerResourceType::Container => 0 <= c.1 < scan.containers@.len(),
        DockerResourceType::Image => 0 <= c.1 < scan.images@.len(),
        DockerResourceType::Volume => 0 <= c.1 < scan.volumes@.len(),
        DockerResourceType::Network => 0 <= c.1 < scan.networks@.len(),
        DockerResourceType::BuildCache => true,
    }
}

pub open spec fn exec_candidates(v: Seq<(DockerResourceType, usize)>) -> Seq<Candidate> {
    v.map_values(|c: (DockerResourceType, usize)| (c.0, c.1 as int))
}

/// The candidates of a scan, with their scores.
fn collect_candidates(scan: &DockerScanResult) -> (r: (Vec<(DockerResourceType, usize)>, Vec<u64>))
    ensures
        exec_candidates(r.0@) == candidates(*scan),
        r.1@.len() == r.0@.len(),
        forall|k: int|
            0 <= k < r.0@.len() ==> #[trigger] r.1@[k] == candidate_score(
                *scan,
                exec_candidates(r.0@)[k],
            ),
        forall|k: int| 0 <= k < r.0@.len() ==> valid_candidate(*scan, exec_candidates(r.0@)[k]),
{
    let mut cands: Vec<(DockerResourceType, usize)> = Vec::new();
    let mut scores: Vec<u64> = Vec::new();
    let ghost sc = *scan;
    let mut i: usize = 0;
    assert(exec_candidates(cands@) =~= stopped_candidates(sc, 0));
    while i < scan.containers.len()
        invariant
            sc == *scan,
            i <= scan.containers.len(),
            exec_candidates(cands@) == stopped_candidates(sc, i as int),
            scores@.len() == cands@.len(),
            forall|k: int|
                0 <= k < cands@.len() ==> #[trigger] scores@[k] == candidate_score(
                    sc,
                    exec_candidates(cands@)[k],
                ),
            forall|k: int| 0 <= k < cands@.len() ==> valid_candidate(sc, exec_candidates(cands@)[k]),
        decreases scan.containers.len() - i,
    {
        if scan.containers[i].state != ContainerState::Running {
            let (score, _, _) = score_container(&scan.containers[i]);
            cands.push((DockerResourceType::Container, i));
            scores.push(score);
        }
        assert(exec_candidates(cands@) =~= stopped_candidates(sc, i + 1));
        i = i + 1;
    }
    let ghost part1 = exec_candidates(cands@);
    let mut i: usize = 0;
    assert(exec_candidates(cands@) =~= part1 + image_candidates(sc, 0));
    while i < scan.images.len()
        invariant
            sc == *scan,
            i <= scan.images.len(),
            exec_candidates(cands@) == part1 + image_candidates(sc, i as int),
            scores@.len() == cands@.len(),
            forall|k: int|
                0 <= k < cands@.len() ==> #[trigger] scores@[k] == candidate_score(
                    sc,
                    exec_candidates(cands@)[k],
                ),
            forall|k: int| 0 <= k < cands@.len() ==> valid_candidate(sc, exec_candidates(cands@)[k]),
        decreases scan.images.len() - i,
    {
        if scan.images[i].is_dangling || scan.images[i].used_by_containers.len() == 0 {
            let (score, _, _) = score_image(&scan.images[i]);
            let ghost prev = exec_candidates(cands@);
            cands.push((DockerResourceType::Image, i));
            scores.push(score);
            assert(exec_candidates(cands@) =~= prev.push((DockerResourceType::Image, i as int)));
            assert(image_candidates(sc, i + 1) == image_candidates(sc, i as int).push((DockerResourceType::Image, i as int)));
        } else {
            assert(image_candidates(sc, i + 1) == image_candidates(sc, i as int));
        }
        assert(exec_candidates(cands@) =~= part1 + image_candidates(sc, i + 1));
        i = i + 1;
    }
    let ghost part2 = exec_candidates(cands@);
    let mut i: usize = 0;
    assert(exec_candidates(cands@) =~= part2 + volume_candidates(sc, 0));
    while i < scan.volumes.len()
        invariant
            sc == *scan,
            i <= scan.volumes.len(),
            exec_candidates(cands@) == part2 + volume_candidates(sc, i as int),
            scores@.len() == cands@.len(),
            forall|k: int|
                0 <= k < cands@.len() ==> #[trigger] scores@[k] == candidate_score(
                    sc,
                    exec_candidates(cands@)[k],
                ),
            forall|k: int| 0 <= k < cands@.len() ==> valid_candidate(sc, exec_candidates(cands@)[k]),
        decreases scan.volumes.len() - i,
    {
        if scan.volumes[i].used_by_containers.len() == 0 {
            let (score, _, _) = score_volume(&scan.volumes[i]);
            let ghost prev = exec_candidates(cands@);
            cands.push((DockerResourceType::Volume, i));
            scores.push(score);
            assert(exec_candidates(cands@) =~= prev.push((DockerResourceType::Volume, i as int)));
            assert(volume_candidates(sc, i + 1) == volume_candidates(sc, i as int).push((DockerResourceType::Volume, i as int)));
        } else {
            assert(volume_candidates(sc, i + 1) == volume_candidates(sc, i as int));
        }
        assert(exec_candidates(cands@) =~= part2 + volume_candidates(sc, i + 1));
        i = i + 1;
    }
    let ghost part3 = exec_candidates(cands@);
    let mut i: usize = 0;
    assert(exec_candidates(cands@) =~= part3 + network_candidates(sc, 0));
    while i < scan.networks.len()
        invariant
            sc == *scan,
            i <= scan.networks.len(),
            exec_candidates(cands@) == part3 + network_candidates(sc, i as int),
            scores@.len() == cands@.len(),
            forall|k: int|
                0 <= k < cands@.len() ==> #[trigger] scores@[k] == candidate_score(
                    sc,
                    exec_candidates(cands@)[k],
                ),
            forall|k: int| 0 <= k < cands@.len() ==> valid_candidate(sc, exec_candidates(cands@)[k]),
        decreases scan.networks.len() - i,
    {
        if scan.networks[i].used_by_containers.len() == 0 && !is_default_network(
            scan.networks[i].name.as_str(),
        ) {
            let (score, _, _) = score_network(&scan.networks[i]);
            let ghost prev = exec_candidates(cands@);
            cands.push((DockerResourceType::Network, i));
            scores.push(score);
            assert(exec_candidates(cands@) =~= prev.push((DockerResourceType::Network, i as int)));
            assert(network_candidates(sc, i + 1) == network_candidates(sc, i as int).push((DockerResourceType::Network, i as int)));
        } else {
            assert(network_candidates(sc, i + 1) == network_candidates(sc, i as int));
        }
        assert(exec_candidates(cands@) =~= part3 + network_candidates(sc, i + 1));
        i = i + 1;
    }
    if scan.build_cache_size > 0 {
        cands.push((DockerResourceType::BuildCache, 0));
        scores.push(800);
    }
    assert(exec_candidates(cands@) =~= candidates(sc));
    (cands, scores)
}

/// Appends to `out` the candidates whose score is `s`, in order.
fn push_with_score(
    Ghost(scan): Ghost<DockerScanResult>,
    out: &mut Vec<(DockerResourceType, usize)>,
    cands: &Vec<(DockerResourceType, usize)>,
    scores: &Vec<u64>,
    s: u64,
)
    requires
        scores@.len() == cands@.len(),
        forall|k: int|
            0 <= k < cands@.len() ==> #[trigger] scores@[k] == candidate_score(
                scan,
                exec_candidates(cands@)[k],
            ),
        forall|k: int| 0 <= k < old(out)@.len() ==> cands@.contains(#[trigger] old(out)@[k]),
    ensures
        exec_candidates(final(out)@) == exec_candidates(old(out)@) + with_score(
            scan,
            exec_candidates(cands@),
            s as int,
        ),
        forall|k: int| 0 <= k < final(out)@.len() ==> cands@.contains(#[trigger] final(out)@[k]),
{
    let ghost cv = exec_candidates(cands@);
    let ghost base = exec_candidates(out@);
    let mut j: usize = 0;
    assert(cv.subrange(0, 0) =~= Seq::<Candidate>::empty());
    assert(exec_candidates(out@) =~= base + with_score(scan, cv.subrange(0, 0), s as int));
    while j < cands.len()
        invariant
            j <= cands.len(),
            scores@.len() == cands@.len(),
            cv == exec_candidates(cands@),
            forall|k: int|
                0 <= k < cands@.len() ==> #[trigger] scores@[k] == candidate_score(scan, cv[k]),
            exec_candidates(out@) == base + with_score(scan, cv.subrange(0, j as int), s as int),
            forall|k: int| 0 <= k < out@.len() ==> cands@.contains(#[trigger] out@[k]),
        decreases cands.len() - j,
    {
        let ghost sub = cv.subrange(0, j + 1);
        assert(sub.drop_last() =~= cv.subrange(0, j as int));
        assert(sub.last() == cv[j as int]);
        if scores[j] == s {
            let ghost prev = exec_candidates(out@);
            out.push(cands[j]);
            assert(exec_candidates(out@) =~= prev.push(cv[j as int]));
            assert(cands@.contains(cands@[j as int]));
        }
        assert(exec_candidates(out@) =~= base + with_score(scan, sub, s as int));
        j = j + 1;
    }
    assert(cv.subrange(0, cv.len() as int) =~= cv);
}

/// The candidates in ranked order: for each score from 1000 down to 0, the
/// candidates with that score in the order in which they were found.
fn rank(
    Ghost(scan): Ghost<DockerScanResult>,
    cands: &Vec<(DockerResourceType, usize)>,
    scores: &Vec<u64>,
) -> (r: Vec<(DockerResourceType, usize)>)
    requires
        scores@.len() == cands@.len(),
        forall|k: int|
            0 <= k < cands@.len() ==> #[trigger] scores@[k] == candidate_score(
                scan,
                exec_candidates(cands@)[k],
            ),
    ensures
        exec_candidates(r@) == ranked_above(scan, exec_candidates(cands@), -1),
        forall|k: int| 0 <= k < r@.len() ==> cands@.contains(#[trigger] r@[k]),
{
    let ghost cv = exec_candidates(cands@);
    let mut out: Vec<(DockerResourceType, usize)> = Vec::new();
    let mut s: u64 = FULL_SCORE;
    assert(exec_candidates(out@) =~= ranked_above(scan, cv, 1000));
    loop
        invariant_except_break
            exec_candidates(out@) == ranked_above(scan, cv, s as int),
        invariant
            s <= 1000,
            scores@.len() == cands@.len(),
            cv == exec_candidates(cands@),
            forall|k: int|
                0 <= k < cands@.len() ==> #[trigger] scores@[k] == candidate_score(scan, cv[k]),
            forall|k: int| 0 <= k < out@.len() ==> cands@.contains(#[trigger] out@[k]),
        ensures
            exec_candidates(out@) == ranked_above(scan, cv, -1),
            forall|k: int| 0 <= k < out@.len() ==> cands@.contains(#[trigger] out@[k]),
        decreases s,
    {
        push_with_score(Ghost(scan), &mut out, cands, scores, s);
        assert(ranked_above(scan, cv, s - 1) == ranked_above(scan, cv, s as int) + with_score(
            scan,
            cv,
            s as int,
        ));
        if s == 0 {
            assert(exec_candidates(out@) == ranked_above(scan, cv, -1));
            break;
        }
        s = s - 1;
    }
    out
}

/// The display name of an image: a short id for an untagged one, else
/// `repository:tag`.
fn image_name(id: &String, repository: &String, tag: &String) -> (r: String)
    ensures
        r@ == if repository@ == none_repository() {
            short_id(id@) + "..."@
        } else {
            repository@ + ":"@ + tag@
        },
{
    proof {
        reveal_strlit("<none>");
        assert("<none>"@ =~= none_repository());
    }
    let repo = chars_of(repository.as_str());
    let mut out: Vec<char> = Vec::new();
    if chars_eq_str(&repo, "<none>") {
        let idc = chars_of(id.as_str());
        let n: usize = if idc.len() > 12 {
            12
        } else {
            idc.len()
        };
        let mut i: usize = 0;
        while i < n
            invariant
                i <= n <= idc.len(),
                out@ == idc@.subrange(0, i as int),
            decreases n - i,
        {
            out.push(idc[i]);
            i = i + 1;
            assert(out@ =~= idc@.subrange(0, i as int));
        }
        assert(idc@.subrange(0, idc@.len() as int) =~= idc@);
        push_str_chars(&mut out, "...");
    } else {
        push_all(&mut out, &repo);
        push_str_chars(&mut out, ":");
        push_str_chars(&mut out, tag.as_str());
    }
    string_of(&out)
}

/// The suggestion for one candidate of the scan.
fn make_suggestion(scan: &DockerScanResult, kind: DockerResourceType, idx: usize) -> (r:
    DockerSuggestion)
    requires
        valid_candidate(*scan, (kind, idx as int)),
    ensures
        suggests(r, *scan, (kind, idx as int)),
{
    match kind {
        DockerResourceType::Container => {
            let c = &scan.containers[idx];
            let (score, reasons, auto_select) = score_container(c);
            DockerSuggestion {
                resource_type: kind,
                id: c.id.clone(),
                name: c.name.clone(),
                size: c.size,
                score,
                reasons,
                auto_select,
            }
        },
        DockerResourceType::Image => {
            let img = &scan.images[idx];
            let (score, reasons, auto_select) = score_image(img);
            DockerSuggestion {
                resource_type: kind,
                id: img.id.clone(),
                name: image_name(&img.id, &img.repository, &img.tag),
                size: img.size,
                score,
                reasons,
                auto_select,
            }
        },
        DockerResourceType::Volume => {
            let v = &scan.volumes[idx];
            let (score, reasons, auto_select) = score_volume(v);
            DockerSuggestion {
                resource_type: kind,
                id: v.name.clone(),
                name: v.name.clone(),
                size: match v.size {
                    Some(n) => n,
                    None => 0,
                },
                score,
                reasons,
                auto_select,
            }
        },
        DockerResourceType::Network => {
            let n = &scan.networks[idx];
            let (score, reasons, auto_select) = score_network(n);
            DockerSuggestion {
                resource_type: kind,
                id: n.id.clone(),
                name: n.name.clone(),
                size: 0,
                score,
                reasons,
                auto_select,
            }
        },
        DockerResourceType::BuildCache => {
            let mut reasons: Vec<String> = Vec::new();
            let f = format_size(scan.build_cache_size);
            reasons.push(joined("Build cache: ", f.as_str()));
            reasons.push(text("Can be safely removed"));
            assert(string_views(reasons@) =~= seq![
                "Build cache: "@ + format_size_spec(scan.build_cache_size as nat),
                "Can be safely removed"@,
            ]);
            DockerSuggestion {
                resource_type: kind,
                id: text("build_cache"),
                name: text("Docker Build Cache"),
                size: scan.build_cache_size,
                score: 800,
                reasons,
                auto_select: false,
            }
        },
    }
}

/// The ranked cleanup suggestions of a scan: stopped containers, dangling or
/// unused images, orphan volumes, unused networks that are not built in, and
/// the build cache when it is not empty, highest score first. A scan of an
/// unreachable engine gives none.
pub fn get_docker_suggestions(scan: &DockerScanResult) -> (r: Vec<DockerSuggestion>)
    ensures
        !scan.daemon_running ==> r@.len() == 0,
        scan.daemon_running ==> r@.len() == ranked(*scan).len(),
        scan.daemon_running ==> forall|k: int|
            0 <= k < r@.len() ==> suggests(#[trigger] r@[k], *scan, ranked(*scan)[k]),
        forall|k: int|
            0 <= k < r@.len() && (#[trigger] r@[k]).resource_type == DockerResourceType::Network
                ==> !is_default_network_name(r@[k].name@)
                && scan.networks@[ranked(*scan)[k].1].used_by_containers@.len() == 0
                && r@[k].id@ == scan.networks@[ranked(*scan)[k].1].id@,
{
    let mut out: Vec<DockerSuggestion> = Vec::new();
    if !scan.daemon_running {
        return out;
    }
    let (cands, scores) = collect_candidates(scan);
    let order = rank(Ghost(*scan), &cands, &scores);
    let ghost rv = exec_candidates(order@);
    assert(rv.len() == order@.len());
    let mut i: usize = 0;
    while i < order.len()
        invariant
            i <= order.len(),
            rv == exec_candidates(order@),
            rv == ranked(*scan),
            forall|k: int| 0 <= k < order@.len() ==> cands@.contains(#[trigger] order@[k]),
            forall|k: int|
                0 <= k < cands@.len() ==> valid_candidate(*scan, exec_candidates(cands@)[k]),
            out@.len() == i,
            forall|k: int| 0 <= k < i ==> suggests(#[trigger] out@[k], *scan, rv[k]),
        decreases order.len() - i,
    {
        let (kind, idx) = order[i];
        proof {
            assert(cands@.contains(order@[i as int]));
            let k = choose|k: int| 0 <= k < cands@.len() && cands@[k] == order@[i as int];
            assert(exec_candidates(cands@)[k] == (kind, idx as int));
        }
        assert(rv[i as int] == (kind, idx as int));
        out.push(make_suggestion(scan, kind, idx));
        i = i + 1;
    }
    proof {
        assert forall|k: int|
            0 <= k < out@.len() && (#[trigger] out@[k]).resource_type == DockerResourceType::Network
                implies !is_default_network_name(out@[k].name@)
                && scan.networks@[ranked(*scan)[k].1].used_by_containers@.len() == 0
                && out@[k].id@ == scan.networks@[ranked(*scan)[k].1].id@ by {
            assert(suggests(out@[k], *scan, ranked(*scan)[k]));
            lemma_suggested_networks_unused(*scan, k);
        }
    }
    out
}

/// Every candidate's score lies between 0 and 1 (1000 thousandths).
pub proof fn lemma_scores_bounded(scan: DockerScanResult, c: Candidate)
    requires
        valid_candidate(scan, c),
    ensures
        candidate_score(scan, c) <= 1000,
{
    match c.0 {
        DockerResourceType::Image => {
            let k = scan.images@[c.1];
            if !k.is_dangling {
                assert(size_score(k.size as nat) <= 1000) by {
                    if k.size < SIZE_SMALL {
                        assert((k.size as nat) * 400 / (SIZE_SMALL as nat) <= 400) by (
                        nonlinear_arith)
                            requires
                                (k.size as nat) < SIZE_SMALL,
                        ;
                    }
                }
            }
        },
        _ => {},
    }
}

/// Auto-selection follows the product rule: dangling images and orphan
/// volumes are always pre-selected; exited (not dead) containers, images
/// that are not dangling, and networks never are.
pub proof fn lemma_auto_select_policy(s: DockerSuggestion, scan: DockerScanResult, c: Candidate)
    requires
        suggests(s, scan, c),
    ensures
        c.0 == DockerResourceType::Image && scan.images@[c.1].is_dangling ==> s.auto_select,
        c.0 == DockerResourceType::Volume && scan.volumes@[c.1].used_by_containers@.len() == 0
            ==> s.auto_select,
        c.0 == DockerResourceType::Container && scan.containers@[c.1].state
            == ContainerState::Exited ==> !s.auto_select,
        c.0 == DockerResourceType::Image && !scan.images@[c.1].is_dangling ==> !s.auto_select,
        c.0 == DockerResourceType::Network ==> !s.auto_select,
        c.0 == DockerResourceType::BuildCache ==> !s.auto_select,
{
}

/// A built-in network (bridge, host, none) is never a cleanup candidate.
pub proof fn lemma_default_networks_never_suggested(scan: DockerScanResult, k: int)
    requires
        0 <= k < candidates(scan).len(),
        candidates(scan)[k].0 == DockerResourceType::Network,
    ensures
        !is_default_network_name(scan.networks@[candidates(scan)[k].1].name@),
        scan.networks@[candidates(scan)[k].1].used_by_containers@.len() == 0,
{
    let a = stopped_candidates(scan, scan.containers@.len() as int);
    let b = image_candidates(scan, scan.images@.len() as int);
    let v = volume_candidates(scan, scan.volumes@.len() as int);
    let n = network_candidates(scan, scan.networks@.len() as int);
    let t: Seq<Candidate> = if scan.build_cache_size > 0 {
        seq![(DockerResourceType::BuildCache, 0int)]
    } else {
        Seq::empty()
    };
    lemma_stopped_kind(scan, scan.containers@.len() as int);
    lemma_image_kind(scan, scan.images@.len() as int);
    lemma_volume_kind(scan, scan.volumes@.len() as int);
    lemma_network_not_default(scan, scan.networks@.len() as int);
    assert(candidates(scan) == a + b + v + n + t);
    let j = k - a.len() - b.len() - v.len();
    if k < a.len() {
        assert(candidates(scan)[k] == a[k]);
    } else if k < a.len() + b.len() {
        assert(candidates(scan)[k] == b[k - a.len()]);
    } else if k < a.len() + b.len() + v.len() {
        assert(candidates(scan)[k] == v[k - a.len() - b.len()]);
    } else if j < n.len() {
        assert(candidates(scan)[k] == n[j]);
    } else {
        assert(candidates(scan)[k] == t[j - n.len()]);
    }
}

proof fn lemma_stopped_kind(scan: DockerScanResult, m: int)
    ensures
        forall|k: int|
            0 <= k < stopped_candidates(scan, m).len() ==> (#[trigger] stopped_candidates(scan, m)[k]).0
                == DockerResourceType::Container,
    decreases m,
{
    if m > 0 {
        lemma_stopped_kind(scan, m - 1);
    }
}

proof fn lemma_image_kind(scan: DockerScanResult, m: int)
    ensures
        forall|k: int|
            0 <= k < image_candidates(scan, m).len() ==> (#[trigger] image_candidates(scan, m)[k]).0
                == DockerResourceType::Image,
    decreases m,
{
    if m > 0 {
        lemma_image_kind(scan, m - 1);
    }
}

proof fn lemma_volume_kind(scan: DockerScanResult, m: int)
    ensures
        forall|k: int|
            0 <= k < volume_candidates(scan, m).len() ==> (#[trigger] volume_candidates(scan, m)[k]).0
                == DockerResourceType::Volume,
    decreases m,
{
    if m > 0 {
        lemma_volume_kind(scan, m - 1);
    }
}

proof fn lemma_network_not_default(scan: DockerScanResult, m: int)
    ensures
        forall|k: int|
            0 <= k < network_candidates(scan, m).len() ==> !is_default_network_name(
                scan.networks@[(#[trigger] network_candidates(scan, m)[k]).1].name@,
            ) && scan.networks@[network_candidates(scan, m)[k].1].used_by_containers@.len() == 0,
    decreases m,
{
    if m > 0 {
        lemma_network_not_default(scan, m - 1);
        let p = network_candidates(scan, m - 1);
        let q = network_candidates(scan, m);
        assert forall|k: int| 0 <= k < q.len() implies !is_default_network_name(
            scan.networks@[(#[trigger] q[k]).1].name@,
        ) && scan.networks@[q[k].1].used_by_containers@.len() == 0 by {
            if k < p.len() {
                assert(q[k] == p[k]);
            }
        }
    }
}

proof fn lemma_with_score_exact(scan: DockerScanResult, cs: Seq<Candidate>, t: int)
    ensures
        forall|k: int|
            0 <= k < with_score(scan, cs, t).len() ==> candidate_score(
                scan,
                #[trigger] with_score(scan, cs, t)[k],
            ) == t,
    decreases cs.len(),
{
    if cs.len() > 0 {
        lemma_with_score_exact(scan, cs.drop_last(), t);
        let p = with_score(scan, cs.drop_last(), t);
        let q = with_score(scan, cs, t);
        assert forall|k: int| 0 <= k < q.len() implies candidate_score(scan, #[trigger] q[k]) == t by {
            if k < p.len() {
                assert(q[k] == p[k]);
            }
        }
    }
}

proof fn lemma_ranked_above_sorted(scan: DockerScanResult, cs: Seq<Candidate>, s: int)
    ensures
        forall|k: int|
            0 <= k < ranked_above(scan, cs, s).len() ==> candidate_score(
                scan,
                #[trigger] ranked_above(scan, cs, s)[k],
            ) > s,
        forall|i: int, j: int|
            0 <= i < j < ranked_above(scan, cs, s).len() ==> candidate_score(
                scan,
                #[trigger] ranked_above(scan, cs, s)[i],
            ) >= candidate_score(scan, #[trigger] ranked_above(scan, cs, s)[j]),
    decreases 1000 - s,
{
    if s < 1000 {
        lemma_ranked_above_sorted(scan, cs, s + 1);
        lemma_with_score_exact(scan, cs, s + 1);
        let a = ranked_above(scan, cs, s + 1);
        let b = with_score(scan, cs, s + 1);
        let r = ranked_above(scan, cs, s);
        assert(r == a + b);
        assert forall|k: int| 0 <= k < r.len() implies candidate_score(scan, #[trigger] r[k]) > s by {
            if k < a.len() {
                assert(r[k] == a[k]);
            } else {
                assert(r[k] == b[k - a.len()]);
            }
        }
        assert forall|i: int, j: int| 0 <= i < j < r.len() implies candidate_score(
            scan,
            #[trigger] r[i],
        ) >= candidate_score(scan, #[trigger] r[j]) by {
            if j < a.len() {
                assert(r[i] == a[i]);
                assert(r[j] == a[j]);
            } else if i < a.len() {
                assert(r[i] == a[i]);
                assert(r[j] == b[j - a.len()]);
            } else {
                assert(r[i] == b[i - a.len()]);
                assert(r[j] == b[j - a.len()]);
            }
        }
    }
}

/// The suggestions come highest score first: along the ranked candidates of
/// a scan, scores never increase.
pub proof fn lemma_suggestions_sorted(scan: DockerScanResult, i: int, j: int)
    requires
        0 <= i < j < ranked(scan).len(),
    ensures
        candidate_score(scan, ranked(scan)[i]) >= candidate_score(scan, ranked(scan)[j]),
{
    lemma_ranked_above_sorted(scan, candidates(scan), -1);
}

proof fn lemma_with_score_members(scan: DockerScanResult, cs: Seq<Candidate>, t: int)
    ensures
        forall|k: int|
            0 <= k < with_score(scan, cs, t).len() ==> cs.contains(
                #[trigger] with_score(scan, cs, t)[k],
            ),
    decreases cs.len(),
{
    if cs.len() > 0 {
        lemma_with_score_members(scan, cs.drop_last(), t);
        let p = with_score(scan, cs.drop_last(), t);
        let q = with_score(scan, cs, t);
        assert forall|k: int| 0 <= k < q.len() implies cs.contains(#[trigger] q[k]) by {
            if k < p.len() {
                assert(q[k] == p[k]);
                let j = choose|j: int| 0 <= j < cs.drop_last().len() && cs.drop_last()[j] == p[k];
                assert(cs[j] == p[k]);
            } else {
                assert(cs[cs.len() - 1] == q[k]);
            }
        }
    }
}

proof fn lemma_ranked_above_members(scan: DockerScanResult, cs: Seq<Candidate>, s: int)
    ensures
        forall|k: int|
            0 <= k < ranked_above(scan, cs, s).len() ==> cs.contains(
                #[trigger] ranked_above(scan, cs, s)[k],
            ),
    decreases 1000 - s,
{
    if s < 1000 {
        lemma_ranked_above_members(scan, cs, s + 1);
        lemma_with_score_members(scan, cs, s + 1);
        let a = ranked_above(scan, cs, s + 1);
        let b = with_score(scan, cs, s + 1);
        let r = ranked_above(scan, cs, s);
        assert(r == a + b);
        assert forall|k: int| 0 <= k < r.len() implies cs.contains(#[trigger] r[k]) by {
            if k < a.len() {
                assert(r[k] == a[k]);
            } else {
                assert(r[k] == b[k - a.len()]);
            }
        }
    }
}

/// Every network that the suggestions name is unused and not built in.
pub proof fn lemma_suggested_networks_unused(scan: DockerScanResult, k: int)
    requires
        0 <= k < ranked(scan).len(),
        ranked(scan)[k].0 == DockerResourceType::Network,
    ensures
        !is_default_network_name(scan.networks@[ranked(scan)[k].1].name@),
        scan.networks@[ranked(scan)[k].1].used_by_containers@.len() == 0,
{
    lemma_ranked_above_members(scan, candidates(scan), -1);
    let c = ranked(scan)[k];
    assert(candidates(scan).contains(c));
    let j = choose|j: int| 0 <= j < candidates(scan).len() && candidates(scan)[j] == c;
    lemma_default_networks_never_suggested(scan, j);
}

/// The suggestions that are auto-selected, in order.
pub open spec fn auto_selected_of(s: Seq<DockerSuggestion>) -> Seq<DockerSuggestion>
    decreases s.len(),
{
    if s.len() == 0 {
        Seq::empty()
    } else if s.last().auto_select {
        auto_selected_of(s.drop_last()).push(s.last())
    } else {
        auto_selected_of(s.drop_last())
    }
}

/// The suggestions that may be cleaned without asking item by item: those
/// marked auto-select, in order.
pub fn auto_selected(suggestions: Vec<DockerSuggestion>) -> (r: Vec<DockerSuggestion>)
    ensures
        r@ == auto_selected_of(suggestions@),
{
    let mut items = suggestions;
    let ghost orig = items@;
    let n = items.len();
    let mut rev: Vec<DockerSuggestion> = Vec::new();
    while items.len() > 0
        invariant
            orig.len() == n,
            items@ == orig.subrange(0, items@.len() as int),
            rev@.len() + items@.len() == n,
            forall|j: int| 0 <= j < rev@.len() ==> rev@[j] == orig[n - 1 - j],
        decreases items@.len(),
    {
        let x = items.pop().unwrap();
        rev.push(x);
    }
    let mut kept: Vec<DockerSuggestion> = Vec::new();
    let mut t: usize = 0;
    assert(kept@ =~= auto_selected_of(orig.subrange(0, 0)));
    while rev.len() > 0
        invariant
            orig.len() == n,
            rev@.len() + t == n,
            forall|j: int| 0 <= j < rev@.len() ==> rev@[j] == orig[n - 1 - j],
            kept@ == auto_selected_of(orig.subrange(0, t as int)),
        decreases rev@.len(),
    {
        let x = rev.pop().unwrap();
        assert(x == orig[t as int]);
        let ghost sub = orig.subrange(0, t + 1);
        assert(sub.drop_last() =~= orig.subrange(0, t as int));
        if x.auto_select {
            kept.push(x);
        }
        t = t + 1;
    }
    assert(orig.subrange(0, n as int) =~= orig);
    kept
}

} // verus!
