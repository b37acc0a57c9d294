//! Reading the engine's tabular listings into records, cross-referencing
//! which containers use which images, volumes and networks, and deriving a
//! scan's summary counts and reclaimable space.
use vstd::prelude::*;
use crate::docker::{
    is_default_network, is_default_network_name, state_of, ContainerState, DockerContainer,
    DockerImage, DockerNetwork, DockerScanResult, DockerVolume,
};
use crate::sizes::{cap, docker_size, parse_docker_size};
use crate::text::{
    chars_eq, chars_eq_str, chars_of, contains, contains_str, lines, lines_of, lower_chars, lower_of, split, split_chars, starts_with_str, string_of, string_views, trim, trim_chars, views,
};

verus! {

/// Field `i` of a row, or the empty text where the row is shorter.
pub open spec fn field(p: Seq<Seq<char>>, i: int) -> Seq<char> {
    if 0 <= i < p.len() {
        p[i]
    } else {
        Seq::empty()
    }
}

/// A line that is not blank and has at least `n` tab-separated fields.
pub open spec fn is_row(l: Seq<char>, n: nat) -> bool {
    trim(l).len() > 0 && split(l, '\t').len() >= n
}

/// The lines that are rows of at least `n` fields, in order.
pub open spec fn rows(ls: Seq<Seq<char>>, n: nat) -> Seq<Seq<char>>
    decreases ls.len(),
{
    if ls.len() == 0 {
        Seq::empty()
    } else if is_row(ls.last(), n) {
        rows(ls.drop_last(), n).push(ls.last())
    } else {
        rows(ls.drop_last(), n)
    }
}

/// The containers that `pairs` lists against `key`, in order.
pub open spec fn users(pairs: Seq<(Seq<char>, Seq<char>)>, key: Seq<char>) -> Seq<Seq<char>>
    decreases pairs.len(),
{
    if pairs.len() == 0 {
        Seq::empty()
    } else if pairs.last().0 == key {
        users(pairs.drop_last(), key).push(pairs.last().1)
    } else {
        users(pairs.drop_last(), key)
    }
}

pub open spec fn pair_views(v: Seq<(String, String)>) -> Seq<(Seq<char>, Seq<char>)> {
    v.map_values(|p: (String, String)| (p.0@, p.1@))
}

/// A container read from one row of the container listing.
pub open spec fn container_from_row(c: DockerContainer, l: Seq<char>) -> bool {
    let p = split(l, '\t');
    &&& c.id@ == p[0]
    &&& c.name@ == p[1]
    &&& c.image@ == p[2]
    &&& c.status@ == p[3]
    &&& c.state == state_of(p[4])
    &&& c.size == docker_size(p[5])
    &&& c.created@ == field(p, 6)
    &&& c.ports@ == field(p, 7)
}

pub open spec fn none_tag() -> Seq<char> {
    seq!['<', 'n', 'o', 'n', 'e', '>']
}

/// An image read from one row of the image listing: dangling when the
/// dangling filter lists its id or when repository and tag are both
/// "<none>"; used by the containers that `usage` lists against its id.
pub open spec fn image_from_row(
    img: DockerImage,
    l: Seq<char>,
    dangling: Seq<Seq<char>>,
    usage: Seq<(Seq<char>, Seq<char>)>,
) -> bool {
    let p = split(l, '\t');
    &&& img.id@ == p[0]
    &&& img.repository@ == p[1]
    &&& img.tag@ == p[2]
    &&& img.size == docker_size(p[3])
    &&& img.created@ == field(p, 4)
    &&& img.is_dangling == (dangling.contains(p[0]) || (p[1] == none_tag() && p[2] == none_tag()))
    &&& string_views(img.used_by_containers@) == users(usage, p[0])
}

/// A volume read from one row of the volume listing; its size is unknown.
pub open spec fn volume_from_row(
    v: DockerVolume,
    l: Seq<char>,
    usage: Seq<(Seq<char>, Seq<char>)>,
) -> bool {
    let p = split(l, '\t');
    &&& v.name@ == p[0]
    &&& v.driver@ == p[1]
    &&& v.mountpoint@ == field(p, 2)
    &&& v.size is None
    &&& string_views(v.used_by_containers@) == users(usage, p[0])
}

/// A network read from one row of the network listing, used by the
/// containers that `usage` lists against its name.
pub open spec fn network_from_row(
    n: DockerNetwork,
    l: Seq<char>,
    usage: Seq<(Seq<char>, Seq<char>)>,
) -> bool {
    let p = split(l, '\t');
    &&& n.id@ == p[0]
    &&& n.name@ == p[1]
    &&& n.driver@ == p[2]
    &&& n.scope@ == field(p, 3)
    &&& string_views(n.used_by_containers@) == users(usage, p[1])
}

/// The fields of `l` when it is a row of at least `n` fields.
fn row_fields(l: &Vec<char>, n: usize) -> (r: Option<Vec<Vec<char>>>)
    ensures
        r is Some == is_row(l@, n as nat),
        r matches Some(p) ==> views(p@) == split(l@, '\t'),
{
    let t = trim_chars(l);
    if t.len() == 0 {
        return None;
    }
    let p = split_chars(l, '\t');
    assert(views(p@).len() == p@.len());
    if p.len() >= n {
        Some(p)
    } else {
        None
    }
}

/// Field `i` of `p` as a string, or the empty string.
fn field_string(p: &Vec<Vec<char>>, i: usize) -> (r: String)
    ensures
        r@ == field(views(p@), i as int),
{
    if i < p.len() {
        string_of(&p[i])
    } else {
        string_of(&Vec::new())
    }
}

proof fn lemma_rows_step(lv: Seq<Seq<char>>, i: int, n: nat)
    requires
        0 <= i < lv.len(),
    ensures
        rows(lv.subrange(0, i + 1), n) == if is_row(lv[i], n) {
            rows(lv.subrange(0, i), n).push(lv[i])
        } else {
            rows(lv.subrange(0, i), n)
        },
{
    let s = lv.subrange(0, i + 1);
    assert(s.drop_last() =~= lv.subrange(0, i));
    assert(s.last() == lv[i]);
}

/// The containers of the container listing
/// (`ID, Names, Image, Status, State, Size, CreatedAt, Ports`, tab-separated).
/// Blank lines and rows of fewer than six fields are skipped.
pub fn parse_containers(stdout: &str) -> (r: Vec<DockerContainer>)
    ensures
        r@.len() == rows(lines(stdout@), 6).len(),
        forall|k: int|
            0 <= k < r@.len() ==> container_from_row(#[trigger] r@[k], rows(lines(stdout@), 6)[k]),
{
    let s = chars_of(stdout);
    let ls = lines_of(&s);
    let ghost lv = lines(stdout@);
    let mut out: Vec<DockerContainer> = Vec::new();
    let mut i: usize = 0;
    assert(lv.subrange(0, 0) =~= Seq::<Seq<char>>::empty());
    while i < ls.len()
        invariant
            i <= ls.len(),
            views(ls@) == lv,
            out@.len() == rows(lv.subrange(0, i as int), 6).len(),
            forall|k: int|
                0 <= k < out@.len() ==> container_from_row(
                    #[trigger] out@[k],
                    rows(lv.subrange(0, i as int), 6)[k],
                ),
        decreases ls.len() - i,
    {
        proof {
            lemma_rows_step(lv, i as int, 6);
        }
        assert(ls@[i as int]@ == lv[i as int]);
        match row_fields(&ls[i], 6) {
            Some(p) => {
                let ghost pv = views(p@);
                assert(pv.len() == p@.len());
                assert(p@[4]@ == pv[4]);
                assert(p@[5]@ == pv[5]);
                let state_text = string_of(&p[4]);
                let size_text = string_of(&p[5]);
                let c = DockerContainer {
                    id: string_of(&p[0]),
                    name: string_of(&p[1]),
                    image: string_of(&p[2]),
                    status: string_of(&p[3]),
                    state: ContainerState::parse(state_text.as_str()),
                    size: parse_docker_size(size_text.as_str()),
                    created: field_string(&p, 6),
                    ports: field_string(&p, 7),
                };
                out.push(c);
            },
            None => {},
        }
        i = i + 1;
    }
    assert(lv.subrange(0, lv.len() as int) =~= lv);
    out
}

/// Non-blank lines, trimmed.
pub open spec fn trimmed_lines(ls: Seq<Seq<char>>) -> Seq<Seq<char>>
    decreases ls.len(),
{
    if ls.len() == 0 {
        Seq::empty()
    } else if trim(ls.last()).len() > 0 {
        trimmed_lines(ls.drop_last()).push(trim(ls.last()))
    } else {
        trimmed_lines(ls.drop_last())
    }
}

/// The image ids that the dangling filter printed, one per line.
pub fn parse_dangling_ids(stdout: &str) -> (r: Vec<String>)
    ensures
        string_views(r@) == trimmed_lines(lines(stdout@)),
{
    let s = chars_of(stdout);
    let ls = lines_of(&s);
    let ghost lv = lines(stdout@);
    let mut out: Vec<String> = Vec::new();
    let mut i: usize = 0;
    assert(string_views(out@) =~= trimmed_lines(lv.subrange(0, 0)));
    while i < ls.len()
        invariant
            i <= ls.len(),
            views(ls@) == lv,
            string_views(out@) == trimmed_lines(lv.subrange(0, i as int)),
        decreases ls.len() - i,
    {
        let ghost sub = lv.subrange(0, i + 1);
        assert(sub.drop_last() =~= lv.subrange(0, i as int));
        assert(ls@[i as int]@ == lv[i as int]);
        let t = trim_chars(&ls[i]);
        if t.len() > 0 {
            out.push(string_of(&t));
        }
        assert(string_views(out@) =~= trimmed_lines(sub));
        i = i + 1;
    }
    assert(lv.subrange(0, lv.len() as int) =~= lv);
    out
}

/// Whether `ids` lists `id`.
fn lists(ids: &Vec<String>, id: &Vec<char>) -> (r: bool)
    ensures
        r == string_views(ids@).contains(id@),
{
    let mut i: usize = 0;
    while i < ids.len()
        invariant
            i <= ids.len(),
            forall|k: int| 0 <= k < i ==> ids@[k]@ != id@,
        decreases ids.len() - i,
    {
        let c = chars_of(ids[i].as_str());
        if chars_eq(&c, id) {
            assert(string_views(ids@)[i as int] == id@);
            return true;
        }
        i = i + 1;
    }
    proof {
        if string_views(ids@).contains(id@) {
            let k = choose|k: int| 0 <= k < ids@.len() && string_views(ids@)[k] == id@;
            assert(ids@[k]@ == id@);
        }
    }
    false
}

/// The containers that `pairs` lists against `key`.
pub fn users_of(pairs: &Vec<(String, String)>, key: &Vec<char>) -> (r: Vec<String>)
    ensures
        string_views(r@) == users(pair_views(pairs@), key@),
{
    let ghost pv = pair_views(pairs@);
    let mut out: Vec<String> = Vec::new();
    let mut i: usize = 0;
    assert(string_views(out@) =~= users(pv.subrange(0, 0), key@));
    while i < pairs.len()
        invariant
            i <= pairs.len(),
            pv == pair_views(pairs@),
            string_views(out@) == users(pv.subrange(0, i as int), key@),
        decreases pairs.len() - i,
    {
        let ghost sub = pv.subrange(0, i + 1);
        assert(sub.drop_last() =~= pv.subrange(0, i as int));
        assert(sub.last() == (pairs@[i as int].0@, pairs@[i as int].1@));
        let k = chars_of(pairs[i].0.as_str());
        if chars_eq(&k, key) {
            out.push(pairs[i].1.clone());
        }
        assert(string_views(out@) =~= users(sub, key@));
        i = i + 1;
    }
    assert(pv.subrange(0, pv.len() as int) =~= pv);
    out
}

/// The images of the image listing (`ID, Repository, Tag, Size, CreatedAt`),
/// marked dangling and annotated with their users. Blank lines and rows of
/// fewer than four fields are skipped.
pub fn parse_images(stdout: &str, dangling_ids: &Vec<String>, usage: &Vec<(String, String)>) -> (r:
    Vec<DockerImage>)
    ensures
        r@.len() == rows(lines(stdout@), 4).len(),
        forall|k: int|
            0 <= k < r@.len() ==> image_from_row(
                #[trigger] r@[k],
                rows(lines(stdout@), 4)[k],
                string_views(dangling_ids@),
                pair_views(usage@),
            ),
{
    let s = chars_of(stdout);
    let ls = lines_of(&s);
    let ghost lv = lines(stdout@);
    let ghost dv = string_views(dangling_ids@);
    let ghost uv = pair_views(usage@);
    let mut out: Vec<DockerImage> = Vec::new();
    let mut i: usize = 0;
    proof {
        reveal_strlit("<none>");
        assert("<none>"@ =~= none_tag());
    }
    while i < ls.len()
        invariant
            i <= ls.len(),
            views(ls@) == lv,
            dv == string_views(dangling_ids@),
            uv == pair_views(usage@),
            "<none>"@ == none_tag(),
            out@.len() == rows(lv.subrange(0, i as int), 4).len(),
            forall|k: int|
                0 <= k < out@.len() ==> image_from_row(
                    #[trigger] out@[k],
                    rows(lv.subrange(0, i as int), 4)[k],
                    dv,
                    uv,
                ),
        decreases ls.len() - i,
    {
        proof {
            lemma_rows_step(lv, i as int, 4);
        }
        assert(ls@[i as int]@ == lv[i as int]);
        match row_fields(&ls[i], 4) {
            Some(p) => {
                let ghost pv = views(p@);
                assert(pv.len() == p@.len());
                assert(p@[0]@ == pv[0]);
                assert(p@[1]@ == pv[1]);
                assert(p@[2]@ == pv[2]);
                assert(p@[3]@ == pv[3]);
                let size_text = string_of(&p[3]);
                let is_dangling = lists(dangling_ids, &p[0]) || (chars_eq_str(&p[1], "<none>")
                    && chars_eq_str(&p[2], "<none>"));
                let img = DockerImage {
                    id: string_of(&p[0]),
                    repository: string_of(&p[1]),
                    tag: string_of(&p[2]),
                    size: parse_docker_size(size_text.as_str()),
                    created: field_string(&p, 4),
                    is_dangling,
                    used_by_containers: users_of(usage, &p[0]),
                };
                out.push(img);
            },
            None => {},
        }
        i = i + 1;
    }
    assert(lv.subrange(0, lv.len() as int) =~= lv);
    out
}

/// The volumes of the volume listing (`Name, Driver, Mountpoint`), annotated
/// with their users. Blank lines and rows of fewer than two fields are skipped.
pub fn parse_volumes(stdout: &str, usage: &Vec<(String, String)>) -> (r: Vec<DockerVolume>)
    ensures
        r@.len() == rows(lines(stdout@), 2).len(),
        forall|k: int|
            0 <= k < r@.len() ==> volume_from_row(
                #[trigger] r@[k],
                rows(lines(stdout@), 2)[k],
                pair_views(usage@),
            ),
{
    let s = chars_of(stdout);
    let ls = lines_of(&s);
    let ghost lv = lines(stdout@);
    let ghost uv = pair_views(usage@);
    let mut out: Vec<DockerVolume> = Vec::new();
    let mut i: usize = 0;
    while i < ls.len()
        invariant
            i <= ls.len(),
            views(ls@) == lv,
            uv == pair_views(usage@),
            out@.len() == rows(lv.subrange(0, i as int), 2).len(),
            forall|k: int|
                0 <= k < out@.len() ==> volume_from_row(
                    #[trigger] out@[k],
                    rows(lv.subrange(0, i as int), 2)[k],
                    uv,
                ),
        decreases ls.len() - i,
    {
        proof {
            lemma_rows_step(lv, i as int, 2);
        }
        assert(ls@[i as int]@ == lv[i as int]);
        match row_fields(&ls[i], 2) {
            Some(p) => {
                let ghost pv = views(p@);
                assert(pv.len() == p@.len());
                assert(p@[0]@ == pv[0]);
                let v = DockerVolume {
                    name: string_of(&p[0]),
                    driver: string_of(&p[1]),
                    mountpoint: field_string(&p, 2),
                    size: None,
                    used_by_containers: users_of(usage, &p[0]),
                };
                out.push(v);
            },
            None => {},
        }
        i = i + 1;
    }
    assert(lv.subrange(0, lv.len() as int) =~= lv);
    out
}

/// The networks of the network listing (`ID, Name, Driver, Scope`), annotated
/// with their users. Blank lines and rows of fewer than three fields are skipped.
pub fn parse_networks(stdout: &str, usage: &Vec<(String, String)>) -> (r: Vec<DockerNetwork>)
    ensures
        r@.len() == rows(lines(stdout@), 3).len(),
        forall|k: int|
            0 <= k < r@.len() ==> network_from_row(
                #[trigger] r@[k],
                rows(lines(stdout@), 3)[k],
                pair_views(usage@),
            ),
{
    let s = chars_of(stdout);
    let ls = lines_of(&s);
    let ghost lv = lines(stdout@);
    let ghost uv = pair_views(usage@);
    let mut out: Vec<DockerNetwork> = Vec::new();
    let mut i: usize = 0;
    while i < ls.len()
        invariant
            i <= ls.len(),
            views(ls@) == lv,
            uv == pair_views(usage@),
            out@.len() == rows(lv.subrange(0, i as int), 3).len(),
            forall|k: int|
                0 <= k < out@.len() ==> network_from_row(
                    #[trigger] out@[k],
                    rows(lv.subrange(0, i as int), 3)[k],
                    uv,
                ),
        decreases ls.len() - i,
    {
        proof {
            lemma_rows_step(lv, i as int, 3);
        }
        assert(ls@[i as int]@ == lv[i as int]);
        match row_fields(&ls[i], 3) {
            Some(p) => {
                let ghost pv = views(p@);
                assert(pv.len() == p@.len());
                assert(p@[1]@ == pv[1]);
                let n = DockerNetwork {
                    id: string_of(&p[0]),
                    name: string_of(&p[1]),
                    driver: string_of(&p[2]),
                    scope: field_string(&p, 3),
                    used_by_containers: users_of(usage, &p[1]),
                };
                out.push(n);
            },
            None => {},
        }
        i = i + 1;
    }
    assert(lv.subrange(0, lv.len() as int) =~= lv);
    out
}

/// The (resource, container) pairs of one comma-separated list cell.
pub open spec fn cell_pairs(pieces: Seq<Seq<char>>, cid: Seq<char>) -> Seq<(Seq<char>, Seq<char>)>
    decreases pieces.len(),
{
    if pieces.len() == 0 {
        Seq::empty()
    } else if trim(pieces.last()).len() > 0 {
        cell_pairs(pieces.drop_last(), cid).push((trim(pieces.last()), cid))
    } else {
        cell_pairs(pieces.drop_last(), cid)
    }
}

/// The (resource, container) pairs of a listing whose rows are
/// `container id <tab> comma-separated resource names` (mounts, networks).
pub open spec fn list_usage(ls: Seq<Seq<char>>) -> Seq<(Seq<char>, Seq<char>)>
    decreases ls.len(),
{
    if ls.len() == 0 {
        Seq::empty()
    } else {
        let p = split(ls.last(), '\t');
        if p.len() >= 2 {
            list_usage(ls.drop_last()) + cell_pairs(split(p[1], ','), p[0])
        } else {
            list_usage(ls.drop_last())
        }
    }
}

/// Which containers use which resource, from a listing of rows
/// `container id <tab> comma-separated resource names`; blank names are skipped
/// and repeated pairs kept.
pub fn parse_list_usage(stdout: &str) -> (r: Vec<(String, String)>)
    ensures
        pair_views(r@) == list_usage(lines(stdout@)),
{
    let s = chars_of(stdout);
    let ls = lines_of(&s);
    let ghost lv = lines(stdout@);
    let mut out: Vec<(String, String)> = Vec::new();
    let mut i: usize = 0;
    assert(pair_views(out@) =~= list_usage(lv.subrange(0, 0)));
    while i < ls.len()
        invariant
            i <= ls.len(),
            views(ls@) == lv,
            pair_views(out@) == list_usage(lv.subrange(0, i as int)),
        decreases ls.len() - i,
    {
        let ghost sub = lv.subrange(0, i + 1);
        assert(sub.drop_last() =~= lv.subrange(0, i as int));
        assert(ls@[i as int]@ == lv[i as int]);
        let p = split_chars(&ls[i], '\t');
        assert(views(p@).len() == p@.len());
        if p.len() >= 2 {
            let ghost before = pair_views(out@);
            let cid = string_of(&p[0]);
            assert(p@[1]@ == split(lv[i as int], '\t')[1]);
            assert(p@[0]@ == split(lv[i as int], '\t')[0]);
            let pieces = split_chars(&p[1], ',');
            let ghost pcv = views(pieces@);
            let mut j: usize = 0;
            assert(pair_views(out@) =~= before + cell_pairs(pcv.subrange(0, 0), cid@));
            while j < pieces.len()
                invariant
                    j <= pieces.len(),
                    pcv == views(pieces@),
                    pair_views(out@) == before + cell_pairs(pcv.subrange(0, j as int), cid@),
                decreases pieces.len() - j,
            {
                let ghost psub = pcv.subrange(0, j + 1);
                assert(psub.drop_last() =~= pcv.subrange(0, j as int));
                assert(pieces@[j as int]@ == pcv[j as int]);
                assert(psub.last() == pcv[j as int]);
                let t = trim_chars(&pieces[j]);
                if t.len() > 0 {
                    let name = string_of(&t);
                    let owner = cid.clone();
                    let ghost prev = pair_views(out@);
                    out.push((name, owner));
                    assert(pair_views(out@) =~= prev.push((name@, owner@)));
                    assert(before + cell_pairs(pcv.subrange(0, j as int), cid@).push((name@, owner@))
                        =~= (before + cell_pairs(pcv.subrange(0, j as int), cid@)).push(
                        (name@, owner@),
                    ));
                }
                assert(pair_views(out@) =~= before + cell_pairs(psub, cid@));
                j = j + 1;
            }
            assert(pcv.subrange(0, pcv.len() as int) =~= pcv);
        }
        assert(pair_views(out@) =~= list_usage(sub));
        i = i + 1;
    }
    assert(lv.subrange(0, lv.len() as int) =~= lv);
    out
}

pub open spec fn sha_prefix() -> Seq<char> {
    seq!['s', 'h', 'a', '2', '5', '6', ':']
}

/// `s` without every leading "sha256:", as `str::trim_start_matches` gives it.
pub open spec fn strip_sha(s: Seq<char>) -> Seq<char>
    decreases s.len(),
{
    if s.len() >= 7 && s.subrange(0, 7) == sha_prefix() {
        strip_sha(s.subrange(7, s.len() as int))
    } else {
        s
    }
}

/// The image-id pairs that the inspect listing (`container id <tab> image id`)
/// gives for container `cid`.
pub open spec fn inspect_pairs(ils: Seq<Seq<char>>, cid: Seq<char>) -> Seq<(Seq<char>, Seq<char>)>
    decreases ils.len(),
{
    if ils.len() == 0 {
        Seq::empty()
    } else {
        let q = split(ils.last(), '\t');
        if q.len() >= 2 && q[0] == cid {
            inspect_pairs(ils.drop_last(), cid).push((strip_sha(q[1]), cid))
        } else {
            inspect_pairs(ils.drop_last(), cid)
        }
    }
}

/// Which containers use which image: for each row `container id <tab> image
/// reference` of the container listing, the image id that the inspect listing
/// resolves for that container (where it was had), then the reference itself.
pub open spec fn image_usage(ls: Seq<Seq<char>>, inspect: Option<Seq<Seq<char>>>) -> Seq<
    (Seq<char>, Seq<char>),
>
    decreases ls.len(),
{
    if ls.len() == 0 {
        Seq::empty()
    } else {
        let p = split(ls.last(), '\t');
        if p.len() >= 2 {
            image_usage(ls.drop_last(), inspect) + match inspect {
                Some(ils) => inspect_pairs(ils, p[0]),
                None => Seq::empty(),
            } + seq![(p[1], p[0])]
        } else {
            image_usage(ls.drop_last(), inspect)
        }
    }
}

fn strip_sha_exec(s: &Vec<char>) -> (r: Vec<char>)
    ensures
        r@ == strip_sha(s@),
    decreases s.len(),
{
    proof {
        reveal_strlit("sha256:");
        assert("sha256:"@ =~= sha_prefix());
    }
    if starts_with_str(s, "sha256:") {
        let mut rest: Vec<char> = Vec::new();
        let mut i: usize = 7;
        while i < s.len()
            invariant
                7 <= i <= s.len(),
                rest@ == s@.subrange(7, i as int),
            decreases s.len() - i,
        {
            rest.push(s[i]);
            i = i + 1;
            assert(rest@ =~= s@.subrange(7, i as int));
        }
        strip_sha_exec(&rest)
    } else {
        s.clone()
    }
}

/// Which containers use which image, from the container listing
/// (`container id <tab> image reference`) and, where it was had, the inspect
/// listing (`container id <tab> image id`). Repeated pairs are kept.
pub fn parse_image_usage(ps_stdout: &str, inspect_stdout: Option<&str>) -> (r: Vec<(String, String)>)
    ensures
        pair_views(r@) == image_usage(
            lines(ps_stdout@),
            match inspect_stdout {
                Some(t) => Some(lines(t@)),
                None => None,
            },
        ),
{
    let ghost iv: Option<Seq<Seq<char>>> = match inspect_stdout {
        Some(t) => Some(lines(t@)),
        None => None,
    };
    let inspect_lines: Vec<Vec<char>> = match inspect_stdout {
        Some(t) => {
            let c = chars_of(t);
            lines_of(&c)
        },
        None => Vec::new(),
    };
    let s = chars_of(ps_stdout);
    let ls = lines_of(&s);
    let ghost lv = lines(ps_stdout@);
    let mut out: Vec<(String, String)> = Vec::new();
    let mut i: usize = 0;
    assert(pair_views(out@) =~= image_usage(lv.subrange(0, 0), iv));
    while i < ls.len()
        invariant
            i <= ls.len(),
            views(ls@) == lv,
            iv is Some ==> views(inspect_lines@) == iv->0,
            iv is None ==> inspect_lines@.len() == 0,
            pair_views(out@) == image_usage(lv.subrange(0, i as int), iv),
        decreases ls.len() - i,
    {
        let ghost sub = lv.subrange(0, i + 1);
        assert(sub.drop_last() =~= lv.subrange(0, i as int));
        assert(ls@[i as int]@ == lv[i as int]);
        let p = split_chars(&ls[i], '\t');
        assert(views(p@).len() == p@.len());
        if p.len() >= 2 {
            assert(p@[1]@ == split(lv[i as int], '\t')[1]);
            assert(p@[0]@ == split(lv[i as int], '\t')[0]);
            let ghost before = pair_views(out@);
            let ghost ilv = views(inspect_lines@);
            let mut j: usize = 0;
            assert(pair_views(out@) =~= before + inspect_pairs(ilv.subrange(0, 0), p@[0]@));
            while j < inspect_lines.len()
                invariant
                    j <= inspect_lines.len(),
                    ilv == views(inspect_lines@),
                    p@.len() >= 2,
                    pair_views(out@) == before + inspect_pairs(ilv.subrange(0, j as int), p@[0]@),
                decreases inspect_lines.len() - j,
            {
                let ghost isub = ilv.subrange(0, j + 1);
                assert(isub.drop_last() =~= ilv.subrange(0, j as int));
                assert(isub.last() == ilv[j as int]);
                let ghost qs = split(ilv[j as int], '\t');
                let ghost cid = p@[0]@;
                assert(inspect_pairs(isub, cid) == if qs.len() >= 2 && qs[0] == cid {
                    inspect_pairs(ilv.subrange(0, j as int), cid).push((strip_sha(qs[1]), cid))
                } else {
                    inspect_pairs(ilv.subrange(0, j as int), cid)
                });
                assert(inspect_lines@[j as int]@ == ilv[j as int]);
                let q = split_chars(&inspect_lines[j], '\t');
                assert(views(q@).len() == q@.len());
                if q.len() >= 2 {
                    assert(q@[0]@ == split(ilv[j as int], '\t')[0]);
                    assert(q@[1]@ == split(ilv[j as int], '\t')[1]);
                    if chars_eq(&q[0], &p[0]) {
                        let image_id = strip_sha_exec(&q[1]);
                        let a = string_of(&image_id);
                        let b = string_of(&p[0]);
                        let ghost prev = pair_views(out@);
                        out.push((a, b));
                        assert(pair_views(out@) =~= prev.push((a@, b@)));
                        assert(before + inspect_pairs(ilv.subrange(0, j as int), cid).push((a@, b@))
                            =~= (before + inspect_pairs(ilv.subrange(0, j as int), cid)).push(
                            (a@, b@),
                        ));
                    }
                }
                assert(pair_views(out@) =~= before + inspect_pairs(isub, p@[0]@));
                j = j + 1;
            }
            assert(ilv.subrange(0, ilv.len() as int) =~= ilv);
            proof {
                if iv is None {
                    assert(inspect_lines@.len() == 0);
                    assert(ilv.len() == 0);
                    assert(inspect_pairs(ilv, p@[0]@) =~= Seq::<(Seq<char>, Seq<char>)>::empty());
                }
            }
            out.push((string_of(&p[1]), string_of(&p[0])));
        }
        assert(pair_views(out@) =~= image_usage(sub, iv));
        i = i + 1;
    }
    assert(lv.subrange(0, lv.len() as int) =~= lv);
    out
}

/// The build-cache size that the space report (`Type <tab> Size`) gives on
/// its first row whose type mentions "build"; 0 where none does.
pub open spec fn build_cache_from(ls: Seq<Seq<char>>) -> nat
    decreases ls.len(),
{
    if ls.len() == 0 {
        0
    } else {
        let p = split(ls[0], '\t');
        if p.len() >= 2 && contains(lower_of(p[0]), seq!['b', 'u', 'i', 'l', 'd']) {
            docker_size(p[1])
        } else {
            build_cache_from(ls.drop_first())
        }
    }
}

/// The build-cache size in bytes that the engine's space report gives.
pub fn parse_build_cache_size(stdout: &str) -> (r: u64)
    ensures
        r == build_cache_from(lines(stdout@)),
{
    let s = chars_of(stdout);
    let ls = lines_of(&s);
    let ghost lv = lines(stdout@);
    let mut i: usize = 0;
    assert(lv.subrange(0, lv.len() as int) =~= lv);
    while i < ls.len()
        invariant
            i <= ls.len(),
            views(ls@) == lv,
            lv == lines(stdout@),
            build_cache_from(lv) == build_cache_from(lv.subrange(i as int, lv.len() as int)),
        decreases ls.len() - i,
    {
        let ghost rest = lv.subrange(i as int, lv.len() as int);
        assert(rest[0] == lv[i as int]);
        assert(ls@[i as int]@ == lv[i as int]);
        let p = split_chars(&ls[i], '\t');
        assert(views(p@).len() == p@.len());
        if p.len() >= 2 {
            assert(p@[0]@ == split(lv[i as int], '\t')[0]);
            assert(p@[1]@ == split(lv[i as int], '\t')[1]);
            let lower = lower_chars(&p[0]);
            proof {
                reveal_strlit("build");
                assert("build"@ =~= seq!['b', 'u', 'i', 'l', 'd']);
            }
            if contains_str(&lower, "build") {
                let size_text = string_of(&p[1]);
                return parse_docker_size(size_text.as_str());
            }
        }
        assert(rest.drop_first() =~= lv.subrange(i + 1, lv.len() as int));
        i = i + 1;
    }
    assert(lv.subrange(i as int, lv.len() as int).len() == 0);
    0
}

pub open spec fn count_stopped(cs: Seq<DockerContainer>) -> nat
    decreases cs.len(),
{
    if cs.len() == 0 {
        0
    } else {
        count_stopped(cs.drop_last()) + if cs.last().state != ContainerState::Running {
            1nat
        } else {
            0nat
        }
    }
}

pub open spec fn stopped_size(cs: Seq<DockerContainer>) -> nat
    decreases cs.len(),
{
    if cs.len() == 0 {
        0
    } else {
        stopped_size(cs.drop_last()) + if cs.last().state != ContainerState::Running {
            cs.last().size as nat
        } else {
            0nat
        }
    }
}

pub open spec fn count_dangling(is: Seq<DockerImage>) -> nat
    decreases is.len(),
{
    if is.len() == 0 {
        0
    } else {
        count_dangling(is.drop_last()) + if is.last().is_dangling {
            1nat
        } else {
            0nat
        }
    }
}

pub open spec fn count_unused_images(is: Seq<DockerImage>) -> nat
    decreases is.len(),
{
    if is.len() == 0 {
        0
    } else {
        count_unused_images(is.drop_last()) + if is.last().used_by_containers@.len() == 0 {
            1nat
        } else {
            0nat
        }
    }
}

pub open spec fn unused_image_size(is: Seq<DockerImage>) -> nat
    decreases is.len(),
{
    if is.len() == 0 {
        0
    } else {
        unused_image_size(is.drop_last()) + if is.last().used_by_containers@.len() == 0 {
            is.last().size as nat
        } else {
            0nat
        }
    }
}

pub open spec fn count_orphan_volumes(vs: Seq<DockerVolume>) -> nat
    decreases vs.len(),
{
    if vs.len() == 0 {
        0
    } else {
        count_orphan_volumes(vs.drop_last()) + if vs.last().used_by_containers@.len() == 0 {
            1nat
        } else {
            0nat
        }
    }
}

/// Known sizes of the volumes that no container uses.
pub open spec fn orphan_volume_size(vs: Seq<DockerVolume>) -> nat
    decreases vs.len(),
{
    if vs.len() == 0 {
        0
    } else {
        orphan_volume_size(vs.drop_last()) + match vs.last().size {
            Some(n) if vs.last().used_by_containers@.len() == 0 => n as nat,
            _ => 0nat,
        }
    }
}

/// A network that no container uses and that is not built in.
pub open spec fn is_unused_network(n: DockerNetwork) -> bool {
    n.used_by_containers@.len() == 0 && !is_default_network_name(n.name@)
}

pub open spec fn count_unused_networks(ns: Seq<DockerNetwork>) -> nat
    decreases ns.len(),
{
    if ns.len() == 0 {
        0
    } else {
        count_unused_networks(ns.drop_last()) + if is_unused_network(ns.last()) {
            1nat
        } else {
            0nat
        }
    }
}

/// Bytes that removing the stopped containers, unused images, orphan volumes
/// of known size and the build cache would free; each resource counted once.
pub open spec fn reclaimable(
    cs: Seq<DockerContainer>,
    is: Seq<DockerImage>,
    vs: Seq<DockerVolume>,
    build_cache: nat,
) -> nat {
    stopped_size(cs) + unused_image_size(is) + orphan_volume_size(vs) + build_cache
}

fn add_capped(a: u64, b: u64) -> (r: u64)
    ensures
        r == cap((a + b) as nat),
{
    if a > u64::MAX - b {
        u64::MAX
    } else {
        a + b
    }
}

/// The scan result of a reachable engine: the four inventories, the build-cache
/// size, and the counts and reclaimable bytes derived from them (capped at
/// the largest `u64`).
pub fn summarize_scan(
    containers: Vec<DockerContainer>,
    images: Vec<DockerImage>,
    volumes: Vec<DockerVolume>,
    networks: Vec<DockerNetwork>,
    build_cache_size: u64,
) -> (r: DockerScanResult)
    ensures
        r.daemon_running,
        r.containers@ == containers@,
        r.images@ == images@,
        r.volumes@ == volumes@,
        r.networks@ == networks@,
        r.build_cache_size == build_cache_size,
        r.stopped_containers_count == count_stopped(containers@),
        r.dangling_images_count == count_dangling(images@),
        r.unused_images_count == count_unused_images(images@),
        r.orphan_volumes_count == count_orphan_volumes(volumes@),
        r.unused_networks_count == count_unused_networks(networks@),
        r.total_reclaimable == cap(
            reclaimable(containers@, images@, volumes@, build_cache_size as nat),
        ),
{
    let mut stopped: usize = 0;
    let mut total: u64 = 0;
    let mut i: usize = 0;
    while i < containers.len()
        invariant
            i <= containers.len(),
            stopped == count_stopped(containers@.subrange(0, i as int)),
            stopped <= i,
            total == cap(stopped_size(containers@.subrange(0, i as int))),
        decreases containers.len() - i,
    {
        let ghost sub = containers@.subrange(0, i + 1);
        assert(sub.drop_last() =~= containers@.subrange(0, i as int));
        assert(sub.last() == containers@[i as int]);
        if containers[i].state != ContainerState::Running {
            stopped = stopped + 1;
            total = add_capped(total, containers[i].size);
        }
        i = i + 1;
    }
    assert(containers@.subrange(0, containers.len() as int) =~= containers@);
    let ghost t1 = stopped_size(containers@);
    let mut dangling: usize = 0;
    let mut unused: usize = 0;
    let mut j: usize = 0;
    while j < images.len()
        invariant
            j <= images.len(),
            dangling == count_dangling(images@.subrange(0, j as int)),
            unused == count_unused_images(images@.subrange(0, j as int)),
            dangling <= j,
            unused <= j,
            total == cap(t1 + unused_image_size(images@.subrange(0, j as int))),
        decreases images.len() - j,
    {
        let ghost sub = images@.subrange(0, j + 1);
        assert(sub.drop_last() =~= images@.subrange(0, j as int));
        assert(sub.last() == images@[j as int]);
        if images[j].is_dangling {
            dangling = dangling + 1;
        }
        if images[j].used_by_containers.len() == 0 {
            unused = unused + 1;
            total = add_capped(total, images[j].size);
        }
        j = j + 1;
    }
    assert(images@.subrange(0, images.len() as int) =~= images@);
    let ghost t2 = t1 + unused_image_size(images@);
    let mut orphans: usize = 0;
    let mut k: usize = 0;
    while k < volumes.len()
        invariant
            k <= volumes.len(),
            orphans == count_orphan_volumes(volumes@.subrange(0, k as int)),
            orphans <= k,
            total == cap(t2 + orphan_volume_size(volumes@.subrange(0, k as int))),
        decreases volumes.len() - k,
    {
        let ghost sub = volumes@.subrange(0, k + 1);
        assert(sub.drop_last() =~= volumes@.subrange(0, k as int));
        assert(sub.last() == volumes@[k as int]);
        if volumes[k].used_by_containers.len() == 0 {
            orphans = orphans + 1;
            match volumes[k].size {
                Some(n) => {
                    total = add_capped(total, n);
                },
                None => {},
            }
        }
        k = k + 1;
    }
    assert(volumes@.subrange(0, volumes.len() as int) =~= volumes@);
    let mut unused_nets: usize = 0;
    let mut m: usize = 0;
    while m < networks.len()
        invariant
            m <= networks.len(),
            unused_nets == count_unused_networks(networks@.subrange(0, m as int)),
            unused_nets <= m,
        decreases networks.len() - m,
    {
        let ghost sub = networks@.subrange(0, m + 1);
        assert(sub.drop_last() =~= networks@.subrange(0, m as int));
        assert(sub.last() == networks@[m as int]);
        if networks[m].used_by_containers.len() == 0 && !is_default_network(
            networks[m].name.as_str(),
        ) {
            unused_nets = unused_nets + 1;
        }
        m = m + 1;
    }
    assert(networks@.subrange(0, networks.len() as int) =~= networks@);
    total = add_capped(total, build_cache_size);
    DockerScanResult {
        daemon_running: true,
        containers,
        images,
        volumes,
        networks,
        build_cache_size,
        total_reclaimable: total,
        stopped_containers_count: stopped,
        dangling_images_count: dangling,
        unused_images_count: unused,
        orphan_volumes_count: orphans,
        unused_networks_count: unused_nets,
    }
}

/// The scan result of an engine whose daemon cannot be reached: nothing found.
pub fn unreachable_scan() -> (r: DockerScanResult)
    ensures
        !r.daemon_running,
        r.containers@.len() == 0,
        r.images@.len() == 0,
        r.volumes@.len() == 0,
        r.networks@.len() == 0,
        r.build_cache_size == 0,
        r.total_reclaimable == 0,
        r.stopped_containers_count == 0,
        r.dangling_images_count == 0,
        r.unused_images_count == 0,
        r.orphan_volumes_count == 0,
        r.unused_networks_count == 0,
{
    DockerScanResult {
        daemon_running: false,
        containers: Vec::new(),
        images: Vec::new(),
        volumes: Vec::new(),
        networks: Vec::new(),
        build_cache_size: 0,
        total_reclaimable: 0,
        stopped_containers_count: 0,
        dangling_images_count: 0,
        unused_images_count: 0,
        orphan_volumes_count: 0,
        unused_networks_count: 0,
    }
}

/// An image whose repository and tag are both "<none>" is dangling,
/// whatever the dangling filter printed.
pub proof fn lemma_untagged_image_is_dangling(
    img: DockerImage,
    l: Seq<char>,
    dangling: Seq<Seq<char>>,
    usage: Seq<(Seq<char>, Seq<char>)>,
)
    requires
        image_from_row(img, l, dangling, usage),
        img.repository@ == none_tag(),
        img.tag@ == none_tag(),
    ensures
        img.is_dangling,
{
}

/// A built-in network never counts as unused: adding one to a list leaves
/// the count as it was.
pub proof fn lemma_default_network_not_counted(ns: Seq<DockerNetwork>, n: DockerNetwork)
    requires
        is_default_network_name(n.name@),
    ensures
        count_unused_networks(ns.push(n)) == count_unused_networks(ns),
{
    assert(ns.push(n).drop_last() =~= ns);
}

/// The containers that are not running, in order.
pub open spec fn stopped_of(s: Seq<DockerContainer>) -> Seq<DockerContainer>
    decreases s.len(),
{
    if s.len() == 0 {
        Seq::empty()
    } else if s.last().state != ContainerState::Running {
        stopped_of(s.drop_last()).push(s.last())
    } else {
        stopped_of(s.drop_last())
    }
}

/// The containers of a scan that are not running.
pub fn get_stopped_containers(scan: DockerScanResult) -> (r: Vec<DockerContainer>)
    ensures
        r@ == stopped_of(scan.containers@),
{
    let mut items = scan.containers;
    let ghost orig = items@;
    let n = items.len();
    let mut rev: Vec<DockerContainer> = Vec::new();
    while items.len() > 0
        invariant
            orig.len() == n,
            items@ == orig.subrange(0, items@.len() as int),
            rev@.len() + items@.len() == n,
            forall|j: int| 0 <= j < rev@.len() ==> rev@[j] == orig[n - 1 - j],
        decreases items@.len(),
    {
        let x = items.pop().unwrap();
        rev.push(x);
    }
    let mut kept: Vec<DockerContainer> = Vec::new();
    let mut t: usize = 0;
    assert(kept@ =~= stopped_of(orig.subrange(0, 0)));
    while rev.len() > 0
        invariant
            orig.len() == n,
            rev@.len() + t == n,
            forall|j: int| 0 <= j < rev@.len() ==> rev@[j] == orig[n - 1 - j],
            kept@ == stopped_of(orig.subrange(0, t as int)),
        decreases rev@.len(),
    {
        let x = rev.pop().unwrap();
        assert(x == orig[t as int]);
        let ghost sub = orig.subrange(0, t + 1);
        assert(sub.drop_last() =~= orig.subrange(0, t as int));
        if x.state != ContainerState::Running {
            kept.push(x);
        }
        t = t + 1;
    }
    assert(orig.subrange(0, n as int) =~= orig);
    kept
}

/// The dangling images, in order.
pub open spec fn dangling_of(s: Seq<DockerImage>) -> Seq<DockerImage>
    decreases s.len(),
{
    if s.len() == 0 {
        Seq::empty()
    } else if s.last().is_dangling {
        dangling_of(s.drop_last()).push(s.last())
    } else {
        dangling_of(s.drop_last())
    }
}

/// The dangling images of a scan.
pub fn get_dangling_images(scan: DockerScanResult) -> (r: Vec<DockerImage>)
    ensures
        r@ == dangling_of(scan.images@),
{
    let mut items = scan.images;
    let ghost orig = items@;
    let n = items.len();
    let mut rev: Vec<DockerImage> = Vec::new();
    while items.len() > 0
        invariant
            orig.len() == n,
            items@ == orig.subrange(0, items@.len() as int),
            rev@.len() + items@.len() == n,
            forall|j: int| 0 <= j < rev@.len() ==> rev@[j] == orig[n - 1 - j],
        decreases items@.len(),
    {
        let x = items.pop().unwrap();
        rev.push(x);
    }
    let mut kept: Vec<DockerImage> = Vec::new();
    let mut t: usize = 0;
    assert(kept@ =~= dangling_of(orig.subrange(0, 0)));
    while rev.len() > 0
        invariant
            orig.len() == n,
            rev@.len() + t == n,
            forall|j: int| 0 <= j < rev@.len() ==> rev@[j] == orig[n - 1 - j],
            kept@ == dangling_of(orig.subrange(0, t as int)),
        decreases rev@.len(),
    {
        let x = rev.pop().unwrap();
        assert(x == orig[t as int]);
        let ghost sub = orig.subrange(0, t + 1);
        assert(sub.drop_last() =~= orig.subrange(0, t as int));
        if x.is_dangling {
            kept.push(x);
        }
        t = t + 1;
    }
    assert(orig.subrange(0, n as int) =~= orig);
    kept
}

/// The images that no container uses, in order.
pub open spec fn unused_images_of(s: Seq<DockerImage>) -> Seq<DockerImage>
    decreases s.len(),
{
    if s.len() == 0 {
        Seq::empty()
    } else if s.last().used_by_containers@.len() == 0 {
        unused_images_of(s.drop_last()).push(s.last())
    } else {
        unused_images_of(s.drop_last())
    }
}

/// The images of a scan that no container uses.
pub fn get_unused_images(scan: DockerScanResult) -> (r: Vec<DockerImage>)
    ensures
        r@ == unused_images_of(scan.images@),
{
    let mut items = scan.images;
    let ghost orig = items@;
    let n = items.len();
    let mut rev: Vec<DockerImage> = Vec::new();
    while items.len() > 0
        invariant
            orig.len() == n,
            items@ == orig.subrange(0, items@.len() as int),
            rev@.len() + items@.len() == n,
            forall|j: int| 0 <= j < rev@.len() ==> rev@[j] == orig[n - 1 - j],
        decreases items@.len(),
    {
        let x = items.pop().unwrap();
        rev.push(x);
    }
    let mut kept: Vec<DockerImage> = Vec::new();
    let mut t: usize = 0;
    assert(kept@ =~= unused_images_of(orig.subrange(0, 0)));
    while rev.len() > 0
        invariant
            orig.len() == n,
            rev@.len() + t == n,
            forall|j: int| 0 <= j < rev@.len() ==> rev@[j] == orig[n - 1 - j],
            kept@ == unused_images_of(orig.subrange(0, t as int)),
        decreases rev@.len(),
    {
        let x = rev.pop().unwrap();
        assert(x == orig[t as int]);
        let ghost sub = orig.subrange(0, t + 1);
        assert(sub.drop_last() =~= orig.subrange(0, t as int));
        if x.used_by_containers.len() == 0 {
            kept.push(x);
        }
        t = t + 1;
    }
    assert(orig.subrange(0, n as int) =~= orig);
    kept
}

/// The volumes that no container uses, in order.
pub open spec fn orphan_volumes_of(s: Seq<DockerVolume>) -> Seq<DockerVolume>
    decreases s.len(),
{
    if s.len() == 0 {
        Seq::empty()
    } else if s.last().used_by_containers@.len() == 0 {
        orphan_volumes_of(s.drop_last()).push(s.last())
    } else {
        orphan_volumes_of(s.drop_last())
    }
}

/// The volumes of a scan that no container uses.
pub fn get_orphan_volumes(scan: DockerScanResult) -> (r: Vec<DockerVolume>)
    ensures
        r@ == orphan_volumes_of(scan.volumes@),
{
    let mut items = scan.volumes;
    let ghost orig = items@;
    let n = items.len();
    let mut rev: Vec<DockerVolume> = Vec::new();
    while items.len() > 0
        invariant
            orig.len() == n,
            items@ == orig.subrange(0, items@.len() as int),
            rev@.len() + items@.len() == n,
            forall|j: int| 0 <= j < rev@.len() ==> rev@[j] == orig[n - 1 - j],
        decreases items@.len(),
    {
        let x = items.pop().unwrap();
        rev.push(x);
    }
    let mut kept: Vec<DockerVolume> = Vec::new();
    let mut t: usize = 0;
    assert(kept@ =~= orphan_volumes_of(orig.subrange(0, 0)));
    while rev.len() > 0
        invariant
            orig.len() == n,
            rev@.len() + t == n,
            forall|j: int| 0 <= j < rev@.len() ==> rev@[j] == orig[n - 1 - j],
            kept@ == orphan_volumes_of(orig.subrange(0, t as int)),
        decreases rev@.len(),
    {
        let x = rev.pop().unwrap();
        assert(x == orig[t as int]);
        let ghost sub = orig.subrange(0, t + 1);
        assert(sub.drop_last() =~= orig.subrange(0, t as int));
        if x.used_by_containers.len() == 0 {
            kept.push(x);
        }
        t = t + 1;
    }
    assert(orig.subrange(0, n as int) =~= orig);
    kept
}

/// The unused networks that are not built in, in order.
pub open spec fn unused_networks_of(s: Seq<DockerNetwork>) -> Seq<DockerNetwork>
    decreases s.len(),
{
    if s.len() == 0 {
        Seq::empty()
    } else if is_unused_network(s.last()) {
        unused_networks_of(s.drop_last()).push(s.last())
    } else {
        unused_networks_of(s.drop_last())
    }
}

/// The networks of a scan that no container uses, without the built-in ones.
pub fn get_unused_networks(scan: DockerScanResult) -> (r: Vec<DockerNetwork>)
    ensures
        r@ == unused_networks_of(scan.networks@),
{
    let mut items = scan.networks;
    let ghost orig = items@;
    let n = items.len();
    let mut rev: Vec<DockerNetwork> = Vec::new();
    while items.len() > 0
        invariant
            orig.len() == n,
            items@ == orig.subrange(0, items@.len() as int),
            rev@.len() + items@.len() == n,
            forall|j: int| 0 <= j < rev@.len() ==> rev@[j] == orig[n - 1 - j],
        decreases items@.len(),
    {
        let x = items.pop().unwrap();
        rev.push(x);
    }
    let mut kept: Vec<DockerNetwork> = Vec::new();
    let mut t: usize = 0;
    assert(kept@ =~= unused_networks_of(orig.subrange(0, 0)));
    while rev.len() > 0
        invariant
            orig.len() == n,
            rev@.len() + t == n,
            forall|j: int| 0 <= j < rev@.len() ==> rev@[j] == orig[n - 1 - j],
            kept@ == unused_networks_of(orig.subrange(0, t as int)),
        decreases rev@.len(),
    {
        let x = rev.pop().unwrap();
        assert(x == orig[t as int]);
        let ghost sub = orig.subrange(0, t + 1);
        assert(sub.drop_last() =~= orig.subrange(0, t as int));
        if x.used_by_containers.len() == 0 && !is_default_network(x.name.as_str()) {
            kept.push(x);
        }
        t = t + 1;
    }
    assert(orig.subrange(0, n as int) =~= orig);
    kept
}

} // verus!
