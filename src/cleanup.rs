//! Removal and prune operations against the engine, as a state machine.
//!
//! A run holds a plan of stages. The caller asks the run for the next
//! command line (`command`), executes it with the engine's CLI, and hands
//! the run what the command printed (`feed`), until no command is left;
//! `outcome` then gives the aggregated result. Each stage first checks that
//! the daemon answers; removals then re-read sizes where the listing has
//! them (network removals read the network listing, to recognise built-in
//! networks named by id), and remove one resource per command so that a
//! failure names its resource and does not stop the others.
use vstd::prelude::*;
use crate::docker::{is_default_network, is_default_network_name, DockerCleanResult, DockerResourceType, DockerSuggestion};
use crate::inventory::{pair_views, rows};
use crate::sizes::{
    cap, count_deleted_items, count_deletions, docker_size, format_size, format_size_spec,
    parse_docker_size, parse_reclaimed_space, reclaimed_space,
};
use crate::text::{
    chars_eq, chars_of, decimal, lines, lines_of, push_all, push_decimal, push_str_chars, split,
    split_chars, starts_with, starts_with_exec, string_of, string_views, trim, trim_chars, views,
};

verus! {

/// What one command printed and whether it exited with status zero.
#[derive(Clone, Debug)]
pub struct CommandOutput {
    pub success: bool,
    pub stdout: String,
    pub stderr: String,
}

/// The work of one stage of a run.
#[derive(Clone, Copy, Debug, PartialEq, Eq, Structural)]
pub enum StageKind {
    RemoveContainers,
    RemoveImages,
    RemoveVolumes,
    RemoveNetworks,
    SystemPrune { all: bool, volumes: bool },
    BuilderPrune,
    PruneContainers,
    PruneImages { all: bool },
    PruneVolumes,
    PruneNetworks,
}

/// Where a stage stands.
#[derive(Clone, Copy, Debug, PartialEq, Eq, Structural)]
pub enum Phase {
    CheckDaemon,
    Snapshot,
    Remove(usize),
    Prune,
}

/// One stage of a run: its kind, and for removals the resources to remove.
#[derive(Clone, Debug)]
pub struct Stage {
    pub kind: StageKind,
    pub ids: Vec<String>,
    pub force: bool,
}

pub open spec fn is_removal(k: StageKind) -> bool {
    match k {
        StageKind::RemoveContainers | StageKind::RemoveImages | StageKind::RemoveVolumes
        | StageKind::RemoveNetworks => true,
        _ => false,
    }
}

/// Position of a stage kind in the fixed order of a suggestion cleanup:
/// containers, images, volumes, networks, build cache.
pub open spec fn stage_rank(k: StageKind) -> int {
    match k {
        StageKind::RemoveContainers => 0,
        StageKind::RemoveImages => 1,
        StageKind::RemoveVolumes => 2,
        StageKind::RemoveNetworks => 3,
        _ => 4,
    }
}

/// The entry of the error list for a failed removal: "`id`: `stderr`".
pub open spec fn error_entry(id: Seq<char>, stderr: Seq<char>) -> Seq<char> {
    id + seq![':', ' '] + trim(stderr)
}

/// The errors of a stage joined by "; ".
pub open spec fn join(es: Seq<Seq<char>>) -> Seq<char>
    decreases es.len(),
{
    if es.len() == 0 {
        Seq::empty()
    } else if es.len() == 1 {
        es[0]
    } else {
        join(es.drop_last()) + seq![';', ' '] + es.last()
    }
}

/// The errors of those removals that failed, in order.
pub open spec fn failures(ids: Seq<Seq<char>>, outcomes: Seq<(bool, Seq<char>)>) -> Seq<Seq<char>>
    decreases outcomes.len(),
{
    if outcomes.len() == 0 {
        Seq::empty()
    } else {
        let n = outcomes.len() - 1;
        if outcomes.last().0 {
            failures(ids, outcomes.drop_last())
        } else {
            failures(ids, outcomes.drop_last()).push(error_entry(ids[n], outcomes.last().1))
        }
    }
}

pub open spec fn successes(outcomes: Seq<(bool, Seq<char>)>) -> nat
    decreases outcomes.len(),
{
    if outcomes.len() == 0 {
        0
    } else {
        successes(outcomes.drop_last()) + if outcomes.last().0 {
            1nat
        } else {
            0nat
        }
    }
}

/// The resources that a removal request names, without the built-in
/// networks when networks are removed.
pub open spec fn requested(kind: StageKind, ids: Seq<Seq<char>>) -> Seq<Seq<char>>
    decreases ids.len(),
{
    if ids.len() == 0 {
        Seq::empty()
    } else if kind == StageKind::RemoveNetworks && is_default_network_name(ids.last()) {
        requested(kind, ids.drop_last())
    } else {
        requested(kind, ids.drop_last()).push(ids.last())
    }
}

/// The command line that removes one resource.
pub open spec fn removal_command(kind: StageKind, force: bool, id: Seq<char>) -> Seq<Seq<char>> {
    match kind {
        StageKind::RemoveContainers => if force {
            seq!["rm"@, "-f"@, id]
        } else {
            seq!["rm"@, id]
        },
        StageKind::RemoveImages => if force {
            seq!["rmi"@, "-f"@, id]
        } else {
            seq!["rmi"@, id]
        },
        StageKind::RemoveVolumes => seq!["volume"@, "rm"@, id],
        _ => seq!["network"@, "rm"@, id],
    }
}

/// The command line of a prune stage.
pub open spec fn prune_command(kind: StageKind) -> Seq<Seq<char>> {
    match kind {
        StageKind::SystemPrune { all, volumes } => seq!["system"@, "prune"@, "-f"@] + (if all {
            seq!["-a"@]
        } else {
            Seq::empty()
        }) + (if volumes {
            seq!["--volumes"@]
        } else {
            Seq::empty()
        }),
        StageKind::BuilderPrune => seq!["builder"@, "prune"@, "-af"@],
        StageKind::PruneContainers => seq!["container"@, "prune"@, "-f"@],
        StageKind::PruneImages { all } => seq!["image"@, "prune"@, "-f"@] + if all {
            seq!["-a"@]
        } else {
            Seq::empty()
        },
        StageKind::PruneVolumes => seq!["volume"@, "prune"@, "-f"@],
        _ => seq!["network"@, "prune"@, "-f"@],
    }
}

/// The listing that gives the sizes of the resources a removal stage removes.
pub open spec fn snapshot_command(kind: StageKind) -> Seq<Seq<char>> {
    if kind == StageKind::RemoveContainers {
        seq!["ps"@, "-a"@, "--no-trunc"@, "--format"@, CONTAINER_FORMAT@]
    } else if kind == StageKind::RemoveNetworks {
        seq!["network"@, "ls"@, "--no-trunc"@, "--format"@, NETWORK_FORMAT@]
    } else {
        seq!["images"@, "-a"@, "--no-trunc"@, "--format"@, IMAGE_FORMAT@]
    }
}

/// Output template of the container listing.
pub const CONTAINER_FORMAT: &'static str = "{{.ID}}\t{{.Names}}\t{{.Image}}\t{{.Status}}\t{{.State}}\t{{.Size}}\t{{.CreatedAt}}\t{{.Ports}}";

/// Output template of the network listing that resolves ids to names.
pub const NETWORK_FORMAT: &'static str = "{{.ID}}\t{{.Name}}";

/// Output template of the image listing.
pub const IMAGE_FORMAT: &'static str = "{{.ID}}\t{{.Repository}}\t{{.Tag}}\t{{.Size}}\t{{.CreatedAt}}";

/// Where a stage goes once the daemon has answered: removals of containers
/// and images first read sizes, removals of networks first read the network
/// listing, volume removals start removing, prunes prune.
pub open spec fn phase_after_daemon(kind: StageKind) -> Phase {
    if kind == StageKind::RemoveContainers || kind == StageKind::RemoveImages || kind
        == StageKind::RemoveNetworks {
        Phase::Snapshot
    } else if kind == StageKind::RemoveVolumes {
        Phase::Remove(0)
    } else {
        Phase::Prune
    }
}

/// The command line that a stage issues in a phase.
/// `targets` are the resources that the stage removes, one per command.
pub open spec fn stage_command(st: Stage, ph: Phase, targets: Seq<Seq<char>>) -> Seq<Seq<char>> {
    match ph {
        Phase::CheckDaemon => seq!["info"@],
        Phase::Snapshot => snapshot_command(st.kind),
        Phase::Remove(i) => removal_command(st.kind, st.force, targets[i as int]),
        Phase::Prune => prune_command(st.kind),
    }
}

/// The (id, name) pairs of a network listing (`ID <tab> Name`).
pub open spec fn network_listing(ls: Seq<Seq<char>>) -> Seq<(Seq<char>, Seq<char>)> {
    rows(ls, 2).map_values(|l: Seq<char>| (split(l, '\t')[0], split(l, '\t')[1]))
}

/// A listed network that `id` refers to (by its full id or a prefix of it)
/// and that is built in.
pub open spec fn builtin_entry(entry: (Seq<char>, Seq<char>), id: Seq<char>) -> bool {
    id.len() > 0 && starts_with(entry.0, id) && is_default_network_name(entry.1)
}

/// `id` refers to a built-in network of the listing.
pub open spec fn names_builtin(listing: Seq<(Seq<char>, Seq<char>)>, id: Seq<char>) -> bool {
    exists|k: int| 0 <= k < listing.len() && builtin_entry(#[trigger] listing[k], id)
}

/// The ids of a network removal without those that the listing shows to be
/// built-in networks, in order.
pub open spec fn network_targets(ids: Seq<Seq<char>>, listing: Seq<(Seq<char>, Seq<char>)>) -> Seq<
    Seq<char>,
>
    decreases ids.len(),
{
    if ids.len() == 0 {
        Seq::empty()
    } else if names_builtin(listing, ids.last()) {
        network_targets(ids.drop_last(), listing)
    } else {
        network_targets(ids.drop_last(), listing).push(ids.last())
    }
}

/// The network listing that a command printed; nothing where it failed.
pub open spec fn listing_of(out: CommandOutput) -> Seq<(Seq<char>, Seq<char>)> {
    if out.success {
        network_listing(lines(out.stdout@))
    } else {
        Seq::empty()
    }
}

/// The (id, name) pairs that a network listing gives.
fn parse_network_listing(out: &CommandOutput) -> (r: Vec<(String, String)>)
    ensures
        pair_views(r@) == listing_of(*out),
{
    let mut r: Vec<(String, String)> = Vec::new();
    if !out.success {
        assert(pair_views(r@) =~= listing_of(*out));
        return r;
    }
    let s = chars_of(out.stdout.as_str());
    let ls = lines_of(&s);
    let ghost lv = lines(out.stdout@);
    let mut i: usize = 0;
    assert(pair_views(r@) =~= network_listing(lv.subrange(0, 0)));
    while i < ls.len()
        invariant
            i <= ls.len(),
            views(ls@) == lv,
            pair_views(r@) == network_listing(lv.subrange(0, i as int)),
        decreases ls.len() - i,
    {
        let ghost sub = lv.subrange(0, i + 1);
        assert(sub.drop_last() =~= lv.subrange(0, i as int));
        assert(sub.last() == lv[i as int]);
        assert(ls@[i as int]@ == lv[i as int]);
        let t = trim_chars(&ls[i]);
        let p = split_chars(&ls[i], '\t');
        assert(views(p@).len() == p@.len());
        if t.len() > 0 && p.len() >= 2 {
            assert(p@[0]@ == split(lv[i as int], '\t')[0]);
            assert(p@[1]@ == split(lv[i as int], '\t')[1]);
            let ghost prev = pair_views(r@);
            r.push((string_of(&p[0]), string_of(&p[1])));
            assert(pair_views(r@) =~= prev.push((p@[0]@, p@[1]@)));
        }
        assert(pair_views(r@) =~= network_listing(sub));
        i = i + 1;
    }
    assert(lv.subrange(0, lv.len() as int) =~= lv);
    r
}

/// Whether `id` refers to a built-in network of the listing.
fn refers_to_builtin(listing: &Vec<(String, String)>, id: &String) -> (r: bool)
    ensures
        r == names_builtin(pair_views(listing@), id@),
{
    let ghost lv = pair_views(listing@);
    let idc = chars_of(id.as_str());
    if idc.len() == 0 {
        return false;
    }
    let mut k: usize = 0;
    while k < listing.len()
        invariant
            k <= listing.len(),
            lv == pair_views(listing@),
            idc@ == id@,
            idc@.len() > 0,
            forall|j: int| 0 <= j < k ==> !builtin_entry(#[trigger] lv[j], id@),
        decreases listing.len() - k,
    {
        assert(lv[k as int] == (listing@[k as int].0@, listing@[k as int].1@));
        let lid = chars_of(listing[k].0.as_str());
        if starts_with_exec(&lid, &idc) && is_default_network(listing[k].1.as_str()) {
            assert(builtin_entry(lv[k as int], id@));
            return true;
        }
        k = k + 1;
    }
    false
}

/// The ids that a network removal removes, given the network listing.
fn network_targets_exec(ids: &Vec<String>, listing: &Vec<(String, String)>) -> (r: Vec<String>)
    ensures
        string_views(r@) == network_targets(string_views(ids@), pair_views(listing@)),
{
    let ghost iv = string_views(ids@);
    let ghost lv = pair_views(listing@);
    let mut r: Vec<String> = Vec::new();
    let mut i: usize = 0;
    assert(string_views(r@) =~= network_targets(iv.subrange(0, 0), lv));
    while i < ids.len()
        invariant
            i <= ids.len(),
            iv == string_views(ids@),
            lv == pair_views(listing@),
            string_views(r@) == network_targets(iv.subrange(0, i as int), lv),
        decreases ids.len() - i,
    {
        let ghost sub = iv.subrange(0, i + 1);
        assert(sub.drop_last() =~= iv.subrange(0, i as int));
        assert(sub.last() == ids@[i as int]@);
        if !refers_to_builtin(listing, &ids[i]) {
            let ghost prev = string_views(r@);
            r.push(ids[i].clone());
            assert(string_views(r@) =~= prev.push(ids@[i as int]@));
        }
        assert(string_views(r@) =~= network_targets(sub, lv));
        i = i + 1;
    }
    assert(iv.subrange(0, iv.len() as int) =~= iv);
    r
}

/// A copy of the ids, one by one.
fn copy_ids(ids: &Vec<String>) -> (r: Vec<String>)
    ensures
        string_views(r@) == string_views(ids@),
{
    let mut r: Vec<String> = Vec::new();
    let mut i: usize = 0;
    while i < ids.len()
        invariant
            i <= ids.len(),
            string_views(r@) == string_views(ids@).subrange(0, i as int),
        decreases ids.len() - i,
    {
        let ghost prev = string_views(r@);
        r.push(ids[i].clone());
        assert(string_views(r@) =~= prev.push(ids@[i as int]@));
        i = i + 1;
        assert(string_views(r@) =~= string_views(ids@).subrange(0, i as int));
    }
    assert(string_views(ids@).subrange(0, ids@.len() as int) =~= string_views(ids@));
    r
}

/// The result of a network removal whose network listing failed: nothing
/// is removed, since built-in networks named by id cannot be told apart.
fn listing_failed(out: &CommandOutput) -> (r: DockerCleanResult)
    ensures
        nothing_removed(r),
        !r.success,
        r.message@ == "Failed to list networks: "@ + trim(out.stderr@),
{
    let mut m: Vec<char> = Vec::new();
    push_str_chars(&mut m, "Failed to list networks: ");
    let e = chars_of(out.stderr.as_str());
    let t = trim_chars(&e);
    push_all(&mut m, &t);
    assert(m@ =~= "Failed to list networks: "@ + trim(out.stderr@));
    DockerCleanResult {
        freed_bytes: 0,
        containers_removed: 0,
        images_removed: 0,
        volumes_removed: 0,
        networks_removed: 0,
        success: false,
        message: string_of(&m),
    }
}

/// A run of removal and prune commands; see the module documentation.
pub struct CleanupRun {
    stages: Vec<Stage>,
    current: usize,
    phase: Phase,
    sizes: Vec<(String, u64)>,
    targets: Vec<String>,
    removed: usize,
    freed: u64,
    errors: Vec<String>,
    outcomes: Ghost<Seq<(bool, Seq<char>)>>,
    results: Vec<DockerCleanResult>,
    combined: bool,
    done: Option<DockerCleanResult>,
}

impl CleanupRun {
    /// The stages of the run, in the order in which they run.
    pub closed spec fn plan(&self) -> Seq<Stage> {
        self.stages@
    }

    /// The index of the stage in progress; the length of the plan once the
    /// run is over.
    pub closed spec fn stage_index(&self) -> int {
        self.current as int
    }

    pub closed spec fn phase_of(&self) -> Phase {
        self.phase
    }

    /// Whether every command of the run has been issued and answered.
    pub closed spec fn finished(&self) -> bool {
        self.done is Some
    }

    /// The outcomes of the removals of the stage in progress: whether each
    /// succeeded, and what it wrote to its error stream.
    pub closed spec fn stage_outcomes(&self) -> Seq<(bool, Seq<char>)> {
        self.outcomes@
    }

    /// The run's state is consistent.
    pub closed spec fn wf(&self) -> bool {
        &&& self.current <= self.stages@.len()
        &&& (self.done is Some) == (self.current == self.stages@.len())
        &&& forall|k: int|
            0 <= k < self.stages@.len() ==> (is_removal(#[trigger] self.stages@[k].kind)
                ==> self.stages@[k].ids@.len() > 0)
        &&& self.current < self.stages@.len() ==> match self.phase {
            Phase::CheckDaemon => self.outcomes@.len() == 0 && self.targets@.len() == 0,
            Phase::Snapshot => {
                &&& (self.stages@[self.current as int].kind == StageKind::RemoveContainers
                    || self.stages@[self.current as int].kind == StageKind::RemoveImages
                    || self.stages@[self.current as int].kind == StageKind::RemoveNetworks)
                &&& self.outcomes@.len() == 0
                &&& self.sizes@.len() == 0
                &&& self.stages@[self.current as int].kind == StageKind::RemoveNetworks
                    ==> self.targets@.len() == 0
                &&& self.stages@[self.current as int].kind != StageKind::RemoveNetworks
                    ==> string_views(self.targets@) == string_views(
                    self.stages@[self.current as int].ids@,
                )
            },
            Phase::Remove(i) => {
                &&& is_removal(self.stages@[self.current as int].kind)
                &&& i < self.targets@.len()
                &&& self.outcomes@.len() == i
                &&& (self.stages@[self.current as int].kind == StageKind::RemoveVolumes
                    || self.stages@[self.current as int].kind == StageKind::RemoveNetworks)
                    ==> self.sizes@.len() == 0
            },
            Phase::Prune => !is_removal(self.stages@[self.current as int].kind),
        }
        &&& self.removed == successes(self.outcomes@)
        &&& string_views(self.errors@) == failures(
            string_views(self.targets@),
            self.outcomes@,
        )
        &&& self.removed <= self.outcomes@.len()
        &&& self.outcomes@.len() <= usize::MAX
        &&& self.freed == cap(
            freed_sum(
                string_views(self.targets@),
                self.outcomes@,
                size_views(self.sizes@),
            ),
        )
        &&& (self.phase is CheckDaemon ==> self.sizes@.len() == 0)
        &&& (self.combined || self.stages@.len() <= 1)
    }

    /// The results of the stages that have finished, in order.
    pub closed spec fn stage_results(&self) -> Seq<DockerCleanResult> {
        self.results@
    }

    /// The command line that the run needs executed next, if any.
    pub fn command(&self) -> (r: Option<Vec<String>>)
        requires
            self.wf(),
        ensures
            r is None == self.finished(),
            r matches Some(args) ==> string_views(args@) == stage_command(
                self.plan()[self.stage_index()],
                self.phase_of(),
                self.stage_targets(),
            ),
    {
        if self.current >= self.stages.len() {
            return None;
        }
        let st = &self.stages[self.current];
        let args = match self.phase {
            Phase::CheckDaemon => {
                let mut v: Vec<String> = Vec::new();
                v.push(owned("info"));
                v
            },
            Phase::Snapshot => snapshot_args(st.kind),
            Phase::Remove(i) => removal_args(st.kind, st.force, &self.targets[i]),
            Phase::Prune => prune_args(st.kind),
        };
        proof {
            assert(string_views(args@) =~= stage_command(self.stages@[self.current as int], self.phase, string_views(self.targets@))) by {
                if self.phase is CheckDaemon {
                    assert(string_views(args@) =~= seq!["info"@]);
                }
            }
        }
        Some(args)
    }
}

fn owned(s: &str) -> (r: String)
    ensures
        r@ == s@,
{
    s.to_owned()
}

fn snapshot_args(kind: StageKind) -> (r: Vec<String>)
    ensures
        string_views(r@) == snapshot_command(kind),
{
    let mut v: Vec<String> = Vec::new();
    if kind == StageKind::RemoveContainers {
        v.push(owned("ps"));
        v.push(owned("-a"));
        v.push(owned("--no-trunc"));
        v.push(owned("--format"));
        v.push(owned(CONTAINER_FORMAT));
        assert(string_views(v@) =~= snapshot_command(kind));
    } else if kind == StageKind::RemoveNetworks {
        v.push(owned("network"));
        v.push(owned("ls"));
        v.push(owned("--no-trunc"));
        v.push(owned("--format"));
        v.push(owned(NETWORK_FORMAT));
        assert(string_views(v@) =~= snapshot_command(kind));
    } else {
        v.push(owned("images"));
        v.push(owned("-a"));
        v.push(owned("--no-trunc"));
        v.push(owned("--format"));
        v.push(owned(IMAGE_FORMAT));
        assert(string_views(v@) =~= snapshot_command(kind));
    }
    v
}

fn removal_args(kind: StageKind, force: bool, id: &String) -> (r: Vec<String>)
    ensures
        string_views(r@) == removal_command(kind, force, id@),
{
    let mut v: Vec<String> = Vec::new();
    match kind {
        StageKind::RemoveContainers => {
            v.push(owned("rm"));
            if force {
                v.push(owned("-f"));
            }
        },
        StageKind::RemoveImages => {
            v.push(owned("rmi"));
            if force {
                v.push(owned("-f"));
            }
        },
        StageKind::RemoveVolumes => {
            v.push(owned("volume"));
            v.push(owned("rm"));
        },
        _ => {
            v.push(owned("network"));
            v.push(owned("rm"));
        },
    }
    v.push(id.clone());
    assert(string_views(v@) =~= removal_command(kind, force, id@));
    v
}

fn prune_args(kind: StageKind) -> (r: Vec<String>)
    ensures
        string_views(r@) == prune_command(kind),
{
    let mut v: Vec<String> = Vec::new();
    match kind {
        StageKind::SystemPrune { all, volumes } => {
            v.push(owned("system"));
            v.push(owned("prune"));
            v.push(owned("-f"));
            if all {
                v.push(owned("-a"));
            }
            if volumes {
                v.push(owned("--volumes"));
            }
        },
        StageKind::BuilderPrune => {
            v.push(owned("builder"));
            v.push(owned("prune"));
            v.push(owned("-af"));
        },
        StageKind::PruneContainers => {
            v.push(owned("container"));
            v.push(owned("prune"));
            v.push(owned("-f"));
        },
        StageKind::PruneImages { all } => {
            v.push(owned("image"));
            v.push(owned("prune"));
            v.push(owned("-f"));
            if all {
                v.push(owned("-a"));
            }
        },
        StageKind::PruneVolumes => {
            v.push(owned("volume"));
            v.push(owned("prune"));
            v.push(owned("-f"));
        },
        _ => {
            v.push(owned("network"));
            v.push(owned("prune"));
            v.push(owned("-f"));
        },
    }
    assert(string_views(v@) =~= prune_command(kind));
    v
}

pub open spec fn size_views(v: Seq<(String, u64)>) -> Seq<(Seq<char>, u64)> {
    v.map_values(|p: (String, u64)| (p.0@, p.1))
}

/// The size that a snapshot gives for `id`: its last entry for `id`, or 0.
pub open spec fn size_in(sizes: Seq<(Seq<char>, u64)>, id: Seq<char>) -> nat
    decreases sizes.len(),
{
    if sizes.len() == 0 {
        0
    } else if sizes.last().0 == id {
        sizes.last().1 as nat
    } else {
        size_in(sizes.drop_last(), id)
    }
}

/// The bytes that the successful removals free, by the snapshot's sizes.
pub open spec fn freed_sum(
    ids: Seq<Seq<char>>,
    outcomes: Seq<(bool, Seq<char>)>,
    sizes: Seq<(Seq<char>, u64)>,
) -> nat
    decreases outcomes.len(),
{
    if outcomes.len() == 0 {
        0
    } else {
        freed_sum(ids, outcomes.drop_last(), sizes) + if outcomes.last().0 {
            size_in(sizes, ids[outcomes.len() - 1])
        } else {
            0
        }
    }
}

/// The (id, size) pairs that a snapshot listing gives: the id and size
/// fields of each row.
pub open spec fn snapshot_sizes(kind: StageKind, ls: Seq<Seq<char>>) -> Seq<(Seq<char>, u64)> {
    let n: nat = if kind == StageKind::RemoveContainers {
        6
    } else {
        4
    };
    let f: int = if kind == StageKind::RemoveContainers {
        5
    } else {
        3
    };
    rows(ls, n).map_values(
        |l: Seq<char>| (split(l, '\t')[0], docker_size(split(l, '\t')[f]) as u64),
    )
}

/// The sizes that a snapshot listing gives; none where the listing failed.
pub fn parse_snapshot(kind: StageKind, out: &CommandOutput) -> (r: Vec<(String, u64)>)
    ensures
        out.success ==> size_views(r@) == snapshot_sizes(kind, lines(out.stdout@)),
        !out.success ==> r@.len() == 0,
{
    let mut r: Vec<(String, u64)> = Vec::new();
    if !out.success {
        return r;
    }
    let n: usize = if kind == StageKind::RemoveContainers {
        6
    } else {
        4
    };
    let f: usize = if kind == StageKind::RemoveContainers {
        5
    } else {
        3
    };
    let s = chars_of(out.stdout.as_str());
    let ls = lines_of(&s);
    let ghost lv = lines(out.stdout@);
    let mut i: usize = 0;
    assert(size_views(r@) =~= rows(lv.subrange(0, 0), n as nat).map_values(
        |l: Seq<char>| (split(l, '\t')[0], docker_size(split(l, '\t')[f as int]) as u64),
    ));
    while i < ls.len()
        invariant
            i <= ls.len(),
            views(ls@) == lv,
            n == 6 || n == 4,
            f + 1 == n,
            size_views(r@) == rows(lv.subrange(0, i as int), n as nat).map_values(
                |l: Seq<char>| (split(l, '\t')[0], docker_size(split(l, '\t')[f as int]) as u64),
            ),
        decreases ls.len() - i,
    {
        let ghost sub = lv.subrange(0, i + 1);
        assert(sub.drop_last() =~= lv.subrange(0, i as int));
        assert(sub.last() == lv[i as int]);
        assert(ls@[i as int]@ == lv[i as int]);
        let t = trim_chars(&ls[i]);
        let p = split_chars(&ls[i], '\t');
        assert(views(p@).len() == p@.len());
        if t.len() > 0 && p.len() >= n {
            assert(p@[0]@ == split(lv[i as int], '\t')[0]);
            assert(p@[f as int]@ == split(lv[i as int], '\t')[f as int]);
            let size_text = string_of(&p[f]);
            let size = parse_docker_size(size_text.as_str());
            let ghost prev = size_views(r@);
            r.push((string_of(&p[0]), size));
            assert(size_views(r@) =~= prev.push((p@[0]@, size)));
        }
        assert(size_views(r@) =~= rows(sub, n as nat).map_values(
            |l: Seq<char>| (split(l, '\t')[0], docker_size(split(l, '\t')[f as int]) as u64),
        ));
        i = i + 1;
    }
    assert(lv.subrange(0, lv.len() as int) =~= lv);
    r
}

/// The size that `sizes` gives for `id`: its last entry for `id`, or 0.
fn size_for(sizes: &Vec<(String, u64)>, id: &String) -> (r: u64)
    ensures
        r == size_in(size_views(sizes@), id@),
{
    let idc = chars_of(id.as_str());
    let mut i: usize = sizes.len();
    let ghost sv = size_views(sizes@);
    assert(sv.subrange(0, sv.len() as int) =~= sv);
    while i > 0
        invariant
            i <= sizes.len(),
            sv == size_views(sizes@),
            idc@ == id@,
            size_in(sv, id@) == size_in(sv.subrange(0, i as int), id@),
        decreases i,
    {
        let ghost sub = sv.subrange(0, i as int);
        assert(sub.drop_last() =~= sv.subrange(0, i - 1));
        assert(sub.last() == (sizes@[i - 1].0@, sizes@[i - 1].1));
        let k = chars_of(sizes[i - 1].0.as_str());
        if chars_eq(&k, &idc) {
            return sizes[i - 1].1;
        }
        i = i - 1;
    }
    0
}

pub open spec fn noun(kind: StageKind) -> Seq<char> {
    match kind {
        StageKind::RemoveContainers => "container"@,
        StageKind::RemoveImages => "image"@,
        StageKind::RemoveVolumes => "volume"@,
        _ => "network"@,
    }
}

/// The message of a finished removal stage.
pub open spec fn removal_message(kind: StageKind, n: nat, errors: Seq<Seq<char>>) -> Seq<char> {
    if errors.len() == 0 {
        "Successfully removed "@ + decimal(n) + " "@ + noun(kind) + "(s)"@
    } else {
        "Removed "@ + decimal(n) + " "@ + noun(kind) + "(s) with "@ + decimal(errors.len())
            + " error(s): "@ + join(errors)
    }
}

/// Counts that a result gives for a removal of `kind`: `n` for its own
/// kind, 0 for the others.
pub open spec fn counts_only(r: DockerCleanResult, kind: StageKind, n: nat) -> bool {
    &&& r.containers_removed == if kind == StageKind::RemoveContainers {
        n
    } else {
        0
    }
    &&& r.images_removed == if kind == StageKind::RemoveImages {
        n
    } else {
        0
    }
    &&& r.volumes_removed == if kind == StageKind::RemoveVolumes {
        n
    } else {
        0
    }
    &&& r.networks_removed == if kind == StageKind::RemoveNetworks {
        n
    } else {
        0
    }
}

/// The result of a removal stage: `removed` removals succeeded, freeing
/// `freed` bytes, and `errors` lists the failures.
pub open spec fn removal_result_ok(
    r: DockerCleanResult,
    kind: StageKind,
    removed: nat,
    freed: nat,
    errors: Seq<Seq<char>>,
) -> bool {
    &&& r.freed_bytes == freed
    &&& counts_only(r, kind, removed)
    &&& r.success == (errors.len() == 0)
    &&& r.message@ == removal_message(kind, removed, errors)
}

fn push_join(out: &mut Vec<char>, es: &Vec<String>)
    ensures
        final(out)@ == old(out)@ + join(string_views(es@)),
{
    let ghost start = out@;
    let ghost ev = string_views(es@);
    let mut i: usize = 0;
    assert(ev.subrange(0, 0) =~= Seq::<Seq<char>>::empty());
    assert(out@ =~= start + join(ev.subrange(0, 0)));
    while i < es.len()
        invariant
            i <= es.len(),
            ev == string_views(es@),
            out@ == start + join(ev.subrange(0, i as int)),
        decreases es.len() - i,
    {
        let ghost sub = ev.subrange(0, i + 1);
        assert(sub.drop_last() =~= ev.subrange(0, i as int));
        assert(sub.last() == es@[i as int]@);
        if i > 0 {
            out.push(';');
            out.push(' ');
        }
        let c = chars_of(es[i].as_str());
        push_all(out, &c);
        proof {
            if i == 0 {
                assert(sub.len() == 1);
                assert(join(sub) == sub[0]);
                assert(join(ev.subrange(0, 0)) == Seq::<char>::empty());
            }
        }
        assert(out@ =~= start + join(sub));
        i = i + 1;
    }
    assert(ev.subrange(0, ev.len() as int) =~= ev);
}

/// The result of a removal stage.
fn removal_result(kind: StageKind, removed: usize, freed: u64, errors: &Vec<String>) -> (r:
    DockerCleanResult)
    requires
        is_removal(kind),
    ensures
        removal_result_ok(r, kind, removed as nat, freed as nat, string_views(errors@)),
{
    let mut m: Vec<char> = Vec::new();
    let success = errors.len() == 0;
    if success {
        push_str_chars(&mut m, "Successfully removed ");
        push_decimal(&mut m, removed as u64);
        push_str_chars(&mut m, " ");
        push_noun(&mut m, kind);
        push_str_chars(&mut m, "(s)");
    } else {
        push_str_chars(&mut m, "Removed ");
        push_decimal(&mut m, removed as u64);
        push_str_chars(&mut m, " ");
        push_noun(&mut m, kind);
        push_str_chars(&mut m, "(s) with ");
        push_decimal(&mut m, errors.len() as u64);
        push_str_chars(&mut m, " error(s): ");
        push_join(&mut m, errors);
    }
    assert(m@ =~= removal_message(kind, removed as nat, string_views(errors@)));
    DockerCleanResult {
        freed_bytes: freed,
        containers_removed: if kind == StageKind::RemoveContainers {
            removed
        } else {
            0
        },
        images_removed: if kind == StageKind::RemoveImages {
            removed
        } else {
            0
        },
        volumes_removed: if kind == StageKind::RemoveVolumes {
            removed
        } else {
            0
        },
        networks_removed: if kind == StageKind::RemoveNetworks {
            removed
        } else {
            0
        },
        success,
        message: string_of(&m),
    }
}

fn push_noun(out: &mut Vec<char>, kind: StageKind)
    ensures
        final(out)@ == old(out)@ + noun(kind),
{
    match kind {
        StageKind::RemoveContainers => push_str_chars(out, "container"),
        StageKind::RemoveImages => push_str_chars(out, "image"),
        StageKind::RemoveVolumes => push_str_chars(out, "volume"),
        _ => push_str_chars(out, "network"),
    }
}

/// A result with nothing removed.
pub open spec fn nothing_removed(r: DockerCleanResult) -> bool {
    &&& r.freed_bytes == 0
    &&& r.containers_removed == 0
    &&& r.images_removed == 0
    &&& r.volumes_removed == 0
    &&& r.networks_removed == 0
}

/// The result of a stage whose daemon did not answer.
pub fn daemon_not_running() -> (r: DockerCleanResult)
    ensures
        nothing_removed(r),
        !r.success,
        r.message@ == "Docker daemon is not running"@,
{
    DockerCleanResult {
        freed_bytes: 0,
        containers_removed: 0,
        images_removed: 0,
        volumes_removed: 0,
        networks_removed: 0,
        success: false,
        message: owned("Docker daemon is not running"),
    }
}

/// The result of a removal request that names nothing to remove.
fn nothing_to_remove(kind: StageKind) -> (r: DockerCleanResult)
    ensures
        nothing_removed(r),
        r.success,
        r.message@ == "No "@ + noun(kind) + "s to remove"@,
{
    let mut m: Vec<char> = Vec::new();
    push_str_chars(&mut m, "No ");
    push_noun(&mut m, kind);
    push_str_chars(&mut m, "s to remove");
    assert(m@ =~= "No "@ + noun(kind) + "s to remove"@);
    DockerCleanResult {
        freed_bytes: 0,
        containers_removed: 0,
        images_removed: 0,
        volumes_removed: 0,
        networks_removed: 0,
        success: true,
        message: string_of(&m),
    }
}

/// What a successful prune reports having freed: nothing for networks.
pub open spec fn prune_freed(kind: StageKind, stdout: Seq<char>) -> nat {
    if kind == StageKind::PruneNetworks {
        0
    } else {
        reclaimed_space(stdout)
    }
}

/// The result of a prune stage, from what its command printed.
pub open spec fn prune_result_ok(r: DockerCleanResult, kind: StageKind, out: CommandOutput) -> bool {
    let deleted = count_deletions(lines(out.stdout@));
    &&& r.success == out.success
    &&& r.freed_bytes == if out.success {
        prune_freed(kind, out.stdout@)
    } else {
        0
    }
    &&& r.containers_removed == if out.success && kind == StageKind::PruneContainers {
        deleted
    } else {
        0
    }
    &&& r.images_removed == if out.success && kind is PruneImages {
        deleted
    } else {
        0
    }
    &&& r.volumes_removed == if out.success && kind == StageKind::PruneVolumes {
        deleted
    } else {
        0
    }
    &&& r.networks_removed == if out.success && kind == StageKind::PruneNetworks {
        deleted
    } else {
        0
    }
    &&& !out.success ==> r.message@ == prune_label(kind) + " failed: "@ + trim(out.stderr@)
}

pub open spec fn prune_label(kind: StageKind) -> Seq<char> {
    match kind {
        StageKind::SystemPrune { .. } => "System prune"@,
        StageKind::BuilderPrune => "Builder prune"@,
        StageKind::PruneContainers => "Container prune"@,
        StageKind::PruneImages { .. } => "Image prune"@,
        StageKind::PruneVolumes => "Volume prune"@,
        _ => "Network prune"@,
    }
}

fn push_prune_label(out: &mut Vec<char>, kind: StageKind)
    ensures
        final(out)@ == old(out)@ + prune_label(kind),
{
    match kind {
        StageKind::SystemPrune { .. } => push_str_chars(out, "System prune"),
        StageKind::BuilderPrune => push_str_chars(out, "Builder prune"),
        StageKind::PruneContainers => push_str_chars(out, "Container prune"),
        StageKind::PruneImages { .. } => push_str_chars(out, "Image prune"),
        StageKind::PruneVolumes => push_str_chars(out, "Volume prune"),
        _ => push_str_chars(out, "Network prune"),
    }
}

/// The result of a prune stage.
fn prune_result(kind: StageKind, out: &CommandOutput) -> (r: DockerCleanResult)
    requires
        !is_removal(kind),
    ensures
        prune_result_ok(r, kind, *out),
{
    let mut m: Vec<char> = Vec::new();
    if !out.success {
        push_prune_label(&mut m, kind);
        push_str_chars(&mut m, " failed: ");
        let e = chars_of(out.stderr.as_str());
        let t = trim_chars(&e);
        push_all(&mut m, &t);
        assert(m@ =~= prune_label(kind) + " failed: "@ + trim(out.stderr@));
        return DockerCleanResult {
            freed_bytes: 0,
            containers_removed: 0,
            images_removed: 0,
            volumes_removed: 0,
            networks_removed: 0,
            success: false,
            message: string_of(&m),
        };
    }
    let freed: u64 = if kind == StageKind::PruneNetworks {
        0
    } else {
        parse_reclaimed_space(out.stdout.as_str())
    };
    let deleted = count_deleted_items(out.stdout.as_str());
    match kind {
        StageKind::SystemPrune { .. } => {
            push_str_chars(&mut m, "System prune completed. Reclaimed ");
            push_decimal(&mut m, freed);
            push_str_chars(&mut m, " bytes");
        },
        StageKind::BuilderPrune => {
            push_str_chars(&mut m, "Builder cache pruned. Reclaimed ");
            push_decimal(&mut m, freed);
            push_str_chars(&mut m, " bytes");
        },
        StageKind::PruneContainers => push_str_chars(&mut m, "Containers pruned successfully"),
        StageKind::PruneImages { .. } => push_str_chars(&mut m, "Images pruned successfully"),
        StageKind::PruneVolumes => push_str_chars(&mut m, "Volumes pruned successfully"),
        _ => push_str_chars(&mut m, "Networks pruned successfully"),
    }
    DockerCleanResult {
        freed_bytes: freed,
        containers_removed: if kind == StageKind::PruneContainers {
            deleted
        } else {
            0
        },
        images_removed: if matches!(kind, StageKind::PruneImages { .. }) {
            deleted
        } else {
            0
        },
        volumes_removed: if kind == StageKind::PruneVolumes {
            deleted
        } else {
            0
        },
        networks_removed: if kind == StageKind::PruneNetworks {
            deleted
        } else {
            0
        },
        success: true,
        message: string_of(&m),
    }
}

pub open spec fn cap_usize(v: nat) -> nat {
    if v > usize::MAX {
        usize::MAX as nat
    } else {
        v
    }
}

pub open spec fn sum_freed(rs: Seq<DockerCleanResult>) -> nat
    decreases rs.len(),
{
    if rs.len() == 0 {
        0
    } else {
        sum_freed(rs.drop_last()) + rs.last().freed_bytes as nat
    }
}

pub open spec fn sum_containers(rs: Seq<DockerCleanResult>) -> nat
    decreases rs.len(),
{
    if rs.len() == 0 {
        0
    } else {
        sum_containers(rs.drop_last()) + rs.last().containers_removed as nat
    }
}

pub open spec fn sum_images(rs: Seq<DockerCleanResult>) -> nat
    decreases rs.len(),
{
    if rs.len() == 0 {
        0
    } else {
        sum_images(rs.drop_last()) + rs.last().images_removed as nat
    }
}

pub open spec fn sum_volumes(rs: Seq<DockerCleanResult>) -> nat
    decreases rs.len(),
{
    if rs.len() == 0 {
        0
    } else {
        sum_volumes(rs.drop_last()) + rs.last().volumes_removed as nat
    }
}

pub open spec fn sum_networks(rs: Seq<DockerCleanResult>) -> nat
    decreases rs.len(),
{
    if rs.len() == 0 {
        0
    } else {
        sum_networks(rs.drop_last()) + rs.last().networks_removed as nat
    }
}

/// The messages of the stages that did not succeed, in order.
pub open spec fn failed_messages(rs: Seq<DockerCleanResult>) -> Seq<Seq<char>>
    decreases rs.len(),
{
    if rs.len() == 0 {
        Seq::empty()
    } else if rs.last().success {
        failed_messages(rs.drop_last())
    } else {
        failed_messages(rs.drop_last()).push(rs.last().message@)
    }
}

pub open spec fn counts_text(c: nat, i: nat, v: nat, n: nat) -> Seq<char> {
    decimal(c) + " containers, "@ + decimal(i) + " images, "@ + decimal(v) + " volumes, "@
        + decimal(n) + " networks"@
}

/// The result of a suggestion cleanup: the stages' counts and freed bytes
/// added up (capped), success when every stage succeeded, and a message that
/// gives the counts and, on failure, every failed stage's message.
pub open spec fn combined_ok(r: DockerCleanResult, rs: Seq<DockerCleanResult>) -> bool {
    let c = cap_usize(sum_containers(rs));
    let i = cap_usize(sum_images(rs));
    let v = cap_usize(sum_volumes(rs));
    let n = cap_usize(sum_networks(rs));
    let f = cap(sum_freed(rs));
    &&& r.freed_bytes == f
    &&& r.containers_removed == c
    &&& r.images_removed == i
    &&& r.volumes_removed == v
    &&& r.networks_removed == n
    &&& r.success == (failed_messages(rs).len() == 0)
    &&& r.message@ == if failed_messages(rs).len() == 0 {
        "Cleanup complete: "@ + counts_text(c, i, v, n) + " removed. "@ + format_size_spec(f)
            + " freed."@
    } else {
        "Partial cleanup: "@ + counts_text(c, i, v, n) + ". Errors: "@ + join(
            failed_messages(rs),
        )
    }
}

fn add_capped_usize(a: usize, b: usize) -> (r: usize)
    ensures
        r == cap_usize((a + b) as nat),
{
    if a > usize::MAX - b {
        usize::MAX
    } else {
        a + b
    }
}

fn add_capped_u64(a: u64, b: u64) -> (r: u64)
    ensures
        r == cap((a + b) as nat),
{
    if a > u64::MAX - b {
        u64::MAX
    } else {
        a + b
    }
}

fn push_counts(out: &mut Vec<char>, c: usize, i: usize, v: usize, n: usize)
    ensures
        final(out)@ == old(out)@ + counts_text(c as nat, i as nat, v as nat, n as nat),
{
    push_decimal(out, c as u64);
    push_str_chars(out, " containers, ");
    push_decimal(out, i as u64);
    push_str_chars(out, " images, ");
    push_decimal(out, v as u64);
    push_str_chars(out, " volumes, ");
    push_decimal(out, n as u64);
    push_str_chars(out, " networks");
    assert(final(out)@ =~= old(out)@ + counts_text(c as nat, i as nat, v as nat, n as nat));
}

/// The aggregated result of the stages of a suggestion cleanup.
fn combine(rs: &Vec<DockerCleanResult>) -> (r: DockerCleanResult)
    ensures
        combined_ok(r, rs@),
{
    let mut c: usize = 0;
    let mut im: usize = 0;
    let mut v: usize = 0;
    let mut n: usize = 0;
    let mut f: u64 = 0;
    let mut errors: Vec<String> = Vec::new();
    let mut k: usize = 0;
    while k < rs.len()
        invariant
            k <= rs.len(),
            c == cap_usize(sum_containers(rs@.subrange(0, k as int))),
            im == cap_usize(sum_images(rs@.subrange(0, k as int))),
            v == cap_usize(sum_volumes(rs@.subrange(0, k as int))),
            n == cap_usize(sum_networks(rs@.subrange(0, k as int))),
            f == cap(sum_freed(rs@.subrange(0, k as int))),
            string_views(errors@) == failed_messages(rs@.subrange(0, k as int)),
        decreases rs.len() - k,
    {
        let ghost sub = rs@.subrange(0, k + 1);
        assert(sub.drop_last() =~= rs@.subrange(0, k as int));
        assert(sub.last() == rs@[k as int]);
        let r = &rs[k];
        c = add_capped_usize(c, r.containers_removed);
        im = add_capped_usize(im, r.images_removed);
        v = add_capped_usize(v, r.volumes_removed);
        n = add_capped_usize(n, r.networks_removed);
        f = add_capped_u64(f, r.freed_bytes);
        if !r.success {
            let msg = r.message.clone();
            let ghost prev = string_views(errors@);
            errors.push(msg);
            assert(string_views(errors@) =~= prev.push(r.message@));
        }
        assert(string_views(errors@) =~= failed_messages(sub));
        k = k + 1;
    }
    assert(rs@.subrange(0, rs.len() as int) =~= rs@);
    let mut m: Vec<char> = Vec::new();
    let success = errors.len() == 0;
    if success {
        push_str_chars(&mut m, "Cleanup complete: ");
        push_counts(&mut m, c, im, v, n);
        push_str_chars(&mut m, " removed. ");
        let fs = format_size(f);
        push_str_chars(&mut m, fs.as_str());
        push_str_chars(&mut m, " freed.");
    } else {
        push_str_chars(&mut m, "Partial cleanup: ");
        push_counts(&mut m, c, im, v, n);
        push_str_chars(&mut m, ". Errors: ");
        push_join(&mut m, &errors);
    }
    DockerCleanResult {
        freed_bytes: f,
        containers_removed: c,
        images_removed: im,
        volumes_removed: v,
        networks_removed: n,
        success,
        message: string_of(&m),
    }
}

impl CleanupRun {
    /// The result of the stage that finished last.
    pub closed spec fn last_result(&self) -> DockerCleanResult {
        if self.combined {
            self.results@.last()
        } else {
            self.done->0
        }
    }

    /// The aggregated result, once the run is over.
    pub closed spec fn result(&self) -> DockerCleanResult {
        self.done->0
    }

    /// Whether the run aggregates several stages (a suggestion cleanup).
    pub closed spec fn is_combined(&self) -> bool {
        self.combined
    }

    /// The resources that the stage in progress removes, one command each:
    /// its ids, without those that the network listing shows to be built-in
    /// networks.
    pub closed spec fn stage_targets(&self) -> Seq<Seq<char>> {
        string_views(self.targets@)
    }

    /// The sizes that the stage in progress read before removing.
    pub closed spec fn stage_sizes(&self) -> Seq<(Seq<char>, u64)> {
        size_views(self.sizes@)
    }

    fn finish_stage(&mut self, r: DockerCleanResult)
        requires
            old(self).current < old(self).stages@.len(),
            old(self).combined || old(self).stages@.len() <= 1,
            old(self).done is None,
        ensures
            final(self).stages@ == old(self).stages@,
            final(self).current == old(self).current + 1,
            final(self).phase == Phase::CheckDaemon,
            final(self).outcomes@.len() == 0,
            final(self).removed == 0,
            final(self).freed == 0,
            final(self).errors@.len() == 0,
            string_views(final(self).errors@) == Seq::<Seq<char>>::empty(),
            final(self).sizes@.len() == 0,
            final(self).targets@.len() == 0,
            string_views(final(self).targets@) == Seq::<Seq<char>>::empty(),
            final(self).combined == old(self).combined,
            final(self).combined ==> final(self).results@ == old(self).results@.push(r),
            !final(self).combined ==> final(self).results@ == old(self).results@,
            (final(self).done is Some) == (final(self).current == final(self).stages@.len()),
            final(self).done is Some && !final(self).combined ==> final(self).done->0 == r,
            final(self).done is Some && final(self).combined ==> combined_ok(
                final(self).done->0,
                final(self).results@,
            ),
    {
        let count = self.stages.len();
        self.current = self.current + 1;
        self.phase = Phase::CheckDaemon;
        self.outcomes = Ghost(Seq::empty());
        self.removed = 0;
        self.freed = 0;
        self.errors = Vec::new();
        assert(string_views(self.errors@) =~= Seq::<Seq<char>>::empty());
        self.sizes = Vec::new();
        self.targets = Vec::new();
        assert(string_views(self.targets@) =~= Seq::<Seq<char>>::empty());
        if self.combined {
            self.results.push(r);
            if self.current == count {
                self.done = Some(combine(&self.results));
            }
        } else {
            self.done = Some(r);
        }
    }

    /// Hands the run what the command of `command` printed.
    pub fn feed(&mut self, out: CommandOutput)
        requires
            old(self).wf(),
            !old(self).finished(),
        ensures
            final(self).wf(),
            old(self).phase_of() is CheckDaemon && out.success ==> final(self).stage_index() == old(
                self,
            ).stage_index() && final(self).phase_of() == phase_after_daemon(
                old(self).plan()[old(self).stage_index()].kind,
            ) && final(self).stage_sizes().len() == 0 && final(self).stage_targets() == if old(self).plan()[old(
                self,
            ).stage_index()].kind == StageKind::RemoveNetworks || !is_removal(
                old(self).plan()[old(self).stage_index()].kind,
            ) {
                Seq::<Seq<char>>::empty()
            } else {
                string_views(old(self).plan()[old(self).stage_index()].ids@)
            },
            old(self).phase_of() is Snapshot && old(self).plan()[old(self).stage_index()].kind
                != StageKind::RemoveNetworks ==> final(self).stage_index() == old(self).stage_index()
                && final(self).phase_of() == Phase::Remove(0) && final(self).stage_targets() == old(
                self,
            ).stage_targets() && final(self).stage_sizes() == (if out.success {
                snapshot_sizes(old(self).plan()[old(self).stage_index()].kind, lines(out.stdout@))
            } else {
                Seq::<(Seq<char>, u64)>::empty()
            }),
            old(self).phase_of() is Snapshot && old(self).plan()[old(self).stage_index()].kind
                == StageKind::RemoveNetworks && !out.success ==> final(self).stage_index() == old(
                self,
            ).stage_index() + 1 && nothing_removed(final(self).last_result())
                && !final(self).last_result().success && final(self).last_result().message@
                == "Failed to list networks: "@ + trim(out.stderr@),
            old(self).phase_of() is Snapshot && old(self).plan()[old(self).stage_index()].kind
                == StageKind::RemoveNetworks && out.success ==> ({
                let t = network_targets(
                    string_views(old(self).plan()[old(self).stage_index()].ids@),
                    listing_of(out),
                );
                &&& t.len() > 0 ==> final(self).stage_index() == old(self).stage_index()
                    && final(self).phase_of() == Phase::Remove(0) && final(self).stage_targets()
                    == t && final(self).stage_sizes().len() == 0
                &&& t.len() == 0 ==> final(self).stage_index() == old(self).stage_index() + 1
                    && nothing_removed(final(self).last_result()) && final(self).last_result().success
            }),
            final(self).finished() == (final(self).stage_index() == final(self).plan().len()),
            final(self).stage_index() <= final(self).plan().len(),
            old(self).phase_of() matches Phase::Remove(i) ==> ((final(self).stage_index() == old(
                self,
            ).stage_index()) == (i + 1 < old(self).stage_targets().len()) && (
            final(self).stage_index() == old(self).stage_index() ==> final(self).phase_of()
                == Phase::Remove((i + 1) as usize) && final(self).stage_sizes() == old(
                self,
            ).stage_sizes() && final(self).stage_targets() == old(self).stage_targets())),
            old(self).phase_of() is Prune ==> final(self).stage_index() == old(self).stage_index() + 1,
            final(self).is_combined() ==> final(self).stage_results() == if final(self).stage_index()
                > old(self).stage_index() {
                old(self).stage_results().push(final(self).last_result())
            } else {
                old(self).stage_results()
            },
            !final(self).is_combined() ==> final(self).stage_results() == old(self).stage_results(),
            final(self).plan() == old(self).plan(),
            final(self).is_combined() == old(self).is_combined(),
            final(self).stage_index() == old(self).stage_index() || final(self).stage_index()
                == old(self).stage_index() + 1,
            final(self).finished() && final(self).is_combined() ==> combined_ok(
                final(self).result(),
                final(self).stage_results(),
            ),
            final(self).finished() && !final(self).is_combined() ==> final(self).result()
                == final(self).last_result(),
            final(self).stage_index() > old(self).stage_index() ==> match old(self).phase_of() {
                Phase::Remove(_) => removal_result_ok(
                    final(self).last_result(),
                    old(self).plan()[old(self).stage_index()].kind,
                    successes(old(self).stage_outcomes().push((out.success, out.stderr@))),
                    cap(
                        freed_sum(
                            old(self).stage_targets(),
                            old(self).stage_outcomes().push((out.success, out.stderr@)),
                            old(self).stage_sizes(),
                        ),
                    ),
                    failures(
                        old(self).stage_targets(),
                        old(self).stage_outcomes().push((out.success, out.stderr@)),
                    ),
                ),
                Phase::Prune => prune_result_ok(
                    final(self).last_result(),
                    old(self).plan()[old(self).stage_index()].kind,
                    out,
                ),
                Phase::Snapshot => nothing_removed(final(self).last_result())
                    && final(self).last_result().success == out.success,
                _ => nothing_removed(final(self).last_result()) && final(self).last_result().success
                    == false,
            },
            final(self).stage_index() == old(self).stage_index() ==> match old(self).phase_of() {
                Phase::Remove(_) => final(self).stage_outcomes() == old(
                    self,
                ).stage_outcomes().push((out.success, out.stderr@)),
                _ => final(self).stage_outcomes().len() == 0,
            },
            old(self).phase_of() is CheckDaemon && !out.success ==> final(self).stage_index()
                == old(self).stage_index() + 1,
    {
        let kind = self.stages[self.current].kind;
        let ghost ids = string_views(self.targets@);
        match self.phase {
            Phase::CheckDaemon => {
                if !out.success {
                    self.finish_stage(daemon_not_running());
                } else if kind == StageKind::RemoveContainers || kind == StageKind::RemoveImages {
                    self.targets = copy_ids(&self.stages[self.current].ids);
                    self.phase = Phase::Snapshot;
                } else if kind == StageKind::RemoveNetworks {
                    self.phase = Phase::Snapshot;
                } else if kind == StageKind::RemoveVolumes {
                    self.targets = copy_ids(&self.stages[self.current].ids);
                    self.phase = Phase::Remove(0);
                    assert(self.stages@[self.current as int].ids@.len() > 0);
                    assert(string_views(self.targets@).len() == self.targets@.len());
                    assert(string_views(self.stages@[self.current as int].ids@).len()
                        == self.stages@[self.current as int].ids@.len());
                } else {
                    self.phase = Phase::Prune;
                }
            },
            Phase::Snapshot => {
                if kind == StageKind::RemoveNetworks && !out.success {
                    self.finish_stage(listing_failed(&out));
                } else if kind == StageKind::RemoveNetworks {
                    let listing = parse_network_listing(&out);
                    self.targets = network_targets_exec(&self.stages[self.current].ids, &listing);
                    if self.targets.len() == 0 {
                        self.finish_stage(nothing_to_remove(kind));
                    } else {
                        self.phase = Phase::Remove(0);
                        assert(failures(string_views(self.targets@), self.outcomes@) =~= Seq::<
                            Seq<char>,
                        >::empty());
                    }
                } else {
                    self.sizes = parse_snapshot(kind, &out);
                    self.phase = Phase::Remove(0);
                    assert(string_views(self.targets@).len() == self.targets@.len());
                    assert(string_views(self.stages@[self.current as int].ids@).len()
                        == self.stages@[self.current as int].ids@.len());
                    assert(freed_sum(
                        string_views(self.targets@),
                        self.outcomes@,
                        size_views(self.sizes@),
                    ) == 0);
                }
            },
            Phase::Remove(i) => {
                let count = self.targets.len();
                let ghost o2 = self.outcomes@.push((out.success, out.stderr@));
                let id = self.targets[i].clone();
                assert(ids[i as int] == id@);
                if out.success {
                    let size = size_for(&self.sizes, &id);
                    self.removed = self.removed + 1;
                    self.freed = add_capped_u64(self.freed, size);
                } else {
                    let mut e: Vec<char> = Vec::new();
                    let idc = chars_of(id.as_str());
                    push_all(&mut e, &idc);
                    e.push(':');
                    e.push(' ');
                    let sc = chars_of(out.stderr.as_str());
                    let t = trim_chars(&sc);
                    push_all(&mut e, &t);
                    assert(e@ =~= error_entry(id@, out.stderr@));
                    let ghost prev = string_views(self.errors@);
                    self.errors.push(string_of(&e));
                    assert(string_views(self.errors@) =~= prev.push(error_entry(id@, out.stderr@)));
                }
                self.outcomes = Ghost(o2);
                assert(o2.drop_last() =~= old(self).outcomes@);
                assert(o2.last() == (out.success, out.stderr@));
                assert(failures(ids, o2) == if out.success {
                    failures(ids, old(self).outcomes@)
                } else {
                    failures(ids, old(self).outcomes@).push(error_entry(ids[i as int], out.stderr@))
                });
                assert(string_views(self.errors@) == failures(ids, o2));
                if i + 1 < count {
                    self.phase = Phase::Remove(i + 1);
                } else {
                    let r = removal_result(kind, self.removed, self.freed, &self.errors);
                    self.finish_stage(r);
                }
            },
            Phase::Prune => {
                let r = prune_result(kind, &out);
                self.finish_stage(r);
            },
        }
    }

    /// The aggregated result of a finished run.
    pub fn outcome(self) -> (r: DockerCleanResult)
        requires
            self.wf(),
            self.finished(),
        ensures
            r == self.result(),
    {
        match self.done {
            Some(r) => r,
            None => {
                assert(false);
                daemon_not_running()
            },
        }
    }
}

/// The stages of a plan run in the fixed order containers, images, volumes,
/// networks, build cache, each at most once.
pub open spec fn plan_ordered(plan: Seq<Stage>) -> bool {
    forall|j: int, k: int|
        0 <= j < k < plan.len() ==> stage_rank(#[trigger] plan[j].kind) < stage_rank(
            #[trigger] plan[k].kind,
        )
}

/// The ids of the suggestions of type `t`, in order.
pub open spec fn ids_of_type(sugs: Seq<DockerSuggestion>, t: DockerResourceType) -> Seq<
    Seq<char>,
>
    decreases sugs.len(),
{
    if sugs.len() == 0 {
        Seq::empty()
    } else if sugs.last().resource_type == t {
        ids_of_type(sugs.drop_last(), t).push(sugs.last().id@)
    } else {
        ids_of_type(sugs.drop_last(), t)
    }
}

pub open spec fn has_type(sugs: Seq<DockerSuggestion>, t: DockerResourceType) -> bool {
    exists|k: int| 0 <= k < sugs.len() && #[trigger] sugs[k].resource_type == t
}

/// A run that is over before it began.
fn finished_with(r: DockerCleanResult) -> (run: CleanupRun)
    ensures
        run.wf(),
        run.finished(),
        run.result() == r,
        !run.is_combined(),
        run.plan().len() == 0,
{
    let run = CleanupRun {
        stages: Vec::new(),
        current: 0,
        phase: Phase::CheckDaemon,
        sizes: Vec::new(),
        targets: Vec::new(),
        removed: 0,
        freed: 0,
        errors: Vec::new(),
        outcomes: Ghost(Seq::empty()),
        results: Vec::new(),
        combined: false,
        done: Some(r),
    };
    assert(string_views(run.errors@) =~= Seq::<Seq<char>>::empty());
    run
}

/// A run of one stage.
fn single(stage: Stage) -> (run: CleanupRun)
    requires
        is_removal(stage.kind) ==> stage.ids@.len() > 0,
    ensures
        run.wf(),
        !run.finished(),
        !run.is_combined(),
        run.plan() == seq![stage],
        run.stage_index() == 0,
        run.phase_of() == Phase::CheckDaemon,
        run.stage_results().len() == 0,
{
    let mut stages: Vec<Stage> = Vec::new();
    stages.push(stage);
    let run = CleanupRun {
        stages,
        current: 0,
        phase: Phase::CheckDaemon,
        sizes: Vec::new(),
        targets: Vec::new(),
        removed: 0,
        freed: 0,
        errors: Vec::new(),
        outcomes: Ghost(Seq::empty()),
        results: Vec::new(),
        combined: false,
        done: None,
    };
    assert(string_views(run.errors@) =~= Seq::<Seq<char>>::empty());
    assert(run.stages@ =~= seq![stage]);
    run
}

/// The ids of `ids` without the built-in networks when `kind` removes networks.
fn requested_ids(kind: StageKind, ids: Vec<String>) -> (r: Vec<String>)
    ensures
        string_views(r@) == requested(kind, string_views(ids@)),
{
    let ghost iv = string_views(ids@);
    let mut r: Vec<String> = Vec::new();
    let mut i: usize = 0;
    assert(string_views(r@) =~= requested(kind, iv.subrange(0, 0)));
    while i < ids.len()
        invariant
            i <= ids.len(),
            iv == string_views(ids@),
            string_views(r@) == requested(kind, iv.subrange(0, i as int)),
        decreases ids.len() - i,
    {
        let ghost sub = iv.subrange(0, i + 1);
        assert(sub.drop_last() =~= iv.subrange(0, i as int));
        assert(sub.last() == ids@[i as int]@);
        if !(kind == StageKind::RemoveNetworks && is_default_network(ids[i].as_str())) {
            let ghost prev = string_views(r@);
            r.push(ids[i].clone());
            assert(string_views(r@) =~= prev.push(ids@[i as int]@));
        }
        assert(string_views(r@) =~= requested(kind, sub));
        i = i + 1;
    }
    assert(iv.subrange(0, iv.len() as int) =~= iv);
    r
}

/// A removal run: nothing to do, and no command, when the request names
/// nothing (or, for networks, only built-in networks).
fn removal_run(kind: StageKind, ids: Vec<String>, force: bool) -> (run: CleanupRun)
    requires
        is_removal(kind),
    ensures
        run.wf(),
        !run.is_combined(),
        requested(kind, string_views(ids@)).len() == 0 ==> run.finished() && run.result().success
            && nothing_removed(run.result()) && run.result().message@ == "No "@ + noun(kind)
            + "s to remove"@,
        requested(kind, string_views(ids@)).len() > 0 ==> !run.finished() && run.plan().len() == 1
            && run.plan()[0].kind == kind && string_views(run.plan()[0].ids@) == requested(
            kind,
            string_views(ids@),
        ) && run.plan()[0].force == force && run.stage_index() == 0 && run.phase_of()
            == Phase::CheckDaemon,
{
    let wanted = requested_ids(kind, ids);
    if wanted.len() == 0 {
        finished_with(nothing_to_remove(kind))
    } else {
        single(Stage { kind, ids: wanted, force })
    }
}

/// Removes the given containers, one command each (`rm`, with `-f` when
/// `force`), after reading their sizes.
pub fn remove_containers(ids: Vec<String>, force: bool) -> (run: CleanupRun)
    ensures
        run.wf(),
        !run.is_combined(),
        ids@.len() == 0 ==> run.finished() && run.result().success && nothing_removed(run.result()),
        ids@.len() > 0 ==> !run.finished() && run.plan().len() == 1 && run.plan()[0].kind
            == StageKind::RemoveContainers && string_views(run.plan()[0].ids@) == string_views(ids@) && run.plan()[0].force
            == force && run.stage_index() == 0 && run.phase_of() == Phase::CheckDaemon,
{
    proof {
        lemma_requested_keeps(StageKind::RemoveContainers, string_views(ids@));
    }
    removal_run(StageKind::RemoveContainers, ids, force)
}

/// Removes the given images, one command each (`rmi`, with `-f` when
/// `force`), after reading their sizes.
pub fn remove_images(ids: Vec<String>, force: bool) -> (run: CleanupRun)
    ensures
        run.wf(),
        !run.is_combined(),
        ids@.len() == 0 ==> run.finished() && run.result().success && nothing_removed(run.result()),
        ids@.len() > 0 ==> !run.finished() && run.plan().len() == 1 && run.plan()[0].kind
            == StageKind::RemoveImages && string_views(run.plan()[0].ids@) == string_views(ids@) && run.plan()[0].force == force
            && run.stage_index() == 0 && run.phase_of() == Phase::CheckDaemon,
{
    proof {
        lemma_requested_keeps(StageKind::RemoveImages, string_views(ids@));
    }
    removal_run(StageKind::RemoveImages, ids, force)
}

/// Removes the given volumes, one command each.
pub fn remove_volumes(names: Vec<String>) -> (run: CleanupRun)
    ensures
        run.wf(),
        !run.is_combined(),
        names@.len() == 0 ==> run.finished() && run.result().success && nothing_removed(
            run.result(),
        ),
        names@.len() > 0 ==> !run.finished() && run.plan().len() == 1 && run.plan()[0].kind
            == StageKind::RemoveVolumes && string_views(run.plan()[0].ids@) == string_views(names@)
            && run.stage_index() == 0 && run.phase_of() == Phase::CheckDaemon,
{
    proof {
        lemma_requested_keeps(StageKind::RemoveVolumes, string_views(names@));
    }
    removal_run(StageKind::RemoveVolumes, names, false)
}

/// Removes the given networks, one command each. The built-in networks
/// (bridge, host, none) are left out without a word: by name here, and by
/// engine id (or a prefix of one) once the network listing has been read.
/// Where the listing cannot be read, nothing is removed and the stage fails.
pub fn remove_networks(ids: Vec<String>) -> (run: CleanupRun)
    ensures
        run.wf(),
        !run.is_combined(),
        requested(StageKind::RemoveNetworks, string_views(ids@)).len() == 0 ==> run.finished()
            && run.result().success && nothing_removed(run.result()),
        requested(StageKind::RemoveNetworks, string_views(ids@)).len() > 0 ==> !run.finished()
            && run.plan().len() == 1 && run.plan()[0].kind == StageKind::RemoveNetworks
            && string_views(run.plan()[0].ids@) == requested(
            StageKind::RemoveNetworks,
            string_views(ids@),
        ) && run.stage_index() == 0 && run.phase_of() == Phase::CheckDaemon,
{
    removal_run(StageKind::RemoveNetworks, ids, false)
}

/// Prunes every unused resource (`system prune -f`, with `-a` when `all`
/// and `--volumes` when `volumes`).
pub fn docker_system_prune(all: bool, volumes: bool) -> (run: CleanupRun)
    ensures
        run.wf(),
        !run.finished(),
        run.plan().len() == 1,
        run.plan()[0].kind == (StageKind::SystemPrune { all, volumes }),
        run.stage_index() == 0,
        run.phase_of() == Phase::CheckDaemon,
{
    single(Stage { kind: StageKind::SystemPrune { all, volumes }, ids: Vec::new(), force: false })
}

/// Prunes the builder cache (`builder prune -af`).
pub fn docker_builder_prune() -> (run: CleanupRun)
    ensures
        run.wf(),
        !run.finished(),
        run.plan().len() == 1,
        run.plan()[0].kind == StageKind::BuilderPrune,
        run.stage_index() == 0,
        run.phase_of() == Phase::CheckDaemon,
{
    single(Stage { kind: StageKind::BuilderPrune, ids: Vec::new(), force: false })
}

/// Prunes stopped containers.
pub fn prune_containers() -> (run: CleanupRun)
    ensures
        run.wf(),
        !run.finished(),
        run.plan().len() == 1,
        run.plan()[0].kind == StageKind::PruneContainers,
        run.stage_index() == 0,
        run.phase_of() == Phase::CheckDaemon,
{
    single(Stage { kind: StageKind::PruneContainers, ids: Vec::new(), force: false })
}

/// Prunes dangling images, or every unused image when `all`.
pub fn prune_images(all: bool) -> (run: CleanupRun)
    ensures
        run.wf(),
        !run.finished(),
        run.plan().len() == 1,
        run.plan()[0].kind == (StageKind::PruneImages { all }),
        run.stage_index() == 0,
        run.phase_of() == Phase::CheckDaemon,
{
    single(Stage { kind: StageKind::PruneImages { all }, ids: Vec::new(), force: false })
}

/// Prunes unused volumes.
pub fn prune_volumes() -> (run: CleanupRun)
    ensures
        run.wf(),
        !run.finished(),
        run.plan().len() == 1,
        run.plan()[0].kind == StageKind::PruneVolumes,
        run.stage_index() == 0,
        run.phase_of() == Phase::CheckDaemon,
{
    single(Stage { kind: StageKind::PruneVolumes, ids: Vec::new(), force: false })
}

/// Prunes unused networks.
pub fn prune_networks() -> (run: CleanupRun)
    ensures
        run.wf(),
        !run.finished(),
        run.plan().len() == 1,
        run.plan()[0].kind == StageKind::PruneNetworks,
        run.stage_index() == 0,
        run.phase_of() == Phase::CheckDaemon,
{
    single(Stage { kind: StageKind::PruneNetworks, ids: Vec::new(), force: false })
}

/// Outside network removals, a request keeps every id.
proof fn lemma_requested_keeps(kind: StageKind, ids: Seq<Seq<char>>)
    requires
        kind != StageKind::RemoveNetworks,
    ensures
        requested(kind, ids) == ids,
    decreases ids.len(),
{
    if ids.len() > 0 {
        lemma_requested_keeps(kind, ids.drop_last());
        assert(ids.drop_last().push(ids.last()) =~= ids);
    }
}


fn push_stage(stages: &mut Vec<Stage>, st: Stage)
    requires
        plan_ordered(old(stages)@),
        forall|k: int| 0 <= k < old(stages)@.len() ==> stage_rank(#[trigger] old(stages)@[k].kind)
            < stage_rank(st.kind),
    ensures
        plan_ordered(final(stages)@),
        final(stages)@ == old(stages)@.push(st),
{
    stages.push(st);
}

/// The stage of a suggestion cleanup that removes resources of `kind`, with
/// the ids that the suggestions give for it.
pub open spec fn stage_matches(st: Stage, sugs: Seq<DockerSuggestion>) -> bool {
    match st.kind {
        StageKind::RemoveContainers => string_views(st.ids@) == ids_of_type(
            sugs,
            DockerResourceType::Container,
        ) && st.force,
        StageKind::RemoveImages => string_views(st.ids@) == ids_of_type(
            sugs,
            DockerResourceType::Image,
        ) && st.force,
        StageKind::RemoveVolumes => string_views(st.ids@) == ids_of_type(
            sugs,
            DockerResourceType::Volume,
        ),
        StageKind::RemoveNetworks => string_views(st.ids@) == requested(
            StageKind::RemoveNetworks,
            ids_of_type(sugs, DockerResourceType::Network),
        ),
        StageKind::BuilderPrune => has_type(sugs, DockerResourceType::BuildCache),
        _ => false,
    }
}

pub open spec fn plan_has(plan: Seq<Stage>, kind: StageKind) -> bool {
    exists|k: int| 0 <= k < plan.len() && #[trigger] plan[k].kind == kind
}

/// The ids that the suggestions give for each kind of resource, and whether
/// one names the build cache.
fn partition(suggestions: &Vec<DockerSuggestion>) -> (r: (
    Vec<String>,
    Vec<String>,
    Vec<String>,
    Vec<String>,
    bool,
))
    ensures
        string_views(r.0@) == ids_of_type(suggestions@, DockerResourceType::Container),
        string_views(r.1@) == ids_of_type(suggestions@, DockerResourceType::Image),
        string_views(r.2@) == ids_of_type(suggestions@, DockerResourceType::Volume),
        string_views(r.3@) == ids_of_type(suggestions@, DockerResourceType::Network),
        r.4 == has_type(suggestions@, DockerResourceType::BuildCache),
{
    let ghost sv = suggestions@;
    let mut containers: Vec<String> = Vec::new();
    let mut images: Vec<String> = Vec::new();
    let mut volumes: Vec<String> = Vec::new();
    let mut networks: Vec<String> = Vec::new();
    let mut build_cache = false;
    let mut i: usize = 0;
    assert(sv.subrange(0, 0) =~= Seq::<DockerSuggestion>::empty());
    assert(string_views(containers@) =~= Seq::<Seq<char>>::empty());
    assert(string_views(images@) =~= Seq::<Seq<char>>::empty());
    assert(string_views(volumes@) =~= Seq::<Seq<char>>::empty());
    assert(string_views(networks@) =~= Seq::<Seq<char>>::empty());
    while i < suggestions.len()
        invariant
            i <= suggestions.len(),
            sv == suggestions@,
            string_views(containers@) == ids_of_type(
                sv.subrange(0, i as int),
                DockerResourceType::Container,
            ),
            string_views(images@) == ids_of_type(sv.subrange(0, i as int), DockerResourceType::Image),
            string_views(volumes@) == ids_of_type(
                sv.subrange(0, i as int),
                DockerResourceType::Volume,
            ),
            string_views(networks@) == ids_of_type(
                sv.subrange(0, i as int),
                DockerResourceType::Network,
            ),
            build_cache == has_type(sv.subrange(0, i as int), DockerResourceType::BuildCache),
        decreases suggestions.len() - i,
    {
        let ghost sub = sv.subrange(0, i + 1);
        assert(sub.drop_last() =~= sv.subrange(0, i as int));
        assert(sub.last() == sv[i as int]);
        let sg = &suggestions[i];
        let id = sg.id.clone();
        match sg.resource_type {
            DockerResourceType::Container => {
                let ghost prev = string_views(containers@);
                containers.push(id);
                assert(string_views(containers@) =~= prev.push(sg.id@));
            },
            DockerResourceType::Image => {
                let ghost prev = string_views(images@);
                images.push(id);
                assert(string_views(images@) =~= prev.push(sg.id@));
            },
            DockerResourceType::Volume => {
                let ghost prev = string_views(volumes@);
                volumes.push(id);
                assert(string_views(volumes@) =~= prev.push(sg.id@));
            },
            DockerResourceType::Network => {
                let ghost prev = string_views(networks@);
                networks.push(id);
                assert(string_views(networks@) =~= prev.push(sg.id@));
            },
            DockerResourceType::BuildCache => {
                build_cache = true;
            },
        }
        proof {
            if sg.resource_type == DockerResourceType::BuildCache {
                assert(sub[i as int].resource_type == DockerResourceType::BuildCache);
            }
            if has_type(sv.subrange(0, i as int), DockerResourceType::BuildCache) {
                let k = choose|k: int|
                    0 <= k < i && #[trigger] sv.subrange(0, i as int)[k].resource_type
                        == DockerResourceType::BuildCache;
                assert(sub[k] == sv.subrange(0, i as int)[k]);
            }
            if has_type(sub, DockerResourceType::BuildCache) && sg.resource_type
                != DockerResourceType::BuildCache {
                let k = choose|k: int|
                    0 <= k < i + 1 && #[trigger] sub[k].resource_type == DockerResourceType::BuildCache;
                assert(k < i);
                assert(sub[k] == sv.subrange(0, i as int)[k]);
            }
        }
        i = i + 1;
    }
    assert(sv.subrange(0, sv.len() as int) =~= sv);
    (containers, images, volumes, networks, build_cache)
}

/// A run that aggregates the given stages.
fn combined_run(stages: Vec<Stage>) -> (run: CleanupRun)
    requires
        forall|k: int|
            0 <= k < stages@.len() ==> (is_removal(#[trigger] stages@[k].kind) ==> stages@[k].ids@.len()
                > 0),
    ensures
        run.wf(),
        run.is_combined(),
        run.plan() == stages@,
        run.stage_index() == 0,
        run.stage_results().len() == 0,
        stages@.len() == 0 ==> run.finished() && combined_ok(
            run.result(),
            Seq::<DockerCleanResult>::empty(),
        ),
        stages@.len() > 0 ==> !run.finished() && run.phase_of() == Phase::CheckDaemon,
{
    let empty = stages.len() == 0;
    let mut run = CleanupRun {
        stages,
        current: 0,
        phase: Phase::CheckDaemon,
        sizes: Vec::new(),
        targets: Vec::new(),
        removed: 0,
        freed: 0,
        errors: Vec::new(),
        outcomes: Ghost(Seq::empty()),
        results: Vec::new(),
        combined: true,
        done: None,
    };
    assert(string_views(run.errors@) =~= Seq::<Seq<char>>::empty());
    if empty {
        let r = combine(&run.results);
        assert(run.results@ =~= Seq::<DockerCleanResult>::empty());
        run.done = Some(r);
    }
    run
}

/// Stages that a suggestion cleanup may hold, each matching the suggestions.
pub open spec fn stages_match(plan: Seq<Stage>, sugs: Seq<DockerSuggestion>) -> bool {
    &&& plan_ordered(plan)
    &&& forall|k: int| 0 <= k < plan.len() ==> stage_matches(#[trigger] plan[k], sugs)
    &&& forall|k: int|
        0 <= k < plan.len() ==> (is_removal(#[trigger] plan[k].kind) ==> plan[k].ids@.len() > 0)
}

/// Every stage of `plan` ranks below `r`.
pub open spec fn ranks_below(plan: Seq<Stage>, r: int) -> bool {
    forall|k: int| 0 <= k < plan.len() ==> stage_rank(#[trigger] plan[k].kind) < r
}

/// Appends a stage of `kind` when `ids` is not empty.
fn push_group(
    stages: &mut Vec<Stage>,
    kind: StageKind,
    ids: Vec<String>,
    force: bool,
    Ghost(sugs): Ghost<Seq<DockerSuggestion>>,
)
    requires
        stages_match(old(stages)@, sugs),
        ranks_below(old(stages)@, stage_rank(kind)),
        kind == StageKind::RemoveContainers || kind == StageKind::RemoveImages || kind
            == StageKind::RemoveVolumes || kind == StageKind::RemoveNetworks,
        ids@.len() > 0 ==> stage_matches((Stage { kind, ids, force }), sugs),
    ensures
        stages_match(final(stages)@, sugs),
        ranks_below(final(stages)@, stage_rank(kind) + 1),
        plan_has(final(stages)@, kind) == (ids@.len() > 0),
        forall|j: StageKind|
            stage_rank(j) < stage_rank(kind) ==> plan_has(final(stages)@, j) == plan_has(
                old(stages)@,
                j,
            ),
{
    let ghost before = stages@;
    let n = ids.len();
    if n > 0 {
        push_stage(stages, Stage { kind, ids, force });
        assert(stages@[stages@.len() - 1].kind == kind);
        assert forall|j: StageKind| stage_rank(j) < stage_rank(kind) implies plan_has(stages@, j)
            == plan_has(before, j) by {
            if plan_has(stages@, j) {
                let k = choose|k: int| 0 <= k < stages@.len() && #[trigger] stages@[k].kind == j;
                assert(k < before.len());
                assert(before[k] == stages@[k]);
            }
            if plan_has(before, j) {
                let k = choose|k: int| 0 <= k < before.len() && #[trigger] before[k].kind == j;
                assert(stages@[k] == before[k]);
            }
        }
    } else {
        proof {
            if plan_has(before, kind) {
                let k = choose|k: int| 0 <= k < before.len() && #[trigger] before[k].kind == kind;
            }
        }
    }
}

/// The stages of a suggestion cleanup, in the fixed order, for the kinds
/// that have something to remove.
fn suggestion_stages(
    containers: Vec<String>,
    images: Vec<String>,
    volumes: Vec<String>,
    networks: Vec<String>,
    build_cache: bool,
    Ghost(sugs): Ghost<Seq<DockerSuggestion>>,
) -> (plan: Vec<Stage>)
    requires
        string_views(containers@) == ids_of_type(sugs, DockerResourceType::Container),
        string_views(images@) == ids_of_type(sugs, DockerResourceType::Image),
        string_views(volumes@) == ids_of_type(sugs, DockerResourceType::Volume),
        string_views(networks@) == requested(
            StageKind::RemoveNetworks,
            ids_of_type(sugs, DockerResourceType::Network),
        ),
        build_cache == has_type(sugs, DockerResourceType::BuildCache),
    ensures
        stages_match(plan@, sugs),
        (containers@.len() > 0) == plan_has(plan@, StageKind::RemoveContainers),
        (images@.len() > 0) == plan_has(plan@, StageKind::RemoveImages),
        (volumes@.len() > 0) == plan_has(plan@, StageKind::RemoveVolumes),
        (networks@.len() > 0) == plan_has(plan@, StageKind::RemoveNetworks),
        build_cache == plan_has(plan@, StageKind::BuilderPrune),
{
    let mut stages: Vec<Stage> = Vec::new();
    push_group(&mut stages, StageKind::RemoveContainers, containers, true, Ghost(sugs));
    push_group(&mut stages, StageKind::RemoveImages, images, true, Ghost(sugs));
    push_group(&mut stages, StageKind::RemoveVolumes, volumes, false, Ghost(sugs));
    push_group(&mut stages, StageKind::RemoveNetworks, networks, false, Ghost(sugs));
    let ghost before = stages@;
    if build_cache {
        push_stage(&mut stages, Stage { kind: StageKind::BuilderPrune, ids: Vec::new(), force: false });
        proof {
            assert(stages@[stages@.len() - 1].kind == StageKind::BuilderPrune);
            assert forall|j: StageKind| stage_rank(j) < 4 implies plan_has(stages@, j)
                == plan_has(before, j) by {
                if plan_has(stages@, j) {
                    let k = choose|k: int| 0 <= k < stages@.len() && #[trigger] stages@[k].kind == j;
                    assert(k < before.len());
                    assert(before[k] == stages@[k]);
                }
                if plan_has(before, j) {
                    let k = choose|k: int| 0 <= k < before.len() && #[trigger] before[k].kind == j;
                    assert(stages@[k] == before[k]);
                }
            }
        }
    } else {
        proof {
            if plan_has(before, StageKind::BuilderPrune) {
                let k = choose|k: int|
                    0 <= k < before.len() && #[trigger] before[k].kind == StageKind::BuilderPrune;
            }
        }
    }
    proof {
        assert(stage_rank(StageKind::RemoveContainers) < stage_rank(StageKind::RemoveImages));
        assert(stage_rank(StageKind::RemoveImages) < stage_rank(StageKind::RemoveVolumes));
        assert(stage_rank(StageKind::RemoveVolumes) < stage_rank(StageKind::RemoveNetworks));
        assert(stage_rank(StageKind::RemoveNetworks) < 4);
    }
    stages
}

/// Cleans the resources that `suggestions` name: removes the containers
/// (forced), then the images (forced), then the volumes, then the networks
/// (without the built-in ones), then prunes the build cache when a suggestion
/// names it. Containers go first because images and volumes cannot be
/// removed while a container uses them. Kinds that no suggestion names are
/// skipped without a command.
pub fn clean_docker_suggestions(suggestions: &Vec<DockerSuggestion>) -> (run: CleanupRun)
    ensures
        run.wf(),
        run.is_combined(),
        run.stage_index() == 0,
        run.stage_results().len() == 0,
        stages_match(run.plan(), suggestions@),
        (ids_of_type(suggestions@, DockerResourceType::Container).len() > 0) == plan_has(
            run.plan(),
            StageKind::RemoveContainers,
        ),
        (ids_of_type(suggestions@, DockerResourceType::Image).len() > 0) == plan_has(
            run.plan(),
            StageKind::RemoveImages,
        ),
        (ids_of_type(suggestions@, DockerResourceType::Volume).len() > 0) == plan_has(
            run.plan(),
            StageKind::RemoveVolumes,
        ),
        (requested(
            StageKind::RemoveNetworks,
            ids_of_type(suggestions@, DockerResourceType::Network),
        ).len() > 0) == plan_has(run.plan(), StageKind::RemoveNetworks),
        has_type(suggestions@, DockerResourceType::BuildCache) == plan_has(
            run.plan(),
            StageKind::BuilderPrune,
        ),
        run.plan().len() == 0 ==> run.finished() && combined_ok(
            run.result(),
            Seq::<DockerCleanResult>::empty(),
        ),
        run.plan().len() > 0 ==> !run.finished() && run.phase_of() == Phase::CheckDaemon,
{
    let (containers, images, volumes, networks, build_cache) = partition(suggestions);
    let networks = requested_ids(StageKind::RemoveNetworks, networks);
    proof {
        assert(string_views(containers@).len() == containers@.len());
        assert(string_views(images@).len() == images@.len());
        assert(string_views(volumes@).len() == volumes@.len());
        assert(string_views(networks@).len() == networks@.len());
    }
    let stages = suggestion_stages(
        containers,
        images,
        volumes,
        networks,
        build_cache,
        Ghost(suggestions@),
    );
    combined_run(stages)
}

/// Once a suggestion cleanup has begun removing images, no container removal
/// follows: the stages run in plan order, and containers come first.
pub proof fn lemma_containers_removed_before_images(earlier: CleanupRun, later: CleanupRun)
    requires
        earlier.wf(),
        later.wf(),
        plan_ordered(earlier.plan()),
        later.plan() == earlier.plan(),
        later.stage_index() >= earlier.stage_index(),
        earlier.stage_index() < earlier.plan().len(),
        earlier.plan()[earlier.stage_index()].kind == StageKind::RemoveImages,
        later.stage_index() < later.plan().len(),
    ensures
        later.plan()[later.stage_index()].kind != StageKind::RemoveContainers,
{
    if later.stage_index() > earlier.stage_index() {
        assert(stage_rank(earlier.plan()[earlier.stage_index()].kind) < stage_rank(
            earlier.plan()[later.stage_index()].kind,
        ));
    }
}

/// A network removal never names a built-in network, whatever the caller
/// asked for.
pub proof fn lemma_default_networks_never_removed(ids: Seq<Seq<char>>)
    ensures
        forall|k: int|
            0 <= k < requested(StageKind::RemoveNetworks, ids).len() ==> !is_default_network_name(
                #[trigger] requested(StageKind::RemoveNetworks, ids)[k],
            ),
    decreases ids.len(),
{
    if ids.len() > 0 {
        lemma_default_networks_never_removed(ids.drop_last());
        let p = requested(StageKind::RemoveNetworks, ids.drop_last());
        let q = requested(StageKind::RemoveNetworks, ids);
        assert forall|k: int| 0 <= k < q.len() implies !is_default_network_name(#[trigger] q[k]) by {
            if k < p.len() {
                assert(q[k] == p[k]);
            }
        }
    }
}

/// A network removal never issues a command for a network that the network
/// listing shows to be built in, whichever id or id prefix names it.
pub proof fn lemma_builtin_network_ids_never_removed(
    ids: Seq<Seq<char>>,
    listing: Seq<(Seq<char>, Seq<char>)>,
)
    ensures
        forall|k: int|
            0 <= k < network_targets(ids, listing).len() ==> !names_builtin(
                listing,
                #[trigger] network_targets(ids, listing)[k],
            ),
    decreases ids.len(),
{
    if ids.len() > 0 {
        lemma_builtin_network_ids_never_removed(ids.drop_last(), listing);
        let p = network_targets(ids.drop_last(), listing);
        let q = network_targets(ids, listing);
        assert forall|k: int| 0 <= k < q.len() implies !names_builtin(listing, #[trigger] q[k]) by {
            if k < p.len() {
                assert(q[k] == p[k]);
            }
        }
    }
}

/// A consistent run is finished exactly when every stage of its plan has run.
pub proof fn lemma_finished_when_plan_done(run: CleanupRun)
    requires
        run.wf(),
    ensures
        run.finished() == (run.stage_index() == run.plan().len()),
        0 <= run.stage_index() <= run.plan().len(),
{
}

} // verus!
