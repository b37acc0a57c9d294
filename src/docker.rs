//! The container engine's resources as this library models them: containers,
//! images, volumes and networks, one scan's summary, and the outcome of a
//! cleanup.
use vstd::prelude::*;
use crate::text::{chars_eq_str, chars_of, lower_chars, lower_of};

verus! {

/// State of a container as the engine reports it.
#[derive(Clone, Copy, Debug, PartialEq, Eq, Structural)]
pub enum ContainerState {
    Running,
    Exited,
    Created,
    Paused,
    Restarting,
    Dead,
    Removing,
    Unknown,
}

/// The state that a lower-case state name stands for.
pub open spec fn state_named(l: Seq<char>) -> ContainerState {
    if l == "running"@ {
        ContainerState::Running
    } else if l == "exited"@ {
        ContainerState::Exited
    } else if l == "created"@ {
        ContainerState::Created
    } else if l == "paused"@ {
        ContainerState::Paused
    } else if l == "restarting"@ {
        ContainerState::Restarting
    } else if l == "dead"@ {
        ContainerState::Dead
    } else if l == "removing"@ {
        ContainerState::Removing
    } else {
        ContainerState::Unknown
    }
}

/// The state that a state name in any case stands for.
pub open spec fn state_of(s: Seq<char>) -> ContainerState {
    state_named(lower_of(s))
}

impl ContainerState {
    /// The state that a lower-case state name stands for; `Unknown` for any
    /// other text.
    pub fn from_lowercase(l: &Vec<char>) -> (r: ContainerState)
        ensures
            r == state_named(l@),
    {
        if chars_eq_str(l, "running") {
            ContainerState::Running
        } else if chars_eq_str(l, "exited") {
            ContainerState::Exited
        } else if chars_eq_str(l, "created") {
            ContainerState::Created
        } else if chars_eq_str(l, "paused") {
            ContainerState::Paused
        } else if chars_eq_str(l, "restarting") {
            ContainerState::Restarting
        } else if chars_eq_str(l, "dead") {
            ContainerState::Dead
        } else if chars_eq_str(l, "removing") {
            ContainerState::Removing
        } else {
            ContainerState::Unknown
        }
    }

    /// The state that a state name stands for, in any case.
    pub fn parse(s: &str) -> (r: ContainerState)
        ensures
            r == state_of(s@),
    {
        let c = chars_of(s);
        let l = lower_chars(&c);
        ContainerState::from_lowercase(&l)
    }
}

impl<'a> From<&'a str> for ContainerState {
    fn from(s: &'a str) -> (r: ContainerState) {
        ContainerState::parse(s)
    }
}

impl<'a> vstd::std_specs::convert::FromSpecImpl<&'a str> for ContainerState {
    open spec fn obeys_from_spec() -> bool {
        true
    }

    open spec fn from_spec(s: &'a str) -> ContainerState {
        state_of(s@)
    }
}

/// Kind of resource that a cleanup suggestion names.
#[derive(Clone, Copy, Debug, PartialEq, Eq, Structural)]
pub enum DockerResourceType {
    Container,
    Image,
    Volume,
    Network,
    BuildCache,
}

/// One container, in any state.
#[derive(Clone, Debug)]
pub struct DockerContainer {
    pub id: String,
    pub name: String,
    pub image: String,
    pub status: String,
    pub state: ContainerState,
    pub size: u64,
    pub created: String,
    pub ports: String,
}

/// One image, with the containers that use it.
#[derive(Clone, Debug)]
pub struct DockerImage {
    pub id: String,
    pub repository: String,
    pub tag: String,
    pub size: u64,
    pub created: String,
    pub is_dangling: bool,
    pub used_by_containers: Vec<String>,
}

/// One named volume, with the containers that mount it; its size is often unknown.
#[derive(Clone, Debug)]
pub struct DockerVolume {
    pub name: String,
    pub driver: String,
    pub mountpoint: String,
    pub size: Option<u64>,
    pub used_by_containers: Vec<String>,
}

/// One network, with the containers attached to it.
#[derive(Clone, Debug)]
pub struct DockerNetwork {
    pub id: String,
    pub name: String,
    pub driver: String,
    pub scope: String,
    pub used_by_containers: Vec<String>,
}

/// One full inventory pass with its derived counts.
#[derive(Clone, Debug)]
pub struct DockerScanResult {
    pub daemon_running: bool,
    pub containers: Vec<DockerContainer>,
    pub images: Vec<DockerImage>,
    pub volumes: Vec<DockerVolume>,
    pub networks: Vec<DockerNetwork>,
    pub build_cache_size: u64,
    pub total_reclaimable: u64,
    pub stopped_containers_count: usize,
    pub dangling_images_count: usize,
    pub unused_images_count: usize,
    pub orphan_volumes_count: usize,
    pub unused_networks_count: usize,
}

/// Outcome of one or more removal operations.
#[derive(Clone, Debug)]
pub struct DockerCleanResult {
    pub freed_bytes: u64,
    pub containers_removed: usize,
    pub images_removed: usize,
    pub volumes_removed: usize,
    pub networks_removed: usize,
    pub success: bool,
    pub message: String,
}

/// One ranked cleanup candidate. `score` is in thousandths: 0 to 1000.
#[derive(Clone, Debug)]
pub struct DockerSuggestion {
    pub resource_type: DockerResourceType,
    pub id: String,
    pub name: String,
    pub size: u64,
    pub score: u64,
    pub reasons: Vec<String>,
    pub auto_select: bool,
}

/// Ways in which the engine can refuse work.
#[derive(Clone, Debug)]
pub enum DockerError {
    DaemonNotRunning,
    DockerNotInstalled,
    PermissionDenied,
    ContainerInUse,
    ImageInUse,
    NetworkInUse,
    CommandFailed(String),
}

/// The engine's built-in networks, which are never removed.
pub open spec fn is_default_network_name(n: Seq<char>) -> bool {
    n == "bridge"@ || n == "host"@ || n == "none"@
}

/// Whether `name` is one of the engine's built-in networks (bridge, host, none).
pub fn is_default_network(name: &str) -> (r: bool)
    ensures
        r == is_default_network_name(name@),
{
    let c = chars_of(name);
    chars_eq_str(&c, "bridge") || chars_eq_str(&c, "host") || chars_eq_str(&c, "none")
}

} // verus!
