use cache_cleaner::cleanup::{
    clean_docker_suggestions, docker_builder_prune, docker_system_prune, prune_containers,
    prune_images, prune_networks, prune_volumes, remove_containers, remove_images,
    remove_networks, remove_volumes, CleanupRun, CommandOutput,
};
use cache_cleaner::docker::{DockerCleanResult, DockerResourceType, DockerSuggestion};

fn ok(stdout: &str) -> CommandOutput {
    CommandOutput { success: true, stdout: stdout.to_string(), stderr: String::new() }
}

fn fail(stderr: &str) -> CommandOutput {
    CommandOutput { success: false, stdout: String::new(), stderr: stderr.to_string() }
}

/// Drives a run against a stand-in for the CLI, recording every command line.
fn drive(mut run: CleanupRun, mut answer: impl FnMut(&[String]) -> CommandOutput) -> (DockerCleanResult, Vec<Vec<String>>) {
    let mut calls = Vec::new();
    while let Some(args) = run.command() {
        let out = answer(&args);
        calls.push(args);
        run.feed(out);
    }
    (run.outcome(), calls)
}

fn suggestion(t: DockerResourceType, id: &str) -> DockerSuggestion {
    DockerSuggestion {
        resource_type: t,
        id: id.to_string(),
        name: id.to_string(),
        size: 0,
        score: 500,
        reasons: vec![],
        auto_select: false,
    }
}

#[test]
fn empty_requests_issue_no_command() {
    for run in [
        remove_containers(vec![], true),
        remove_images(vec![], false),
        remove_volumes(vec![]),
        remove_networks(vec![]),
        clean_docker_suggestions(&vec![]),
    ] {
        let (r, calls) = drive(run, |_| panic!("no command expected"));
        assert!(calls.is_empty());
        assert!(r.success);
        assert_eq!(r.containers_removed + r.images_removed + r.volumes_removed + r.networks_removed, 0);
        assert_eq!(r.freed_bytes, 0);
    }
}

#[test]
fn partial_failure_is_reported() {
    let run = remove_containers(vec!["a".to_string(), "b".to_string(), "c".to_string()], true);
    let (r, calls) = drive(run, |args| match args[0].as_str() {
        "info" => ok(""),
        "ps" => ok("a\tx\timg\tExited\texited\t1MB\nc\tz\timg\tExited\texited\t2KB\n"),
        "rm" if args[2] == "b" => fail("Error: No such container: b\n"),
        _ => ok(""),
    });
    assert_eq!(calls.len(), 5);
    assert_eq!(calls[2], vec!["rm", "-f", "a"]);
    assert_eq!(r.containers_removed, 2);
    assert!(!r.success);
    assert!(r.message.contains("b: Error: No such container: b"));
    assert_eq!(r.message, "Removed 2 container(s) with 1 error(s): b: Error: No such container: b");
    assert_eq!(r.freed_bytes, 1024 * 1024 + 2048);
}

#[test]
fn daemon_down_stops_a_removal() {
    let run = remove_images(vec!["i".to_string()], false);
    let (r, calls) = drive(run, |_| fail("Cannot connect"));
    assert_eq!(calls, vec![vec!["info".to_string()]]);
    assert!(!r.success);
    assert_eq!(r.message, "Docker daemon is not running");
}

#[test]
fn default_networks_are_never_removed() {
    let run = remove_networks(vec!["bridge".to_string(), "host".to_string(), "none".to_string()]);
    let (r, calls) = drive(run, |_| panic!("no command expected"));
    assert!(calls.is_empty());
    assert!(r.success);
    let run = remove_networks(vec!["bridge".to_string(), "app-net".to_string()]);
    let (r, calls) = drive(run, |_| ok(""));
    assert_eq!(calls.len(), 3);
    assert_eq!(calls[0], vec!["info".to_string()]);
    assert_eq!(calls[1][..2], ["network".to_string(), "ls".to_string()]);
    assert_eq!(calls[2], vec!["network".to_string(), "rm".to_string(), "app-net".to_string()]);
    assert_eq!(r.networks_removed, 1);
    assert_eq!(r.message, "Successfully removed 1 network(s)");
}

#[test]
fn default_networks_named_by_id_are_never_removed() {
    let listing = "0123456789abcdef\tbridge\nfedcba9876543210\thost\naaaa1111bbbb2222\tapp-net\n";
    let run = remove_networks(vec!["0123456789ab".to_string(), "aaaa1111bbbb2222".to_string()]);
    let (r, calls) = drive(run, |args| if args.get(1).map(|a| a.as_str()) == Some("ls") { ok(listing) } else { ok("") });
    let removals: Vec<&Vec<String>> = calls.iter().filter(|c| c.get(1).map(|a| a.as_str()) == Some("rm")).collect();
    assert_eq!(removals, vec![&vec!["network".to_string(), "rm".to_string(), "aaaa1111bbbb2222".to_string()]]);
    assert_eq!(r.networks_removed, 1);
    assert!(r.success);
    let run = remove_networks(vec!["fedcba9876543210".to_string()]);
    let (r, calls) = drive(run, |args| if args.get(1).map(|a| a.as_str()) == Some("ls") { ok(listing) } else { ok("") });
    assert!(calls.iter().all(|c| c.get(1).map(|a| a.as_str()) != Some("rm")));
    assert!(r.success);
    assert_eq!(r.networks_removed, 0);
    assert_eq!(r.message, "No networks to remove");
}

#[test]
fn cleanup_removes_containers_before_images() {
    let sugs = vec![
        suggestion(DockerResourceType::Network, "net1"),
        suggestion(DockerResourceType::Image, "img1"),
        suggestion(DockerResourceType::Volume, "vol1"),
        suggestion(DockerResourceType::Container, "ctr1"),
        suggestion(DockerResourceType::Network, "bridge"),
    ];
    let (r, calls) = drive(clean_docker_suggestions(&sugs), |_| ok(""));
    let pos = |first: &str, id: &str| {
        calls.iter().position(|c| c[0] == first && c.last().map(|s| s.as_str()) == Some(id)).unwrap()
    };
    assert!(pos("rm", "ctr1") < pos("rmi", "img1"));
    assert!(pos("rmi", "img1") < pos("volume", "vol1"));
    assert!(pos("volume", "vol1") < pos("network", "net1"));
    assert!(!calls.iter().any(|c| c.last().map(|s| s.as_str()) == Some("bridge")));
    assert!(r.success);
    assert_eq!((r.containers_removed, r.images_removed, r.volumes_removed, r.networks_removed), (1, 1, 1, 1));
    assert_eq!(r.message, "Cleanup complete: 1 containers, 1 images, 1 volumes, 1 networks removed. 0 B freed.");
}

#[test]
fn cleanup_aggregates_stage_failures() {
    let sugs = vec![
        suggestion(DockerResourceType::Container, "ctr1"),
        suggestion(DockerResourceType::BuildCache, "build_cache"),
    ];
    let (r, calls) = drive(clean_docker_suggestions(&sugs), |args| match args[0].as_str() {
        "rm" => fail("in use"),
        "builder" => ok("Total reclaimed space: 1KB\n"),
        _ => ok(""),
    });
    assert_eq!(calls.last().unwrap(), &vec!["builder".to_string(), "prune".to_string(), "-af".to_string()]);
    assert!(!r.success);
    assert_eq!(r.freed_bytes, 1024);
    assert_eq!(
        r.message,
        "Partial cleanup: 0 containers, 0 images, 0 volumes, 0 networks. Errors: Removed 0 container(s) with 1 error(s): ctr1: in use"
    );
}

#[test]
fn prune_operations() {
    let (r, calls) = drive(docker_system_prune(true, true), |args| match args[0].as_str() {
        "info" => ok(""),
        _ => ok("Deleted Images:\ndeleted: sha256:1\n\nTotal reclaimed space: 1.5GB\n"),
    });
    assert_eq!(calls[1], vec!["system", "prune", "-f", "-a", "--volumes"]);
    assert!(r.success);
    assert_eq!(r.freed_bytes, 1610612736);
    assert_eq!(r.message, "System prune completed. Reclaimed 1610612736 bytes");
    let (r, _) = drive(prune_containers(), |_| ok("Deleted Containers:\nsha256:aaa\nsha256:bbb\nTotal reclaimed space: 0B\n"));
    assert_eq!(r.containers_removed, 3);
    let (r, calls) = drive(prune_images(false), |args| if args[0] == "info" { ok("") } else { fail(" boom \n") });
    assert_eq!(calls[1], vec!["image", "prune", "-f"]);
    assert!(!r.success);
    assert_eq!(r.message, "Image prune failed: boom");
    let (r, _) = drive(prune_volumes(), |_| ok("Deleted Volumes:\nv1\nTotal reclaimed space: 3MB\n"));
    assert_eq!(r.freed_bytes, 3 * 1024 * 1024);
    assert_eq!(r.volumes_removed, 1);
    let (r, _) = drive(prune_networks(), |_| ok("Deleted Networks:\nn1\nTotal reclaimed space: 3MB\n"));
    assert_eq!(r.freed_bytes, 0);
    assert_eq!(r.networks_removed, 1);
    let (r, _) = drive(docker_builder_prune(), |_| ok("Total reclaimed space: 2KB"));
    assert_eq!(r.message, "Builder cache pruned. Reclaimed 2048 bytes");
}

#[test]
fn failed_network_listing_removes_nothing() {
    let run = remove_networks(vec!["0123456789ab".to_string(), "app-net".to_string()]);
    let (r, calls) = drive(run, |args| if args.get(1).map(|a| a.as_str()) == Some("ls") { fail(" denied ") } else { ok("") });
    assert!(calls.iter().all(|c| c.get(1).map(|a| a.as_str()) != Some("rm")));
    assert!(!r.success);
    assert_eq!(r.networks_removed, 0);
    assert_eq!(r.message, "Failed to list networks: denied");
}
