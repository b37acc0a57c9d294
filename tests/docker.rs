use cache_cleaner::docker::{
    is_default_network, ContainerState, DockerContainer, DockerImage, DockerNetwork,
    DockerResourceType, DockerScanResult, DockerVolume,
};
use cache_cleaner::inventory::{
    get_dangling_images, get_orphan_volumes, get_stopped_containers, get_unused_images,
    get_unused_networks, parse_build_cache_size, parse_containers, parse_dangling_ids, parse_image_usage, parse_images,
    parse_list_usage, parse_networks, parse_volumes, summarize_scan, unreachable_scan,
};
use cache_cleaner::scoring::{
    calculate_size_score, estimate_age_score, extract_number, score_container, score_image,
    score_network, score_volume, SIZE_LARGE, SIZE_MEDIUM, SIZE_SMALL,
};
use cache_cleaner::sizes::{
    count_deleted_items, format_size, parse_docker_size, parse_reclaimed_space, size_from_parts,
};
use cache_cleaner::suggestions::{auto_selected, get_docker_suggestions};

const MIB: u64 = 1024 * 1024;

fn container(id: &str, status: &str, state: ContainerState, size: u64) -> DockerContainer {
    DockerContainer {
        id: id.to_string(),
        name: format!("{}-name", id),
        image: "nginx".to_string(),
        status: status.to_string(),
        state,
        size,
        created: "".to_string(),
        ports: "".to_string(),
    }
}

fn image(id: &str, repo: &str, tag: &str, size: u64, dangling: bool, users: Vec<&str>) -> DockerImage {
    DockerImage {
        id: id.to_string(),
        repository: repo.to_string(),
        tag: tag.to_string(),
        size,
        created: "".to_string(),
        is_dangling: dangling,
        used_by_containers: users.into_iter().map(|s| s.to_string()).collect(),
    }
}

fn volume(name: &str, size: Option<u64>, users: Vec<&str>) -> DockerVolume {
    DockerVolume {
        name: name.to_string(),
        driver: "local".to_string(),
        mountpoint: format!("/var/lib/docker/volumes/{}", name),
        size,
        used_by_containers: users.into_iter().map(|s| s.to_string()).collect(),
    }
}

fn network(id: &str, name: &str, users: Vec<&str>) -> DockerNetwork {
    DockerNetwork {
        id: id.to_string(),
        name: name.to_string(),
        driver: "bridge".to_string(),
        scope: "local".to_string(),
        used_by_containers: users.into_iter().map(|s| s.to_string()).collect(),
    }
}

#[test]
fn test_parse_docker_size() {
    assert_eq!(parse_docker_size("0B"), 0);
    assert_eq!(parse_docker_size("100B"), 100);
    assert_eq!(parse_docker_size("1KB"), 1024);
    assert_eq!(parse_docker_size("1.5KB"), 1536);
    assert_eq!(parse_docker_size("1MB"), 1024 * 1024);
    assert_eq!(parse_docker_size("1.5MB"), (1.5 * 1024.0 * 1024.0) as u64);
    assert_eq!(parse_docker_size("1GB"), 1024 * 1024 * 1024);
    assert_eq!(parse_docker_size("2.5GB"), (2.5 * 1024.0 * 1024.0 * 1024.0) as u64);
}

#[test]
fn size_parsing_exact_values() {
    assert_eq!(parse_docker_size("1.5GB"), 1610612736);
    assert_eq!(parse_docker_size(" 500MB "), 500 * MIB);
    assert_eq!(parse_docker_size("100kB"), 102400);
    assert_eq!(parse_docker_size("2g"), 2 * 1024 * MIB);
    assert_eq!(parse_docker_size("1T"), 1024 * 1024 * MIB);
    assert_eq!(parse_docker_size(""), 0);
    assert_eq!(parse_docker_size("0"), 0);
    assert_eq!(parse_docker_size("12XB"), 12);
    assert_eq!(parse_docker_size("1.2.3MB"), 0);
    assert_eq!(parse_docker_size(".5KB"), 512);
    assert_eq!(parse_docker_size("abc"), 0);
    assert_eq!(size_from_parts("1.5", "GB"), 1610612736);
    assert_eq!(size_from_parts("3", "PB"), 3);
}

#[test]
fn test_container_state_from_str() {
    assert_eq!(ContainerState::from("running"), ContainerState::Running);
    assert_eq!(ContainerState::from("exited"), ContainerState::Exited);
    assert_eq!(ContainerState::from("created"), ContainerState::Created);
    assert_eq!(ContainerState::from("paused"), ContainerState::Paused);
    assert_eq!(ContainerState::from("RUNNING"), ContainerState::Running);
    assert_eq!(ContainerState::from("unknown_state"), ContainerState::Unknown);
}

#[test]
fn test_parse_reclaimed_space() {
    assert_eq!(
        parse_reclaimed_space("Total reclaimed space: 1.5GB"),
        (1.5 * 1024.0 * 1024.0 * 1024.0) as u64
    );
    assert_eq!(parse_reclaimed_space("Reclaimed space: 500MB"), 500 * 1024 * 1024);
    assert_eq!(parse_reclaimed_space("No space reclaimed"), 0);
}

#[test]
fn reclaimed_space_from_later_line_and_word() {
    let out = "Deleted Containers:\nabc\n\nTotal reclaimed space: 2GB\n";
    assert_eq!(parse_reclaimed_space(out), 2 * 1024 * MIB);
    assert_eq!(parse_reclaimed_space("freed 300MB today"), 300 * MIB);
}

#[test]
fn test_count_deleted_items() {
    let output = "Deleted: abc123\nDeleted: def456\nsha256:789xyz\nTotal: 3";
    assert_eq!(count_deleted_items(output), 3);
}

#[test]
fn deleted_items_in_any_case() {
    assert_eq!(count_deleted_items("DELETED: a\ndeleted b\nuntagged: x\n"), 2);
    assert_eq!(count_deleted_items(""), 0);
}

#[test]
fn test_default_networks_protection() {
    assert!(is_default_network("bridge"));
    assert!(is_default_network("host"));
    assert!(is_default_network("none"));
    assert!(!is_default_network("custom_network"));
}

#[test]
fn test_extract_number() {
    assert_eq!(extract_number("2 weeks ago", "weeks"), Some(2));
    assert_eq!(extract_number("30 days ago", "days"), Some(30));
    assert_eq!(extract_number("3 months ago", "months"), Some(3));
    assert_eq!(extract_number("no number here", "weeks"), None);
}

#[test]
fn extract_number_edge_cases() {
    assert_eq!(extract_number("weeks", "weeks"), None);
    assert_eq!(extract_number("about x weeks", "weeks"), None);
    assert_eq!(extract_number("exited (0) +5 days", "days"), Some(5));
}

#[test]
fn test_format_size() {
    assert_eq!(format_size(500), "500 B");
    assert_eq!(format_size(1024), "1.0 KB");
    assert_eq!(format_size(1024 * 1024), "1.0 MB");
    assert_eq!(format_size(1024 * 1024 * 1024), "1.0 GB");
    assert_eq!(format_size(1024 * 1024 * 1024 * 1024), "1.0 TB");
    assert_eq!(format_size((1.5 * 1024.0 * 1024.0 * 1024.0) as u64), "1.5 GB");
}

#[test]
fn format_size_rounding() {
    assert_eq!(format_size(0), "0 B");
    assert_eq!(format_size(1023), "1023 B");
    assert_eq!(format_size(1536), "1.5 KB");
    assert_eq!(format_size(600 * MIB), "600.0 MB");
    assert_eq!(format_size(1280), format!("{:.1} KB", 1280.0f64 / 1024.0));
}

#[test]
fn test_calculate_size_score() {
    assert_eq!(calculate_size_score(SIZE_LARGE), 1000);
    assert_eq!(calculate_size_score(SIZE_LARGE + 1000), 1000);
    assert_eq!(calculate_size_score(SIZE_MEDIUM), 700);
    assert_eq!(calculate_size_score(SIZE_SMALL), 400);
    assert!(calculate_size_score(SIZE_SMALL / 2) < 400);
    assert!(calculate_size_score(0) < 100);
}

#[test]
fn test_estimate_age_score() {
    assert_eq!(estimate_age_score("Exited (0) 2 months ago"), 1000);
    assert_eq!(estimate_age_score("Exited (0) 1 year ago"), 1000);
    assert!(estimate_age_score("Exited (0) 4 weeks ago") >= 800);
    assert!(estimate_age_score("Exited (0) 2 weeks ago") >= 500);
    assert!(estimate_age_score("Exited (0) 30 days ago") >= 700);
    assert!(estimate_age_score("Exited (0) 7 days ago") >= 400);
    assert!(estimate_age_score("Exited (0) 2 hours ago") < 200);
}

#[test]
fn age_score_exact_values() {
    assert_eq!(estimate_age_score("Exited (0) 4 weeks ago"), 900);
    assert_eq!(estimate_age_score("Exited (0) 3 weeks ago"), 600);
    assert_eq!(estimate_age_score("Exited (0) 1 weeks ago"), 300);
    assert_eq!(estimate_age_score("Exited (0) 45 days ago"), 800);
    assert_eq!(estimate_age_score("Exited (0) 10 days ago"), 500);
    assert_eq!(estimate_age_score("Exited (0) 3 days ago"), 200);
    assert_eq!(estimate_age_score("Up 5 minutes"), 0);
}

#[test]
fn test_score_container_exited() {
    let c = container("abc123", "Exited (0) 2 weeks ago", ContainerState::Exited, SIZE_LARGE);
    let (score, reasons, auto_select) = score_container(&c);
    assert!(score >= 500);
    assert!(!reasons.is_empty());
    assert!(!auto_select);
}

#[test]
fn test_score_container_dead() {
    let c = container("abc123", "Dead", ContainerState::Dead, SIZE_SMALL);
    let (_, _, auto_select) = score_container(&c);
    assert!(auto_select);
}

#[test]
fn container_score_exact() {
    let c = container("c1", "Exited (0) 3 months ago", ContainerState::Exited, SIZE_LARGE);
    let (score, reasons, _) = score_container(&c);
    assert_eq!(score, 1000);
    assert_eq!(
        reasons,
        vec![
            "Large size: 1.0 GB".to_string(),
            "Container has exited".to_string(),
            "Not used for a long time".to_string()
        ]
    );
    let c = container("c2", "Created", ContainerState::Created, 0);
    let (score, reasons, auto) = score_container(&c);
    assert_eq!(score, 200);
    assert_eq!(reasons, vec!["Container was created but never started".to_string()]);
    assert!(!auto);
}

#[test]
fn test_score_image_dangling() {
    let img = image("sha256:abc", "<none>", "<none>", SIZE_MEDIUM, true, vec![]);
    let (score, reasons, auto_select) = score_image(&img);
    assert_eq!(score, 1000);
    assert!(auto_select);
    assert!(reasons.iter().any(|r| r.contains("Dangling")));
}

#[test]
fn test_score_image_unused() {
    let img = image("sha256:abc", "nginx", "latest", SIZE_LARGE, false, vec![]);
    let (score, reasons, auto_select) = score_image(&img);
    assert!(score >= 500);
    assert!(!auto_select);
    assert!(reasons.iter().any(|r| r.contains("Not used")));
}

#[test]
fn test_score_volume_orphan() {
    let v = volume("test-volume", Some(SIZE_LARGE), vec![]);
    let (score, reasons, auto_select) = score_volume(&v);
    assert_eq!(score, 1000);
    assert!(auto_select);
    assert!(reasons.iter().any(|r| r.contains("Orphan")));
}

#[test]
fn test_score_network_unused() {
    let n = network("abc123", "custom-network", vec![]);
    let (score, reasons, auto_select) = score_network(&n);
    assert!(score >= 800);
    assert!(!auto_select);
    assert!(reasons.iter().any(|r| r.contains("Not used")));
}

#[test]
fn used_volume_and_network_scores() {
    let (score, reasons, auto) = score_volume(&volume("v", None, vec!["c1"]));
    assert_eq!(score, 0);
    assert!(reasons.is_empty());
    assert!(!auto);
    let (score, _, auto) = score_network(&network("n", "net", vec!["c1"]));
    assert_eq!(score, 300);
    assert!(!auto);
}

#[test]
fn parses_container_listing() {
    let out = "c1\tweb\tnginx\tUp 2 hours\trunning\t1.5MB\t2024-01-01\t80/tcp\n\
               \n\
               short\trow\n\
               c2\tdb\tpostgres\tExited (0) 3 days ago\tEXITED\t0B\n";
    let cs = parse_containers(out);
    assert_eq!(cs.len(), 2);
    assert_eq!(cs[0].id, "c1");
    assert_eq!(cs[0].state, ContainerState::Running);
    assert_eq!(cs[0].size, 1572864);
    assert_eq!(cs[0].ports, "80/tcp");
    assert_eq!(cs[1].name, "db");
    assert_eq!(cs[1].state, ContainerState::Exited);
    assert_eq!(cs[1].created, "");
}

#[test]
fn untagged_images_are_dangling() {
    let out = "sha256:aaa\t<none>\t<none>\t10MB\t2024\nsha256:bbb\tnginx\tlatest\t20MB\t2024\nsha256:ccc\tredis\t7\t1MB\n";
    let dangling = parse_dangling_ids("  sha256:ccc  \n\n");
    assert_eq!(dangling, vec!["sha256:ccc".to_string()]);
    let usage = parse_image_usage("c1\tnginx:latest\nc2\tsha256:bbb\n", None);
    let imgs = parse_images(out, &dangling, &usage);
    assert_eq!(imgs.len(), 3);
    assert!(imgs[0].is_dangling);
    assert!(!imgs[1].is_dangling);
    assert!(imgs[2].is_dangling);
    assert_eq!(imgs[1].used_by_containers, vec!["c2".to_string()]);
    assert!(imgs[0].used_by_containers.is_empty());
}

#[test]
fn image_usage_resolves_ids_through_inspect() {
    let usage = parse_image_usage(
        "c1\tnginx:latest\nc2\tredis\n",
        Some("c1\tsha256:abc\nc2\tsha256:def\n"),
    );
    let pairs: Vec<(String, String)> = usage;
    assert_eq!(
        pairs,
        vec![
            ("abc".to_string(), "c1".to_string()),
            ("nginx:latest".to_string(), "c1".to_string()),
            ("def".to_string(), "c2".to_string()),
            ("redis".to_string(), "c2".to_string()),
        ]
    );
}

#[test]
fn volumes_and_networks_with_usage() {
    let vol_usage = parse_list_usage("c1\tdata, cache ,\nc2\tdata\n");
    let vols = parse_volumes("data\tlocal\t/v/data\ncache\tlocal\nlonely\tlocal\t/v/l\n", &vol_usage);
    assert_eq!(vols.len(), 3);
    assert_eq!(vols[0].used_by_containers, vec!["c1".to_string(), "c2".to_string()]);
    assert_eq!(vols[1].used_by_containers, vec!["c1".to_string()]);
    assert!(vols[2].used_by_containers.is_empty());
    assert_eq!(vols[1].mountpoint, "");
    assert_eq!(vols[2].size, None);
    let net_usage = parse_list_usage("c1\tbridge,app-net\n");
    let nets = parse_networks("n1\tbridge\tbridge\tlocal\nn2\tapp-net\tbridge\nn3\tidle\tbridge\tlocal\n", &net_usage);
    assert_eq!(nets.len(), 3);
    assert_eq!(nets[1].used_by_containers, vec!["c1".to_string()]);
    assert_eq!(nets[1].scope, "");
    assert!(nets[2].used_by_containers.is_empty());
}

#[test]
fn build_cache_size_from_space_report() {
    assert_eq!(parse_build_cache_size("Images\t1GB\nBuild Cache\t10MB\n"), 10 * MIB);
    assert_eq!(parse_build_cache_size("Images\t1GB\n"), 0);
}

fn sample_scan() -> DockerScanResult {
    summarize_scan(
        vec![
            container("stopped", "Exited (0) 2 weeks ago", ContainerState::Exited, 100 * MIB),
            container("live", "Up 1 hour", ContainerState::Running, 5 * MIB),
            container("dead", "Dead", ContainerState::Dead, MIB),
        ],
        vec![
            image("img-unused", "app", "v1", 200 * MIB, false, vec![]),
            image("img-used", "nginx", "latest", 50 * MIB, false, vec!["live"]),
            image("sha256:0123456789abcdef", "<none>", "<none>", MIB, true, vec!["stopped"]),
        ],
        vec![volume("orphan", Some(50 * MIB), vec![]), volume("busy", Some(MIB), vec!["live"])],
        vec![
            network("n1", "bridge", vec![]),
            network("n2", "host", vec![]),
            network("n3", "none", vec![]),
            network("n4", "app-net", vec![]),
            network("n5", "busy-net", vec!["live"]),
        ],
        10 * MIB,
    )
}

#[test]
fn reclaimable_space_scenario() {
    let scan = summarize_scan(
        vec![container("c", "Exited (0) 1 hours ago", ContainerState::Exited, 100 * MIB)],
        vec![image("i", "app", "v1", 200 * MIB, false, vec![])],
        vec![volume("v", Some(50 * MIB), vec![])],
        vec![],
        10 * MIB,
    );
    assert_eq!(scan.total_reclaimable, 360 * MIB);
    assert!(scan.daemon_running);
}

#[test]
fn summary_counts_skip_default_networks() {
    let scan = sample_scan();
    assert_eq!(scan.stopped_containers_count, 2);
    assert_eq!(scan.dangling_images_count, 1);
    assert_eq!(scan.unused_images_count, 1);
    assert_eq!(scan.orphan_volumes_count, 1);
    assert_eq!(scan.unused_networks_count, 1);
    assert_eq!(scan.total_reclaimable, (100 + 1 + 200 + 50 + 10) * MIB);
    let down = unreachable_scan();
    assert!(!down.daemon_running);
    assert_eq!(down.total_reclaimable, 0);
}

#[test]
fn suggestions_ranked_with_bounded_scores() {
    let scan = sample_scan();
    let sugs = get_docker_suggestions(&scan);
    assert_eq!(sugs.len(), 7);
    for w in sugs.windows(2) {
        assert!(w[0].score >= w[1].score);
    }
    for s in &sugs {
        assert!(s.score <= 1000);
        assert!(!(s.resource_type == DockerResourceType::Network
            && (s.name == "bridge" || s.name == "host" || s.name == "none")));
    }
    let find = |id: &str| sugs.iter().find(|s| s.id == id).unwrap();
    assert!(find("sha256:0123456789abcdef").auto_select);
    assert_eq!(find("sha256:0123456789abcdef").name, "sha256:01234...");
    assert!(find("orphan").auto_select);
    assert!(!find("stopped").auto_select);
    assert!(find("dead").auto_select);
    assert!(!find("img-unused").auto_select);
    assert_eq!(find("img-unused").name, "app:v1");
    assert!(!find("n4").auto_select);
    assert_eq!(find("n4").score, 900);
    let cache = find("build_cache");
    assert_eq!(cache.score, 800);
    assert_eq!(cache.reasons, vec!["Build cache: 10.0 MB".to_string(), "Can be safely removed".to_string()]);
    assert!(sugs.iter().all(|s| s.id != "live" && s.id != "img-used" && s.id != "busy"));
    assert!(get_docker_suggestions(&unreachable_scan()).is_empty());
}

#[test]
fn scan_filters() {
    let ids = |v: Vec<String>| v;
    assert_eq!(
        ids(get_stopped_containers(sample_scan()).into_iter().map(|c| c.id).collect()),
        vec!["stopped".to_string(), "dead".to_string()]
    );
    assert_eq!(
        ids(get_dangling_images(sample_scan()).into_iter().map(|i| i.id).collect()),
        vec!["sha256:0123456789abcdef".to_string()]
    );
    assert_eq!(
        ids(get_unused_images(sample_scan()).into_iter().map(|i| i.id).collect()),
        vec!["img-unused".to_string()]
    );
    assert_eq!(
        ids(get_orphan_volumes(sample_scan()).into_iter().map(|v| v.name).collect()),
        vec!["orphan".to_string()]
    );
    assert_eq!(
        ids(get_unused_networks(sample_scan()).into_iter().map(|n| n.name).collect()),
        vec!["app-net".to_string()]
    );
}

#[test]
fn auto_selected_suggestions() {
    let chosen = auto_selected(get_docker_suggestions(&sample_scan()));
    let mut ids: Vec<String> = chosen.into_iter().map(|s| s.id).collect();
    ids.sort();
    assert_eq!(ids, vec!["dead".to_string(), "orphan".to_string(), "sha256:0123456789abcdef".to_string()]);
}
