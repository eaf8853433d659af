use dsa_learning::path_resolver::PathResolver;
use std::path::Path;

fn resolver() -> PathResolver {
    PathResolver::with_base("/home/user/dev-data".to_string(), true)
}

fn production() -> PathResolver {
    PathResolver::with_base("/var/lib/app".to_string(), false)
}

#[test]
fn base_directory_is_kept() {
    assert_eq!(resolver().get_app_data_dir(), "/home/user/dev-data");
}

#[test]
fn well_known_places_lie_below_the_base() {
    let r = resolver();
    assert_eq!(Path::new(&r.get_recordings_dir()), Path::new("/home/user/dev-data").join("recordings"));
    assert_eq!(Path::new(&r.get_images_dir()), Path::new("/home/user/dev-data").join("images"));
    assert_eq!(Path::new(&r.get_database_path()), Path::new("/home/user/dev-data").join("database.db"));
    assert_eq!(r.get_recordings_dir(), "/home/user/dev-data/recordings");
}

#[test]
fn stored_paths_lose_their_environment() {
    let r = resolver();
    assert_eq!(r.resolve_relative_path("dev-data/recordings/a.wav"), "/home/user/dev-data/recordings/a.wav");
    assert_eq!(r.resolve_relative_path("app-data/recordings/a.wav"), "/home/user/dev-data/recordings/a.wav");
    assert_eq!(r.resolve_relative_path("app-data/images/problem_1/x.png"), "/home/user/dev-data/images/problem_1/x.png");
}

#[test]
fn other_paths_are_taken_as_relative_to_the_base() {
    let r = resolver();
    assert_eq!(r.resolve_relative_path("recordings/a.wav"), "/home/user/dev-data/recordings/a.wav");
    assert_eq!(r.resolve_relative_path("dev-data"), "/home/user/dev-data/dev-data");
    assert_eq!(r.resolve_relative_path("dev-datax/a"), "/home/user/dev-data/dev-datax/a");
    assert_eq!(r.resolve_relative_path("attachments/dev-data/a"), "/home/user/dev-data/attachments/dev-data/a");
}

#[test]
fn resolve_differs_from_its_argument() {
    let r = resolver();
    assert_ne!(r.resolve_relative_path("dev-data/a.wav"), "dev-data/a.wav");
    assert_ne!(r.get_recordings_dir(), "/home/user/dev-data");
}

#[test]
fn paths_below_the_base_are_stored_with_the_environment() {
    assert_eq!(resolver().to_relative_path("/home/user/dev-data/recordings/a.wav"), "dev-data/recordings/a.wav");
    assert_eq!(production().to_relative_path("/var/lib/app/recordings/a.wav"), "app-data/recordings/a.wav");
    assert_eq!(production().to_relative_path("/var/lib/app//images/b.png"), "app-data/images/b.png");
}

#[test]
fn paths_elsewhere_are_stored_as_unknown() {
    assert_eq!(resolver().to_relative_path("/tmp/a.wav"), "dev-data/unknown/a.wav");
    assert_eq!(production().to_relative_path("/var/lib/application/a.wav"), "app-data/unknown/a.wav");
    assert_eq!(production().to_relative_path("/"), "app-data/unknown/unknown");
    assert_eq!(production().to_relative_path("/tmp/.."), "app-data/unknown/unknown");
}

#[test]
fn stored_paths_resolve_back() {
    let r = production();
    let absolute = "/var/lib/app/recordings/recording_1.wav";
    let stored = r.to_relative_path(absolute);
    assert_eq!(r.resolve_relative_path(&stored), absolute);
}

#[test]
fn stored_form_from_its_parts() {
    assert_eq!(
        dsa_learning::path_resolver::stored_path("app-data", Some("recordings/a.wav".to_string()), Some("a.wav".to_string())),
        "app-data/recordings/a.wav"
    );
    assert_eq!(
        dsa_learning::path_resolver::stored_path("dev-data", None, Some("a.wav".to_string())),
        "dev-data/unknown/a.wav"
    );
    assert_eq!(dsa_learning::path_resolver::stored_path("dev-data", None, None), "dev-data/unknown/unknown");
    assert_eq!(dsa_learning::path_resolver::stored_path("x", Some(String::new()), None), "x/");
}
