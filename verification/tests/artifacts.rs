use minecraft_launcher_core::artifact::{join_path, Artifact};

#[test]
fn coordinates_of_three_parts_are_read() {
    let artifact = Artifact::parse("com.mojang:patchy:1.1").expect("a coordinate");
    assert_eq!(artifact.group, "com.mojang");
    assert_eq!(artifact.name, "patchy");
    assert_eq!(artifact.version, "1.1");
    assert_eq!(artifact.classifier, None);
}

#[test]
fn coordinates_of_four_parts_have_a_classifier() {
    let artifact = Artifact::parse("org.lwjgl:lwjgl:3.3.1:natives-linux").expect("a coordinate");
    assert_eq!(artifact.group, "org.lwjgl");
    assert_eq!(artifact.name, "lwjgl");
    assert_eq!(artifact.version, "3.3.1");
    assert_eq!(artifact.classifier.as_deref(), Some("natives-linux"));
}

#[test]
fn other_coordinates_are_refused() {
    assert!(Artifact::parse("patchy").is_none());
    assert!(Artifact::parse("com.mojang:patchy").is_none());
    assert!(Artifact::parse("a:b:c:d:e").is_none());
    assert!(Artifact::parse("").is_none());
    let empty = Artifact::parse("::").expect("three empty parts");
    assert_eq!(empty.group, "");
    assert_eq!(empty.version, "");
}

#[test]
fn paths_follow_the_coordinate() {
    let artifact = Artifact::parse("com.mojang:patchy:1.1").expect("a coordinate");
    assert_eq!(artifact.get_path_string(), "com/mojang/patchy-1.1.jar");
    assert_eq!(artifact.get_local_path("/game/libraries"), "/game/libraries/com/mojang/patchy-1.1.jar");
    let natives = Artifact::parse("org.lwjgl:lwjgl:3.3.1:natives-linux").expect("a coordinate");
    assert_eq!(natives.get_path_string(), "org/lwjgl/lwjgl-3.3.1-natives-linux.jar");
}

#[test]
fn classifiers_are_replaced_only_where_given() {
    let artifact = Artifact::parse("org.lwjgl:lwjgl:3.3.1:natives-linux").expect("a coordinate");
    assert_eq!(artifact.with_classifier(None).classifier.as_deref(), Some("natives-linux"));
    assert_eq!(artifact.with_classifier(Some("natives-osx")).classifier.as_deref(), Some("natives-osx"));
    assert_eq!(
        artifact.with_classifier(Some("natives-osx")).get_path_string(),
        "org/lwjgl/lwjgl-3.3.1-natives-osx.jar"
    );
    let copy = artifact.clone();
    assert_eq!(copy.get_path_string(), artifact.get_path_string());
}

#[test]
fn paths_are_joined_with_a_slash() {
    assert_eq!(join_path("a/b", "c.txt"), "a/b/c.txt");
    assert_eq!(join_path("", "c"), "/c");
}

#[test]
fn coordinates_are_written_as_they_are_read() {
    for text in ["com.mojang:patchy:1.1", "org.lwjgl:lwjgl:3.3.1:natives-linux", "::"] {
        assert_eq!(Artifact::parse(text).expect("a coordinate").to_string(), text);
    }
}
