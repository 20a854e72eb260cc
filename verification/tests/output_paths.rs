use rpgmd::assets::AssetKind;
use rpgmd::config::parse_config;
use rpgmd::output::{output_path, Placement};
use rpgmd::paths::{extension, file_name, is_config_file_name, parent_dir, stem};

#[test]
fn file_name_is_the_part_after_the_last_slash() {
    assert_eq!(file_name("a/b/c.rpgmvp"), "c.rpgmvp");
    assert_eq!(file_name("c.rpgmvp"), "c.rpgmvp");
    assert_eq!(file_name("a/b/"), "");
}

#[test]
fn parent_dir_is_the_part_before_the_last_slash() {
    assert_eq!(parent_dir("a/b/c.rpgmvp"), "a/b");
    assert_eq!(parent_dir("c.rpgmvp"), ".");
}

#[test]
fn stem_drops_only_the_last_extension() {
    assert_eq!(stem("a/b/c.rpgmvp"), "c");
    assert_eq!(stem("a/b/c.d.rpgmvp"), "c.d");
    assert_eq!(stem("a/b/noext"), "noext");
    assert_eq!(stem("a/.hidden"), ".hidden");
}

#[test]
fn extension_is_the_part_after_the_last_dot() {
    assert_eq!(extension("a/b/c.rpgmvp"), Some("rpgmvp".to_string()));
    assert_eq!(extension("a/b/c.d.ogg"), Some("ogg".to_string()));
    assert_eq!(extension("a/b/noext"), None);
    assert_eq!(extension("a/.hidden"), None);
    assert_eq!(extension("a.b/noext"), None);
}

#[test]
fn config_file_name_spellings() {
    assert!(is_config_file_name("System.json"));
    assert!(is_config_file_name("system.json"));
    assert!(!is_config_file_name("SYSTEM.JSON"));
    assert!(!is_config_file_name("System.json5"));
}

#[test]
fn in_place_outputs_keep_stem_and_map_extension() {
    assert_eq!(
        output_path("img/pic.rpgmvp", AssetKind::Picture, &Placement::InPlace),
        "img/pic.png"
    );
    assert_eq!(
        output_path("audio/voice.rpgmvm", AssetKind::AudioVoice, &Placement::InPlace),
        "audio/voice.m4a"
    );
    assert_eq!(
        output_path("audio/song.rpgmvo", AssetKind::AudioSound, &Placement::InPlace),
        "audio/song.ogg"
    );
}

#[test]
fn in_place_output_without_parent_goes_to_current_dir() {
    assert_eq!(
        output_path("pic.rpgmvp", AssetKind::Picture, &Placement::InPlace),
        "./pic.png"
    );
}

#[test]
fn copy_mode_flattens_nested_inputs() {
    let place = Placement::CopyTo("out".to_string());
    assert_eq!(
        output_path("game/img/deep/nest/pic.rpgmvp", AssetKind::Picture, &place),
        "out/pic.png"
    );
    assert_eq!(
        output_path("song.rpgmvo", AssetKind::AudioSound, &place),
        "out/song.ogg"
    );
}

#[test]
fn no_arguments_means_current_dir_in_place() {
    let args = vec!["rpgmd".to_string()];
    let c = parse_config(&args).unwrap();
    assert_eq!(c.input_folder, "./");
    assert!(matches!(c.placement, Placement::InPlace));
    let c = parse_config(&Vec::new()).unwrap();
    assert_eq!(c.input_folder, "./");
}

#[test]
fn one_argument_names_the_folder() {
    let args = vec!["rpgmd".to_string(), "game".to_string()];
    let c = parse_config(&args).unwrap();
    assert_eq!(c.input_folder, "game");
    assert!(matches!(c.placement, Placement::InPlace));
}

#[test]
fn two_arguments_select_copy_mode() {
    let args = vec!["rpgmd".to_string(), "game".to_string(), "out".to_string()];
    let c = parse_config(&args).unwrap();
    assert_eq!(c.input_folder, "game");
    match c.placement {
        Placement::CopyTo(d) => assert_eq!(d, "out"),
        Placement::InPlace => panic!("expected copy mode"),
    }
}

#[test]
fn too_many_arguments_are_a_usage_error() {
    let args = vec![
        "rpgmd".to_string(),
        "game".to_string(),
        "out".to_string(),
        "extra".to_string(),
    ];
    assert!(parse_config(&args).is_none());
}
