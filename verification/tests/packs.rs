//! Resource packs: checks, layers, and the answers to the server.

use std::io::{Cursor, Read, Write};

use crabcraft::hash::{hex_text, sha1_hex};
use crabcraft::json::Json;
use crabcraft::packs::{
    configuration_status_form, decision_status, play_status_form, Generations, Rebuild,
    ResourcePackRequest, ResourcePacks, StatusForm,
};
use crabcraft::protocol::ProtocolVersion;
use crabcraft::resource_pack::{
    check_download, check_metadata, check_scheme, check_url, hash_matches, is_too_large,
    is_whole_archive, layer_resource_pack, stack_resource_packs, validate_resource_pack, PackError,
};
use crabcraft::wire::Uuid;

fn zip_bytes(entries: &[(&str, &[u8])]) -> Vec<u8> {
    let mut writer = zip::ZipWriter::new(Cursor::new(Vec::new()));
    for (name, bytes) in entries {
        writer
            .start_file(*name, zip::write::SimpleFileOptions::default())
            .unwrap();
        writer.write_all(bytes).unwrap();
    }
    writer.finish().unwrap().into_inner()
}

fn zip_entry(bytes: &[u8], name: &str) -> Option<Vec<u8>> {
    let mut archive = zip::ZipArchive::new(Cursor::new(bytes)).unwrap();
    let mut entry = archive.by_name(name).ok()?;
    let mut contents = Vec::new();
    entry.read_to_end(&mut contents).unwrap();
    Some(contents)
}

fn put_string(body: &mut Vec<u8>, text: &str) {
    assert!(text.len() < 128);
    body.push(text.len() as u8);
    body.extend_from_slice(text.as_bytes());
}

#[test]
fn resource_pack_requests_preserve_forced_prompt_and_hash() {
    let mut packs = ResourcePacks::new(None, false);
    let mut body = Vec::new();
    put_string(&mut body, "https://example.invalid/server-pack.zip");
    put_string(&mut body, "0123456789abcdef0123456789abcdef01234567");
    body.push(1);
    body.push(1);
    put_string(&mut body, r#"{"text":"Required visuals"}"#);

    assert!(packs.handle_resource_pack_request(&body));
    let request = packs.request.as_ref().unwrap();
    assert!(request.forced);
    assert_eq!(request.prompt.as_deref(), Some("Required visuals"));
    assert_eq!(request.hash.len(), 40);
    assert!(packs.prompt_open);

    let mut other = ResourcePacks::new(None, false);
    assert!(!other.handle_resource_pack_request(&body[..50]));
    assert!(other.request.is_none());
}

#[test]
fn resource_pack_validation_requires_vanilla_metadata() {
    let valid = zip_bytes(&[
        ("pack.mcmeta", br#"{"pack":{"pack_format":15,"description":"test"}}"#),
        ("assets/minecraft/textures/block/stone.png", b"texture"),
    ]);
    validate_resource_pack(&valid).unwrap();

    let missing = zip_bytes(&[("assets/minecraft/example", b"data")]);
    assert!(validate_resource_pack(&missing).is_err());
    let malformed = zip_bytes(&[("pack.mcmeta", br#"{"pack":{"description":"test"}}"#)]);
    assert!(validate_resource_pack(&malformed).is_err());
}

#[test]
fn every_fault_of_a_pack_has_its_name() {
    assert_eq!(validate_resource_pack(&b"no archive".to_vec()), Err(PackError::InvalidArchive));
    assert_eq!(
        validate_resource_pack(&zip_bytes(&[("a", b"b")])),
        Err(PackError::NoMetadata)
    );
    assert_eq!(
        validate_resource_pack(&zip_bytes(&[("pack.mcmeta", &[0xff, 0xfe])])),
        Err(PackError::UnreadableMetadata)
    );
    assert_eq!(
        validate_resource_pack(&zip_bytes(&[("pack.mcmeta", b"{")])),
        Err(PackError::InvalidMetadata)
    );
    assert_eq!(
        validate_resource_pack(&zip_bytes(&[("pack.mcmeta", br#"{"pack":{"pack_format":-1}}"#)])),
        Err(PackError::NoPackFormat)
    );
    assert_eq!(check_metadata(&None), Err(PackError::InvalidMetadata));
    assert_eq!(check_metadata(&Some(Json::Null)), Err(PackError::NoPackFormat));
}

#[test]
fn only_web_addresses_are_fetched() {
    assert_eq!(check_url("https://example.invalid/a.zip"), Ok(()));
    assert_eq!(check_url("HTTP://example.invalid/a.zip"), Ok(()));
    assert_eq!(check_url("file:///etc/hosts"), Err(PackError::UnsupportedScheme));
    assert_eq!(check_url("no address"), Err(PackError::InvalidUrl));
    assert_eq!(check_scheme(&Some("ftp".to_string())), Err(PackError::UnsupportedScheme));
    assert_eq!(check_scheme(&None), Err(PackError::InvalidUrl));
}

#[test]
fn downloads_are_held_against_their_hash() {
    let pack = zip_bytes(&[("pack.mcmeta", br#"{"pack":{"pack_format":15}}"#)]);
    let digest = sha1_hex(&pack);
    assert_eq!(check_download(&pack, ""), Ok(digest.clone()));
    let loud = format!("  {}\n", digest.to_uppercase());
    assert_eq!(check_download(&pack, &loud), Ok(digest.clone()));
    assert_eq!(
        check_download(&pack, "0123456789abcdef0123456789abcdef01234567"),
        Err(PackError::HashMismatch)
    );
    assert_eq!(check_download(&b"text".to_vec(), ""), Err(PackError::InvalidArchive));
    assert!(hash_matches(" ", "anything"));
    assert!(!is_too_large(104_857_600));
    assert!(is_too_large(104_857_601));
}

#[test]
fn digests_are_those_of_sha1() {
    assert_eq!(
        sha1_hex(&b"hello world".to_vec()),
        "2aae6c35c94fcfb415dbe95f408b9ce91ee846ed"
    );
    assert_eq!(hex_text(&vec![0x00, 0x0f, 0xa5]), "000fa5");
}

#[test]
fn layered_resource_pack_overrides_and_preserves_base_assets() {
    let base = zip_bytes(&[
        ("assets/minecraft/models/block/stone.json", b"base-model"),
        ("assets/minecraft/textures/block/stone.png", b"base-texture"),
        ("com/example/ignored.class", b"bytecode"),
    ]);
    let pack = zip_bytes(&[
        ("pack.mcmeta", br#"{"pack":{"pack_format":15}}"#),
        ("assets/minecraft/textures/block/stone.png", b"pack-texture"),
        ("assets/minecraft/textures/item/apple.png", b"pack-apple"),
    ]);

    let layered = layer_resource_pack(base, pack).unwrap();
    assert_eq!(
        zip_entry(&layered, "assets/minecraft/textures/block/stone.png").unwrap(),
        b"pack-texture"
    );
    assert_eq!(
        zip_entry(&layered, "assets/minecraft/models/block/stone.json").unwrap(),
        b"base-model"
    );
    assert_eq!(
        zip_entry(&layered, "assets/minecraft/textures/item/apple.png").unwrap(),
        b"pack-apple"
    );
    assert!(zip_entry(&layered, "com/example/ignored.class").is_none());
}

#[test]
fn layered_entries_keep_their_bytes() {
    let picture: Vec<u8> = (0..=255).rev().cycle().take(3000).collect();
    let base = zip_bytes(&[("assets/minecraft/a.png", &picture), ("assets/minecraft/b", b"b")]);
    let pack = zip_bytes(&[("assets/other/c.png", &picture), ("assets/minecraft/b", b"\xff\xfe")]);
    assert!(is_whole_archive(&base));
    assert!(is_whole_archive(&pack));
    let layered = layer_resource_pack(base, pack).unwrap();
    assert_eq!(zip_entry(&layered, "assets/minecraft/a.png").unwrap(), picture);
    assert_eq!(zip_entry(&layered, "assets/other/c.png").unwrap(), picture);
    assert_eq!(zip_entry(&layered, "assets/minecraft/b").unwrap(), b"\xff\xfe");
    assert!(is_whole_archive(&layered));
}

/// A pack of two assets over a base of so many: one of them is overridden, one new.
fn layer_over_many(count: usize) -> Vec<u8> {
    let plain = zip::write::SimpleFileOptions::default()
        .compression_method(zip::CompressionMethod::Stored);
    let mut writer = zip::ZipWriter::new(Cursor::new(Vec::new()));
    for index in 0..count {
        writer.start_file(format!("assets/minecraft/{index}"), plain).unwrap();
        writer.write_all(format!("{index}").as_bytes()).unwrap();
    }
    let base = writer.finish().unwrap().into_inner();
    let pack = zip_bytes(&[("assets/minecraft/7", b"seven"), ("assets/other/new", b"new")]);
    layer_resource_pack(base, pack).unwrap()
}

fn check_many(count: usize) {
    let layered = layer_over_many(count);
    let archive = zip::ZipArchive::new(Cursor::new(&layered)).unwrap();
    assert_eq!(archive.len(), count + 1);
    let last = format!("assets/minecraft/{}", count - 1);
    assert_eq!(zip_entry(&layered, &last).unwrap(), format!("{}", count - 1).as_bytes());
    assert_eq!(zip_entry(&layered, "assets/minecraft/0").unwrap(), b"0");
    assert_eq!(zip_entry(&layered, "assets/minecraft/7").unwrap(), b"seven");
    assert_eq!(zip_entry(&layered, "assets/other/new").unwrap(), b"new");
    assert!(is_whole_archive(&layered));
}

#[test]
fn layers_of_just_below_65535_entries_read_back() {
    check_many(65533);
}

#[test]
fn layers_of_65535_entries_read_back() {
    check_many(65534);
}

#[test]
fn layers_of_more_than_65535_entries_read_back() {
    check_many(65600);
}

#[test]
fn entries_longer_than_their_archive_are_noticed() {
    let mut bytes = zip_bytes(&[("assets/minecraft/a", b"a")]);
    assert!(is_whole_archive(&bytes));
    let directory = bytes.windows(4).position(|magic| magic == b"PK\x01\x02").unwrap();
    bytes[directory + 20..directory + 24].copy_from_slice(&100_000_u32.to_le_bytes());
    assert!(!is_whole_archive(&bytes));
    assert!(!is_whole_archive(&b"text".to_vec()));
}

#[test]
fn metadata_is_text() {
    assert_eq!(
        validate_resource_pack(&zip_bytes(&[("pack.mcmeta", b"\xff")])),
        Err(PackError::UnreadableMetadata)
    );
}

#[test]
fn layers_need_archives_with_assets() {
    let base = zip_bytes(&[("assets/minecraft/a.txt", b"a")]);
    let bare = zip_bytes(&[("pack.mcmeta", b"{}"), ("assets/", b"")]);
    assert_eq!(
        layer_resource_pack(base.clone(), bare),
        Err(PackError::NoAssets)
    );
    assert_eq!(
        layer_resource_pack(base.clone(), b"text".to_vec()),
        Err(PackError::InvalidArchive)
    );
    assert_eq!(
        layer_resource_pack(b"text".to_vec(), base),
        Err(PackError::InvalidBase)
    );
}

/// Rebuilds the stack of packs in memory; a place is the place in a list.
fn rebuild(packs: &ResourcePacks, archives: &[Vec<u8>]) -> Result<Option<Vec<u8>>, PackError> {
    let load = |place: &str| archives[place.parse::<usize>().unwrap()].clone();
    match packs.rebuild_plan()? {
        Rebuild::Nothing => Ok(None),
        Rebuild::Use(place) => Ok(Some(load(&place))),
        Rebuild::Stack(base, names) => {
            assert_eq!(names.len(), packs.layers.len());
            let layers: Vec<Vec<u8>> =
                packs.layers.iter().map(|layer| load(&layer.archive)).collect();
            stack_resource_packs(load(&base), &layers).map(Some)
        }
    }
}

#[test]
fn uuid_resource_pack_stack_rebuilds_after_middle_layer_removal() {
    let archives = vec![
        zip_bytes(&[
            ("assets/minecraft/a.txt", b"base-a"),
            ("assets/minecraft/b.txt", b"base-b"),
        ]),
        zip_bytes(&[("assets/minecraft/a.txt", b"first-a")]),
        zip_bytes(&[("assets/minecraft/b.txt", b"second-b")]),
    ];
    let mut packs = ResourcePacks::new(Some("0".to_string()), false);
    let first = Uuid { high: 1, low: 2 };
    let second = Uuid { high: 3, low: 4 };
    for (uuid, place) in [(first, "1"), (second, "2")] {
        let previous = packs.begin_activation(Some(uuid), place.to_string());
        let built = rebuild(&packs, &archives).map(|bytes| bytes.map(|_| "built".to_string()));
        assert_eq!(packs.finish_activation(previous, built), Ok("built".to_string()));
    }
    assert!(packs.reload_ack);
    let stacked = rebuild(&packs, &archives).unwrap().unwrap();
    assert_eq!(zip_entry(&stacked, "assets/minecraft/a.txt").unwrap(), b"first-a");
    assert_eq!(zip_entry(&stacked, "assets/minecraft/b.txt").unwrap(), b"second-b");

    let mut remove = vec![1];
    remove.extend_from_slice(&first.high.to_be_bytes());
    remove.extend_from_slice(&first.low.to_be_bytes());
    assert!(packs.handle_remove_resource_pack_765(&remove));
    let rebuilt = rebuild(&packs, &archives).unwrap().unwrap();
    packs.finish_removal(Some("rebuilt".to_string()));
    assert_eq!(packs.cached.as_deref(), Some("rebuilt"));
    assert!(!packs.reload_ack);
    assert_eq!(zip_entry(&rebuilt, "assets/minecraft/a.txt").unwrap(), b"base-a");
    assert_eq!(zip_entry(&rebuilt, "assets/minecraft/b.txt").unwrap(), b"second-b");
    assert_eq!(packs.layers.len(), 1);
}

#[test]
fn failed_activations_restore_the_layers() {
    let mut packs = ResourcePacks::new(None, true);
    let previous = packs.begin_activation(None, "a".to_string());
    assert_eq!(packs.rebuild_plan().err(), Some(PackError::NeedsBase));
    assert_eq!(
        packs.finish_activation(previous, Err(PackError::NeedsBase)),
        Err(PackError::NeedsBase)
    );
    assert!(packs.layers.is_empty());
    let previous = packs.begin_activation(None, "a".to_string());
    assert_eq!(packs.finish_activation(previous, Ok(None)), Err(PackError::EmptyStack));
    assert!(packs.layers.is_empty());
}

#[test]
fn removals_clear_their_request() {
    let uuid = Uuid { high: 8, low: 9 };
    let mut packs = ResourcePacks::new(None, false);
    packs.set_resource_pack_request(ResourcePackRequest {
        uuid: Some(uuid),
        url: "u".to_string(),
        hash: String::new(),
        forced: false,
        prompt: None,
    });
    let mut other = vec![1];
    other.extend_from_slice(&[7; 16]);
    assert!(packs.handle_remove_resource_pack_765(&other));
    assert!(packs.request.is_some() && packs.prompt_open);
    packs.close_prompt();
    assert!(!packs.prompt_open);
    assert!(packs.handle_remove_resource_pack_765(&[0]));
    assert!(packs.request.is_none());
    assert!(!packs.handle_remove_resource_pack_765(&[1, 2]));
}

#[test]
fn plans_name_their_archives() {
    let mut packs = ResourcePacks::new(None, false);
    assert!(matches!(packs.rebuild_plan(), Ok(Rebuild::Nothing)));
    packs.begin_activation(None, "x".to_string());
    assert!(matches!(packs.rebuild_plan(), Ok(Rebuild::Use(place)) if place == "x"));
    packs.base = Some("jar".to_string());
    match packs.rebuild_plan() {
        Ok(Rebuild::Stack(base, names)) => {
            assert_eq!(base, "jar");
            let key = sha1_hex(&b"x".to_vec());
            assert_eq!(names, vec![format!("stack-{key}-0.zip")]);
        }
        _ => panic!("a stack"),
    }
}

#[test]
fn statuses_are_reported_in_their_form() {
    let uuid = Uuid { high: 1, low: 1 };
    assert_eq!((decision_status(true), decision_status(false)), (3, 1));
    assert_eq!(play_status_form(ProtocolVersion::V1_20_2, None), StatusForm::Plain);
    assert_eq!(
        play_status_form(ProtocolVersion::V1_20_3, Some(uuid)),
        StatusForm::Named(uuid)
    );
    assert_eq!(
        play_status_form(ProtocolVersion::V1_21, Some(uuid)),
        StatusForm::NamedSplit(uuid)
    );
    assert_eq!(play_status_form(ProtocolVersion::V1_21, None), StatusForm::Impossible);
    assert_eq!(
        configuration_status_form(ProtocolVersion::V1_20_1, Some(uuid)),
        StatusForm::Impossible
    );
    assert_eq!(configuration_status_form(ProtocolVersion::V1_20_2, None), StatusForm::Plain);
    assert_eq!(
        configuration_status_form(ProtocolVersion::V1_21_5, Some(uuid)),
        StatusForm::Named(uuid)
    );
    let mut packs = ResourcePacks::new(None, false);
    assert_eq!(packs.settle(None), Some(2));
    assert_eq!(packs.settle(Some("a".to_string())), Some(0));
    packs.renderer_active = true;
    assert_eq!(packs.settle(Some("b".to_string())), None);
}

#[test]
fn reloads_are_reported_once() {
    let mut packs = ResourcePacks::new(None, true);
    assert_eq!(packs.pending_reload(None), None);
    packs.settle(Some("a".to_string()));
    assert_eq!(packs.pending_reload(None), Some("a"));
    assert_eq!(packs.pending_reload(Some("a")), None);
    packs.reload_ack = true;
    assert_eq!(packs.finish_reload(false), Some(2));
    assert_eq!(packs.finish_reload(true), None);
    let mut generations = Generations::new();
    assert_eq!(generations.request(true), Some(1));
    assert_eq!(generations.request(false), None);
    assert_eq!(generations.request(true), Some(2));
}
