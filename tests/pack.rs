use ffpack::types::{Loader, ManagedFile, ManagedFiles, Metadata, Side, Source, Versions};
use ffpack::Pack;
use std::cmp::Ordering;

fn file(path: &str, filename: &str) -> ManagedFile {
    ManagedFile {
        name: None,
        description: None,
        filename: filename.to_string(),
        devel: false,
        path: path.to_string(),
        side: Side::Client,
        source: Source::Modrinth { slug: "sodium".to_string() },
    }
}

#[test]
fn same_path_takes_one_slot() {
    let a = file("mods/sodium.jar", "first.jar");
    let b = file("mods/sodium.jar", "second.jar");
    let set = ManagedFiles::from_files(vec![a, b.clone()]);
    assert_eq!(set.len(), 1);
    assert_eq!(set.files()[0], b);
}

#[test]
fn insert_replaces_file_of_same_path() {
    let mut set = ManagedFiles::new();
    set.insert(file("mods/a.jar", "one.jar"));
    set.insert(file("mods/b.jar", "two.jar"));
    set.insert(file("mods/a.jar", "three.jar"));
    assert_eq!(set.len(), 2);
    assert_eq!(set.files()[0].filename, "three.jar");
    assert_eq!(set.files()[1].filename, "two.jar");
}

#[test]
fn files_in_ascending_path_order() {
    let set = ManagedFiles::from_files(vec![
        file("mods/z.jar", "z"),
        file("config/a.toml", "a"),
        file("mods/a-b.jar", "ab"),
        file("mods/a/b.jar", "a/b"),
    ]);
    let paths: Vec<&str> = set.files().iter().map(|f| f.path.as_str()).collect();
    // component order: "a" comes before "a-b.jar" within mods/
    assert_eq!(paths, vec!["config/a.toml", "mods/a/b.jar", "mods/a-b.jar", "mods/z.jar"]);
}

#[test]
fn paths_equal_by_components_share_a_slot() {
    let set = ManagedFiles::from_files(vec![file("mods//x.jar", "one"), file("mods/x.jar", "two")]);
    assert_eq!(set.len(), 1);
    assert_eq!(set.files()[0].filename, "two");
}

#[test]
fn empty_collection() {
    let set = ManagedFiles::from_files(vec![]);
    assert_eq!(set.len(), 0);
    assert_eq!(ManagedFiles::new(), set);
}

#[test]
fn default_pack_holds_example_file() {
    let pack = Pack::default();
    assert_eq!(pack.managed_files.len(), 1);
    let f = &pack.managed_files.files()[0];
    assert_eq!(f.path, "mods/MyAwesomeMod.jar");
    assert_eq!(f.filename, "My Awesome Mod.jar");
    assert_eq!(f.name.as_deref(), Some("My totally awesome mode"));
    assert_eq!(f.side, Side::Both);
    assert!(f.devel);
    match &f.source {
        Source::Url { url, blake3 } => {
            assert_eq!(url.as_str(), "https://example.org/mods/MyAwesomeMod-1.2.3.jar");
            assert_eq!(blake3, &[0u8; 32]);
        }
        other => panic!("unexpected source {:?}", other),
    }
    assert_eq!(pack.metadata, Metadata::default());
    assert_eq!(pack.versions, Versions::default());
}

#[test]
fn default_metadata_and_versions() {
    let m = Metadata::default();
    assert_eq!(m.name, "My super cool modpack!");
    assert_eq!(m.description.as_deref(), Some("Totally a real mod pack!"));
    assert_eq!(m.author, "Your name here!");
    assert_eq!(m.version, semver::Version::new(0, 0, 1));
    let v = Versions::default();
    assert_eq!(v.minecraft.to_string(), "1.19");
    assert_eq!(v.loader, Loader::Quilt(semver::Version::parse("0.17.1-beta.3").unwrap()));
}

#[test]
fn loader_names_and_versions() {
    let v = semver::Version::new(1, 2, 3);
    let q = Loader::new_quilt(v.clone());
    let fa = Loader::new_fabric(v.clone());
    let fo = Loader::new_forge(v.clone());
    assert_eq!(q.name(), "Quilt");
    assert_eq!(fa.name(), "Fabric");
    assert_eq!(fo.name(), "Forge");
    assert_eq!(fo.version(), &v);
    assert_eq!(q.cmp(&fa), Ordering::Less);
    assert_eq!(fa.cmp(&fo), Ordering::Less);
}

#[test]
fn side_defaults_to_both() {
    assert_eq!(Side::default(), Side::Both);
}

#[test]
fn sources_order_by_kind() {
    let slug = Source::Slug { slug: "z".to_string(), branch: None };
    let modrinth = Source::Modrinth { slug: "a".to_string() };
    assert!(slug < modrinth);
}

#[test]
fn loader_renders_name_and_version() {
    assert_eq!(Loader::default().to_string(), "Quilt: 0.17.1-beta.3");
    let forge = Loader::new_forge(semver::Version::new(41, 1, 0));
    assert_eq!(forge.to_string(), "Forge: 41.1.0");
}

#[test]
fn managed_files_compare_by_path_alone() {
    let a = file("mods/a.jar", "zzz.jar");
    let b = file("mods/b.jar", "aaa.jar");
    assert_eq!(a.compare(&b), Ordering::Less);
    assert_eq!(b.compare(&a), Ordering::Greater);
    let a2 = file("mods/a.jar", "other.jar");
    assert_eq!(a.compare(&a2), Ordering::Equal);
    let cur = file("./x", "x");
    let parent = file("../x", "x");
    assert_eq!(cur.compare(&parent), Ordering::Less);
}
