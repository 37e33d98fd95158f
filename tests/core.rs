use adp_sdk::digest::{blob_path, sha256_bytes};
use adp_sdk::error::PackageError;
use adp_sdk::layer::{
    build_layer, definition_from_layer, definition_path, find_definition, is_within,
    layer_sources, relative_path, LayerFile, WalkEntry,
};
use adp_sdk::package::{
    config_json, create_package, index_json, layer_digest, layout_json, manifest_digest,
    manifest_json, Blob,
};
use adp_sdk::validation::RuntimeEntry;

fn python_entry() -> Vec<RuntimeEntry> {
    vec![RuntimeEntry { backend: "python".into(), id: "py".into(), entrypoint: None }]
}

fn definition_file(text: &str) -> LayerFile {
    LayerFile { name: "adp/agent.yaml".into(), data: text.as_bytes().to_vec() }
}

fn walk(path: &str, is_file: bool) -> WalkEntry {
    WalkEntry { path: path.into(), is_file }
}

#[test]
fn digest_of_known_inputs() {
    assert_eq!(
        sha256_bytes(b"abc"),
        "sha256:ba7816bf8f01cfea414140de5dae2223b00361a396177a9cb410ff61f20015ad"
    );
    assert_eq!(
        sha256_bytes(b""),
        "sha256:e3b0c44298fc1c149afbf4c8996fb92427ae41e4649b934ca495991b7852b855"
    );
}

#[test]
fn equal_bytes_equal_digest() {
    assert_eq!(sha256_bytes(b"same content"), sha256_bytes(b"same content"));
    assert_ne!(sha256_bytes(b"same content"), sha256_bytes(b"other content"));
}

#[test]
fn blob_path_edge_cases() {
    assert_eq!(blob_path("/root/", "sha256:ff").unwrap(), "/root/blobs/sha256/ff");
    assert_eq!(blob_path("out", "sha256:aa:bb").unwrap(), "out/blobs/sha256/aa");
    assert_eq!(blob_path("out", "sha256:").unwrap(), "out/blobs/sha256/");
    assert!(blob_path("out", "no-separator").is_none());
}

#[test]
fn blob_file_is_named_by_its_digest() {
    let blob = Blob::of(b"config".to_vec());
    let hex = blob.digest.strip_prefix("sha256:").unwrap().to_string();
    assert_eq!(blob.digest, sha256_bytes(b"config"));
    assert_eq!(blob_path("/pkg", &blob.digest).unwrap(), format!("/pkg/blobs/sha256/{}", hex));
}

#[test]
fn within_and_relative_paths() {
    assert!(is_within("/src/oci", "/src/oci"));
    assert!(is_within("/src/oci/blobs/x", "/src/oci"));
    assert!(!is_within("/src/ocifile", "/src/oci"));
    assert!(!is_within("/src", "/src/oci"));
    assert!(is_within("/src/a", "/src/"));
    assert_eq!(relative_path("/src/adp/agent.yaml", "/src").unwrap(), "adp/agent.yaml");
    assert_eq!(relative_path("/src/adp/agent.yaml", "/src/").unwrap(), "adp/agent.yaml");
    assert!(relative_path("/src", "/src").is_none());
    assert!(relative_path("/other/x", "/src").is_none());
}

#[test]
fn output_inside_source_is_not_packaged() {
    let entries = vec![
        walk("/src", false),
        walk("/src/adp", false),
        walk("/src/adp/agent.yaml", true),
        walk("/src/oci", false),
        walk("/src/oci/index.json", true),
        walk("/src/oci/blobs/sha256/ab", true),
        walk("/src/ocinotes.txt", true),
    ];
    let chosen = layer_sources("/src", "/src/oci", &entries);
    let names: Vec<&str> = chosen.iter().map(|s| s.name.as_str()).collect();
    assert_eq!(names, vec!["adp/agent.yaml", "ocinotes.txt"]);
    assert_eq!(chosen[0].source, "/src/adp/agent.yaml");
    assert!(names.iter().all(|n| !is_within(n, "oci")));
}

#[test]
fn layer_is_deterministic() {
    let files = vec![definition_file("id: a\n"), LayerFile { name: "b/c.txt".into(), data: vec![1, 2, 3] }];
    let first = build_layer(&files).unwrap();
    let second = build_layer(&files).unwrap();
    assert_eq!(first, second);
    assert_ne!(first, files[0].data);
}

#[test]
fn layer_rejects_parent_components() {
    let files = vec![LayerFile { name: "../escape".into(), data: vec![] }];
    assert!(matches!(build_layer(&files), Err(PackageError::Io(_))));
}

#[test]
fn definition_survives_the_round_trip() {
    let text = "adp_version: \"0.1.0\"\nid: \"agent.round\"\n";
    let files = vec![
        LayerFile { name: "README.md".into(), data: b"readme".to_vec() },
        definition_file(text),
    ];
    let pkg = create_package("agent.round", "0.1.0", &python_entry(), &files).unwrap();
    let m = manifest_digest(&pkg.index).unwrap();
    assert_eq!(m, pkg.manifest.digest);
    let l = layer_digest(&pkg.manifest.data, &m).unwrap();
    assert_eq!(l, pkg.layer.digest);
    assert_eq!(definition_from_layer(&pkg.layer.data).unwrap(), text.as_bytes().to_vec());
}

#[test]
fn one_entry_scenario() {
    let text = "adp_version: \"0.1.0\"\nid: \"agent.one\"\nruntime:\n  execution:\n    - backend: \"python\"\n      id: \"py\"\n";
    let pkg = create_package("agent.one", "0.1.0", &python_entry(), &vec![definition_file(text)]).unwrap();
    let index: serde_json::Value = serde_json::from_slice(&pkg.index).unwrap();
    assert_eq!(index["manifests"].as_array().unwrap().len(), 1);
    assert_eq!(index["manifests"][0]["annotations"]["org.opencontainers.image.title"], "agent.one");
    let mut archive = tar::Archive::new(pkg.layer.data.as_slice());
    let names: Vec<String> = archive
        .entries()
        .unwrap()
        .map(|e| e.unwrap().path().unwrap().to_string_lossy().into_owned())
        .collect();
    assert_eq!(names, vec!["adp/agent.yaml".to_string()]);
    let def: serde_yaml::Value = serde_yaml::from_slice(&definition_from_layer(&pkg.layer.data).unwrap()).unwrap();
    assert_eq!(def["id"].as_str(), Some("agent.one"));
    assert_eq!(def["adp_version"].as_str(), Some("0.1.0"));
}

#[test]
fn every_blob_is_addressed_by_its_content() {
    let pkg = create_package("agent.test", "0.1.0", &python_entry(), &vec![definition_file("x: 1\n")]).unwrap();
    for b in [&pkg.config, &pkg.layer, &pkg.manifest] {
        assert_eq!(b.digest, sha256_bytes(&b.data));
    }
    let manifest: serde_json::Value = serde_json::from_slice(&pkg.manifest.data).unwrap();
    assert_eq!(manifest["config"]["digest"], pkg.config.digest.as_str());
    assert_eq!(manifest["config"]["size"], pkg.config.data.len());
    assert_eq!(manifest["layers"][0]["digest"], pkg.layer.digest.as_str());
    assert_eq!(manifest["layers"][0]["size"], pkg.layer.data.len());
    let index: serde_json::Value = serde_json::from_slice(&pkg.index).unwrap();
    assert_eq!(index["manifests"][0]["digest"], pkg.manifest.digest.as_str());
    assert_eq!(index["manifests"][0]["size"], pkg.manifest.data.len());
}

#[test]
fn empty_execution_builds_nothing() {
    let r = create_package("agent.test", "0.1.0", &vec![], &vec![definition_file("x: 1\n")]);
    assert_eq!(r.unwrap_err(), PackageError::EmptyExecution);
}

#[test]
fn unsupported_version_builds_nothing() {
    let r = create_package("agent.test", "1.0", &python_entry(), &vec![definition_file("x: 1\n")]);
    assert_eq!(r.unwrap_err(), PackageError::UnsupportedVersion("1.0".into()));
}

#[test]
fn missing_source_names_the_path() {
    assert_eq!(definition_path("/work/src"), "/work/src/adp/agent.yaml");
    assert_eq!(definition_path("/work/src/"), "/work/src/adp/agent.yaml");
    let e = PackageError::SourceNotFound(definition_path("/work/src"));
    assert!(e.message().contains("/work/src/adp/agent.yaml"));
}

#[test]
fn empty_layer_names_the_definition_path() {
    let empty = tar::Builder::new(Vec::new()).into_inner().unwrap();
    let e = definition_from_layer(&empty).unwrap_err();
    assert_eq!(e, PackageError::DefinitionNotFound);
    assert!(e.message().contains("adp/agent.yaml"));
}

#[test]
fn unreadable_layer_is_an_io_error() {
    let garbage = vec![b'A'; 1024];
    assert!(matches!(definition_from_layer(&garbage), Err(PackageError::Io(_))));
}

#[test]
fn first_definition_entry_wins() {
    let entries = vec![
        LayerFile { name: "adp/other.yaml".into(), data: vec![0] },
        LayerFile { name: "adp/agent.yaml".into(), data: vec![1] },
        LayerFile { name: "adp/agent.yaml".into(), data: vec![2] },
    ];
    assert_eq!(find_definition(&entries), Some(vec![1]));
    assert_eq!(find_definition(&entries[..1].to_vec()), None);
    assert_eq!(find_definition(&vec![]), None);
}

#[test]
fn index_and_manifest_lookups_fail_on_bad_documents() {
    assert_eq!(manifest_digest(b"not json").unwrap_err(), PackageError::LayoutInvalid);
    assert_eq!(manifest_digest(br#"{"manifests":[]}"#).unwrap_err(), PackageError::LayoutInvalid);
    assert_eq!(
        layer_digest(b"{}", "sha256:00").unwrap_err(),
        PackageError::ManifestNotFound("sha256:00".into())
    );
    assert_eq!(manifest_digest(br#"{"manifests":[{"digest":"sha256:11"}]}"#).unwrap(), "sha256:11");
}

#[test]
fn texts_are_exact() {
    assert_eq!(layout_json(), r#"{"imageLayoutVersion":"1.0.0"}"#);
    assert_eq!(config_json("agent.test", "0.1.0"), r#"{"agent_id":"agent.test","adp_version":"0.1.0"}"#);
    assert_eq!(config_json("a\"b", "0.1.0"), r#"{"agent_id":"a\"b","adp_version":"0.1.0"}"#);
    let m = manifest_json("sha256:c", 10, "sha256:l", 2048);
    let v: serde_json::Value = serde_json::from_str(&m).unwrap();
    assert_eq!(v["config"]["size"], 10);
    assert_eq!(v["layers"][0]["size"], 2048);
    assert_eq!(v["schemaVersion"], 2);
    let expected = serde_json::to_string_pretty(&v).unwrap();
    assert_eq!(m, expected);
    let i = index_json("sha256:m", 0, "agent.x");
    let iv: serde_json::Value = serde_json::from_str(&i).unwrap();
    assert_eq!(iv["manifests"][0]["size"], 0);
    assert_eq!(i, serde_json::to_string_pretty(&iv).unwrap());
}

#[test]
fn error_messages_name_their_subject() {
    assert!(PackageError::LayerNotFound("sha256:9".into()).message().contains("sha256:9"));
    assert!(PackageError::ManifestNotFound("sha256:8".into()).message().contains("sha256:8"));
    assert!(PackageError::Parse("bad".into()).message().contains("bad"));
    assert!(PackageError::Io("disk".into()).message().contains("disk"));
    assert!(PackageError::LayoutInvalid.message().contains("index.json"));
}

#[test]
fn digest_has_fixed_length() {
    assert_eq!(sha256_bytes(b"").len(), 71);
    assert_eq!(sha256_bytes(&vec![7u8; 5000]).len(), 71);
}

#[test]
fn messages_are_exact() {
    assert_eq!(PackageError::DefinitionNotFound.message(), "adp/agent.yaml not found");
    assert_eq!(
        PackageError::SourceNotFound("/s/adp/agent.yaml".into()).message(),
        "definition file not found: /s/adp/agent.yaml"
    );
    assert_eq!(
        PackageError::UnsupportedVersion("1.0.0".into()).message(),
        "adp_version must be 0.1.0 or 0.2.0, got 1.0.0"
    );
    assert_eq!(PackageError::EmptyExecution.message(), "runtime.execution must not be empty");
}

#[test]
fn simple_names_always_build() {
    let files = vec![
        definition_file("a: 1\n"),
        LayerFile { name: "metadata/version.json".into(), data: vec![] },
        LayerFile { name: "src/agent/main.py".into(), data: vec![9; 700] },
    ];
    let pkg = create_package("agent.simple", "0.2.0", &python_entry(), &files);
    assert!(pkg.is_ok());
    assert!(build_layer(&vec![LayerFile { name: "/abs".into(), data: vec![] }]).is_err());
    assert!(build_layer(&vec![LayerFile { name: "".into(), data: vec![] }]).is_err());
}
