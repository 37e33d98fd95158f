//! A package in memory: its blobs, its index and its layout marker, built from a
//! definition and the files of its layer; and the lookups that lead from an
//! index to the layer when a package is opened.
//!
//! Opening does not compare a blob's content with its digest: a layer that was
//! replaced is reported by what it lacks, the definition at its fixed path.
use vstd::prelude::*;
use vstd::utf8::encode_utf8;
use crate::digest::{
    blob_path_of, blobs_dir, digest_of, hex_text, join_path, lemma_blob_path_of_digest,
    sha256_bytes, sha256_of,
};
use crate::error::PackageError;
use crate::layer::{
    all_simple_names, build_layer, files_view, tar_accepts, tar_of, LayerFile, FILE_MODE,
};
use crate::text::{decimal, push_decimal, push_str, string_of};
use crate::validation::{supported_version, validate_adp, RuntimeEntry};

verus! {

/// A string as a JSON string literal, quotes and escapes included.
pub uninterp spec fn json_quoted(s: Seq<char>) -> Seq<char>;

/// Whether a string stands in a JSON string literal as it is: it holds no `"`,
/// no backslash and no control character below U+0020.
pub open spec fn json_plain(s: Seq<char>) -> bool {
    forall|i: int|
        #![trigger s[i]]
        0 <= i < s.len() ==> s[i] != '"' && s[i] != '\\' && (s[i] as u32) >= 0x20
}

/// Relies on `serde_json::Value`'s `Display` for a `Value::String`: the string as
/// a JSON string literal. Only `"`, backslash and control characters are escaped.
#[verifier::external_body]
fn json_string(s: &str) -> (r: String)
    ensures
        r@ == json_quoted(s@),
        json_plain(s@) ==> r@ == seq!['"'] + s@ + seq!['"'],
{
    serde_json::Value::String(s.to_owned()).to_string()
}

/// The string found in the JSON document `doc` at the JSON pointer `pointer`, if
/// `doc` parses and holds a string there.
pub uninterp spec fn json_str_at(doc: Seq<u8>, pointer: Seq<char>) -> Option<Seq<char>>;

/// Relies on `serde_json::from_slice`, `serde_json::Value::pointer` and
/// `serde_json::Value::as_str`: the string at `pointer` in the parsed document.
#[verifier::external_body]
fn json_lookup_str(doc: &[u8], pointer: &str) -> (r: Option<String>)
    ensures
        r matches Some(s) ==> json_str_at(doc@, pointer@) == Some(s@),
        r is None ==> json_str_at(doc@, pointer@) is None,
{
    let v: serde_json::Value = serde_json::from_slice(doc).ok()?;
    v.pointer(pointer)?.as_str().map(|s| s.to_owned())
}

/// The content of the layout marker file.
pub open spec fn layout_text() -> Seq<char> {
    "{\"imageLayoutVersion\":\"1.0.0\"}"@
}

/// The config blob's text: the package identifier and the definition's version.
pub open spec fn config_text(id: Seq<char>, version: Seq<char>) -> Seq<char> {
    "{\"agent_id\":"@ + json_quoted(id) + ",\"adp_version\":"@ + json_quoted(version) + "}"@
}

/// The manifest's text: the config blob and the single layer blob, each with its
/// media type, digest and size.
pub open spec fn manifest_text(
    config_digest: Seq<char>,
    config_size: nat,
    layer_digest: Seq<char>,
    layer_size: nat,
) -> Seq<char> {
    "{\n  \"config\": {\n    \"digest\": \""@ + config_digest
        + "\",\n    \"mediaType\": \"application/vnd.adp.config.v1+json\",\n    \"size\": "@
        + decimal(config_size) + "\n  },\n  \"layers\": [\n    {\n      \"digest\": \""@
        + layer_digest
        + "\",\n      \"mediaType\": \"application/vnd.adp.package.v1+tar\",\n      \"size\": "@
        + decimal(layer_size)
        + "\n    }\n  ],\n  \"mediaType\": \"application/vnd.oci.image.manifest.v1+json\",\n  \"schemaVersion\": 2\n}"@
}

/// The index's text: the single manifest, with its media type, digest and size,
/// titled with the package identifier.
pub open spec fn index_text(manifest_digest: Seq<char>, manifest_size: nat, id: Seq<char>) -> Seq<
    char,
> {
    "{\n  \"manifests\": [\n    {\n      \"annotations\": {\n        \"org.opencontainers.image.title\": "@
        + json_quoted(id) + "\n      },\n      \"digest\": \""@ + manifest_digest
        + "\",\n      \"mediaType\": \"application/vnd.oci.image.manifest.v1+json\",\n      \"size\": "@
        + decimal(manifest_size) + "\n    }\n  ],\n  \"schemaVersion\": 2\n}"@
}

/// Builds the layout marker's text.
pub fn layout_json() -> (r: String)
    ensures
        r@ == layout_text(),
{
    let mut out: Vec<char> = Vec::new();
    push_str(&mut out, "{\"imageLayoutVersion\":\"1.0.0\"}");
    assert(out@ =~= layout_text());
    string_of(&out)
}

/// Builds the config blob's text.
pub fn config_json(id: &str, version: &str) -> (r: String)
    ensures
        r@ == config_text(id@, version@),
        json_plain(id@) && json_plain(version@) ==> r@ == "{\"agent_id\":\""@ + id@
            + "\",\"adp_version\":\""@ + version@ + "\"}"@,
{
    let mut out: Vec<char> = Vec::new();
    push_str(&mut out, "{\"agent_id\":");
    push_str(&mut out, json_string(id).as_str());
    push_str(&mut out, ",\"adp_version\":");
    push_str(&mut out, json_string(version).as_str());
    push_str(&mut out, "}");
    assert(out@ =~= config_text(id@, version@));
    proof {
        if json_plain(id@) && json_plain(version@) {
            reveal_strlit("{\"agent_id\":");
            reveal_strlit(",\"adp_version\":");
            reveal_strlit("}");
            reveal_strlit("{\"agent_id\":\"");
            reveal_strlit("\",\"adp_version\":\"");
            reveal_strlit("\"}");
            assert(out@ =~= "{\"agent_id\":\""@ + id@ + "\",\"adp_version\":\""@ + version@
                + "\"}"@);
        }
    }
    string_of(&out)
}

/// Builds the manifest's text.
pub fn manifest_json(config_digest: &str, config_size: usize, layer_digest: &str, layer_size: usize) -> (r:
    String)
    ensures
        r@ == manifest_text(config_digest@, config_size as nat, layer_digest@, layer_size as nat),
{
    let mut out: Vec<char> = Vec::new();
    push_str(&mut out, "{\n  \"config\": {\n    \"digest\": \"");
    push_str(&mut out, config_digest);
    push_str(
        &mut out,
        "\",\n    \"mediaType\": \"application/vnd.adp.config.v1+json\",\n    \"size\": ",
    );
    push_decimal(&mut out, config_size);
    push_str(&mut out, "\n  },\n  \"layers\": [\n    {\n      \"digest\": \"");
    push_str(&mut out, layer_digest);
    push_str(
        &mut out,
        "\",\n      \"mediaType\": \"application/vnd.adp.package.v1+tar\",\n      \"size\": ",
    );
    push_decimal(&mut out, layer_size);
    push_str(
        &mut out,
        "\n    }\n  ],\n  \"mediaType\": \"application/vnd.oci.image.manifest.v1+json\",\n  \"schemaVersion\": 2\n}",
    );
    assert(out@ =~= manifest_text(
        config_digest@,
        config_size as nat,
        layer_digest@,
        layer_size as nat,
    ));
    string_of(&out)
}

/// Builds the index's text.
pub fn index_json(manifest_digest: &str, manifest_size: usize, id: &str) -> (r: String)
    ensures
        r@ == index_text(manifest_digest@, manifest_size as nat, id@),
{
    let mut out: Vec<char> = Vec::new();
    push_str(
        &mut out,
        "{\n  \"manifests\": [\n    {\n      \"annotations\": {\n        \"org.opencontainers.image.title\": ",
    );
    push_str(&mut out, json_string(id).as_str());
    push_str(&mut out, "\n      },\n      \"digest\": \"");
    push_str(&mut out, manifest_digest);
    push_str(
        &mut out,
        "\",\n      \"mediaType\": \"application/vnd.oci.image.manifest.v1+json\",\n      \"size\": ",
    );
    push_decimal(&mut out, manifest_size);
    push_str(&mut out, "\n    }\n  ],\n  \"schemaVersion\": 2\n}");
    assert(out@ =~= index_text(manifest_digest@, manifest_size as nat, id@));
    string_of(&out)
}

/// A blob: its content, and the digest under which it is stored.
#[derive(Debug, Clone)]
pub struct Blob {
    pub digest: String,
    pub data: Vec<u8>,
}

impl Blob {
    /// Whether the blob's digest is the digest of its content.
    pub open spec fn addressed(&self) -> bool {
        self.digest@ == digest_of(self.data@)
    }

    /// The blob that holds `data`, under the digest of `data`.
    pub fn of(data: Vec<u8>) -> (r: Blob)
        ensures
            r.data@ == data@,
            r.addressed(),
    {
        let digest = sha256_bytes(data.as_slice());
        Blob { digest, data }
    }
}

/// The files of a package directory, held in memory: the config, layer and
/// manifest blobs, the index and the layout marker.
#[derive(Debug, Clone)]
pub struct Package {
    pub config: Blob,
    pub layer: Blob,
    pub manifest: Blob,
    pub index: Vec<u8>,
    pub layout: Vec<u8>,
}

/// Whether `p` is the package of the definition `id`, `version`, whose layer
/// holds `files`: every blob is stored under the digest of its content, the
/// manifest names the config and layer blobs by digest and size, and the index
/// names the manifest by digest and size.
pub open spec fn is_package_of(
    p: Package,
    id: Seq<char>,
    version: Seq<char>,
    files: Seq<(Seq<char>, Seq<u8>)>,
) -> bool {
    &&& p.config.addressed()
    &&& p.layer.addressed()
    &&& p.manifest.addressed()
    &&& p.config.data@ == encode_utf8(config_text(id, version))
    &&& p.layer.data@ == tar_of(files, FILE_MODE)
    &&& p.manifest.data@ == encode_utf8(
        manifest_text(
            p.config.digest@,
            p.config.data@.len(),
            p.layer.digest@,
            p.layer.data@.len(),
        ),
    )
    &&& p.index@ == encode_utf8(index_text(p.manifest.digest@, p.manifest.data@.len(), id))
    &&& p.layout@ == encode_utf8(layout_text())
}

fn text_bytes(s: &String) -> (r: Vec<u8>)
    ensures
        r@ == encode_utf8(s@),
{
    vstd::slice::slice_to_vec(s.as_str().as_bytes())
}

/// Builds the package of a definition: its identifier `id`, its declared version
/// `adp_version`, its execution entries, and the files of its layer. The
/// definition is validated first, and nothing is built when it fails; the archive
/// of the layer may then still fail to build.
pub fn create_package(
    id: &str,
    adp_version: &str,
    execution: &Vec<RuntimeEntry>,
    files: &Vec<LayerFile>,
) -> (r: Result<Package, PackageError>)
    ensures
        !supported_version(adp_version@) ==> (r matches Err(PackageError::UnsupportedVersion(v))
            && v@ == adp_version@),
        supported_version(adp_version@) && execution@.len() == 0 ==> r matches Err(
            PackageError::EmptyExecution,
        ),
        supported_version(adp_version@) && execution@.len() > 0 ==> (r is Ok || r matches Err(
            PackageError::Io(_),
        )),
        supported_version(adp_version@) && execution@.len() > 0 ==> (r is Ok <==> tar_accepts(
            files_view(files@),
        )),
        supported_version(adp_version@) && execution@.len() > 0 && all_simple_names(
            files_view(files@),
        ) ==> r is Ok,
        r matches Ok(p) ==> is_package_of(p, id@, adp_version@, files_view(files@)),
{
    match validate_adp(adp_version, execution) {
        Err(e) => {
            return Err(e);
        },
        Ok(()) => {},
    }
    let config = Blob::of(text_bytes(&config_json(id, adp_version)));
    let layer = match build_layer(files) {
        Ok(b) => Blob::of(b),
        Err(e) => {
            return Err(e);
        },
    };
    let manifest_text = manifest_json(
        config.digest.as_str(),
        config.data.len(),
        layer.digest.as_str(),
        layer.data.len(),
    );
    let manifest = Blob::of(text_bytes(&manifest_text));
    let index = text_bytes(&index_json(manifest.digest.as_str(), manifest.data.len(), id));
    let layout = text_bytes(&layout_json());
    Ok(Package { config, layer, manifest, index, layout })
}

/// Where the blob `b` is stored under `root` when its digest is that of its content:
/// `<root>/blobs/sha256/<hex>`, `<hex>` being the hexadecimal hash of the content.
pub open spec fn stored_at(root: Seq<char>, b: Blob) -> bool {
    blob_path_of(root, b.digest@) == Some(
        join_path(
            join_path(join_path(root, blobs_dir()), seq!['s', 'h', 'a', '2', '5', '6']),
            hex_text(sha256_of(b.data@)),
        ),
    )
}

/// In a package built by `create_package`, each blob is found, under any package
/// root, at the path named by the hash of its own content, and that is the digest
/// by which the manifest (config and layer) or the index (manifest) refers to it.
pub proof fn lemma_package_blobs_addressed(
    p: Package,
    id: Seq<char>,
    version: Seq<char>,
    files: Seq<(Seq<char>, Seq<u8>)>,
    root: Seq<char>,
)
    requires
        is_package_of(p, id, version, files),
    ensures
        stored_at(root, p.config),
        stored_at(root, p.layer),
        stored_at(root, p.manifest),
{
    lemma_blob_path_of_digest(root, p.config.data@);
    lemma_blob_path_of_digest(root, p.layer.data@);
    lemma_blob_path_of_digest(root, p.manifest.data@);
}

/// Where the index holds the manifest's digest.
pub open spec fn manifest_pointer() -> Seq<char> {
    "/manifests/0/digest"@
}

/// Where a manifest holds the layer's digest.
pub open spec fn layer_pointer() -> Seq<char> {
    "/layers/0/digest"@
}

/// The digest of the first manifest that the index `index` lists; `LayoutInvalid`
/// when the index is not JSON or lists no manifest digest.
pub fn manifest_digest(index: &[u8]) -> (r: Result<String, PackageError>)
    ensures
        r matches Ok(d) ==> json_str_at(index@, manifest_pointer()) == Some(d@),
        r is Err ==> json_str_at(index@, manifest_pointer()) is None && r matches Err(
            PackageError::LayoutInvalid,
        ),
{
    match json_lookup_str(index, "/manifests/0/digest") {
        Some(d) => Ok(d),
        None => Err(PackageError::LayoutInvalid),
    }
}

/// The digest of the first layer that the manifest `manifest`, stored under
/// `digest`, lists; `ManifestNotFound` with that digest when the manifest is not
/// JSON or lists no layer digest.
pub fn layer_digest(manifest: &[u8], digest: &str) -> (r: Result<String, PackageError>)
    ensures
        r matches Ok(d) ==> json_str_at(manifest@, layer_pointer()) == Some(d@),
        r is Err ==> json_str_at(manifest@, layer_pointer()) is None && (r matches Err(
            PackageError::ManifestNotFound(m),
        ) && m@ == digest@),
{
    match json_lookup_str(manifest, "/layers/0/digest") {
        Some(d) => Ok(d),
        None => Err(PackageError::ManifestNotFound(digest.to_owned())),
    }
}

} // verus!
