//! The layer: which files of a source tree go into it, the archive that holds
//! them, and the lookup of the definition inside such an archive.
use vstd::prelude::*;
use crate::error::PackageError;
use crate::digest::join_path;
use crate::text::{chars_of, chars_equal, push_str, string_of};

verus! {

#[verifier::external_type_specification]
#[verifier::external_body]
pub struct ExIoError(std::io::Error);

/// The path, relative to the layer's root, at which the definition is stored.
pub open spec fn definition_name() -> Seq<char> {
    seq!['a', 'd', 'p', '/', 'a', 'g', 'e', 'n', 't', '.', 'y', 'a', 'm', 'l']
}

/// The path of the definition file in the source tree rooted at `src_root`.
pub fn definition_path(src_root: &str) -> (r: String)
    ensures
        r@ == join_path(src_root@, definition_name()),
{
    let mut out = chars_of(src_root);
    let n = out.len();
    if n == 0 || out[n - 1] != '/' {
        out.push('/');
    }
    push_str(&mut out, "adp/agent.yaml");
    proof {
        reveal_strlit("adp/agent.yaml");
        assert("adp/agent.yaml"@ =~= definition_name());
    }
    string_of(&out)
}

/// The part of `path` below the directory `root`, if `path` lies strictly inside it:
/// `path` starts with `root` followed by a `/` (or `root` already ends with one),
/// and something follows.
pub open spec fn relative_name(path: Seq<char>, root: Seq<char>) -> Option<Seq<char>> {
    let n = root.len() as int;
    if n > 0 && root.last() == '/' {
        if path.len() > n && path.take(n) == root {
            Some(path.skip(n))
        } else {
            None
        }
    } else {
        if path.len() > n + 1 && path.take(n) == root && path[n] == '/' {
            Some(path.skip(n + 1))
        } else {
            None
        }
    }
}

/// Whether `path` is the directory `root` itself or lies inside it.
pub open spec fn within(path: Seq<char>, root: Seq<char>) -> bool {
    path == root || relative_name(path, root) is Some
}

/// Whether `path` starts with `prefix`.
fn has_prefix(path: &Vec<char>, prefix: &Vec<char>) -> (r: bool)
    ensures
        r == (path@.len() >= prefix@.len() && path@.take(prefix@.len() as int) == prefix@),
{
    if path.len() < prefix.len() {
        return false;
    }
    let mut i: usize = 0;
    while i < prefix.len()
        invariant
            path@.len() >= prefix@.len(),
            i <= prefix@.len(),
            forall|k: int| 0 <= k < i ==> path@[k] == prefix@[k],
        decreases prefix@.len() - i,
    {
        if path[i] != prefix[i] {
            assert(path@.take(prefix@.len() as int)[i as int] != prefix@[i as int]);
            return false;
        }
        i = i + 1;
    }
    assert(path@.take(prefix@.len() as int) =~= prefix@);
    true
}

/// The characters of `s` from `start` on.
fn suffix_from(s: &Vec<char>, start: usize) -> (r: Vec<char>)
    requires
        start <= s@.len(),
    ensures
        r@ == s@.skip(start as int),
{
    let mut out: Vec<char> = Vec::new();
    let mut i: usize = start;
    while i < s.len()
        invariant
            start <= i <= s@.len(),
            out@ == s@.subrange(start as int, i as int),
        decreases s@.len() - i,
    {
        out.push(s[i]);
        i = i + 1;
        assert(out@ =~= s@.subrange(start as int, i as int));
    }
    assert(out@ =~= s@.skip(start as int));
    out
}

fn relative_chars(path: &Vec<char>, root: &Vec<char>) -> (r: Option<Vec<char>>)
    ensures
        r matches Some(v) ==> relative_name(path@, root@) == Some(v@),
        r is None ==> relative_name(path@, root@) is None,
{
    let n = root.len();
    if !has_prefix(path, root) {
        return None;
    }
    if n > 0 && root[n - 1] == '/' {
        if path.len() > n {
            Some(suffix_from(path, n))
        } else {
            None
        }
    } else {
        if path.len() - n > 1 && path[n] == '/' {
            Some(suffix_from(path, n + 1))
        } else {
            None
        }
    }
}

/// Whether the absolute path `path` is the directory `root` or lies inside it.
pub fn is_within(path: &str, root: &str) -> (r: bool)
    ensures
        r == within(path@, root@),
{
    let p = chars_of(path);
    let d = chars_of(root);
    if chars_equal(&p, &d) {
        return true;
    }
    relative_chars(&p, &d).is_some()
}

/// The part of `path` below the directory `root`, if `path` lies strictly inside it.
pub fn relative_path(path: &str, root: &str) -> (r: Option<String>)
    ensures
        r matches Some(s) ==> relative_name(path@, root@) == Some(s@),
        r is None ==> relative_name(path@, root@) is None,
{
    match relative_chars(&chars_of(path), &chars_of(root)) {
        Some(v) => Some(string_of(&v)),
        None => None,
    }
}

/// One item met while walking a source tree: its absolute path, and whether it is
/// a regular file.
#[derive(Debug, Clone)]
pub struct WalkEntry {
    pub path: String,
    pub is_file: bool,
}

/// A file that goes into the layer: where it is read from, and its name in the layer.
#[derive(Debug, Clone)]
pub struct LayerSource {
    pub source: String,
    pub name: String,
}

/// Whether a walked item goes into the layer: a regular file that lies strictly
/// inside the source root and not inside the output root.
pub open spec fn selected(src: Seq<char>, out: Seq<char>, e: WalkEntry) -> bool {
    e.is_file && !within(e.path@, out) && relative_name(e.path@, src) is Some
}

/// The files of a walk that go into the layer, in walk order, each as its source
/// path and its name relative to the source root.
pub open spec fn layer_sources_of(src: Seq<char>, out: Seq<char>, walk: Seq<WalkEntry>) -> Seq<
    (Seq<char>, Seq<char>),
>
    decreases walk.len(),
{
    if walk.len() == 0 {
        Seq::empty()
    } else {
        let rest = layer_sources_of(src, out, walk.drop_last());
        let e = walk.last();
        if selected(src, out, e) {
            rest.push((e.path@, relative_name(e.path@, src)->0))
        } else {
            rest
        }
    }
}

/// The view of a list of layer sources as pairs of source path and name.
pub open spec fn sources_view(s: Seq<LayerSource>) -> Seq<(Seq<char>, Seq<char>)> {
    s.map_values(|x: LayerSource| (x.source@, x.name@))
}

/// Chooses, from the items of a walk of `src_root`, the files that go into the
/// layer: regular files inside `src_root` and not inside `out_root`, named by
/// their path relative to `src_root`, in walk order.
pub fn layer_sources(src_root: &str, out_root: &str, walk: &Vec<WalkEntry>) -> (r: Vec<LayerSource>)
    ensures
        sources_view(r@) == layer_sources_of(src_root@, out_root@, walk@),
{
    let src = chars_of(src_root);
    let out = chars_of(out_root);
    let mut r: Vec<LayerSource> = Vec::new();
    let mut i: usize = 0;
    while i < walk.len()
        invariant
            i <= walk@.len(),
            src@ == src_root@,
            out@ == out_root@,
            sources_view(r@) == layer_sources_of(src_root@, out_root@, walk@.take(i as int)),
        decreases walk@.len() - i,
    {
        let e = &walk[i];
        let p = chars_of(e.path.as_str());
        proof {
            assert(walk@.take(i + 1).drop_last() =~= walk@.take(i as int));
            assert(walk@.take(i + 1).last() == walk@[i as int]);
        }
        if e.is_file {
            let inside_out = chars_equal(&p, &out) || relative_chars(&p, &out).is_some();
            if !inside_out {
                match relative_chars(&p, &src) {
                    Some(name) => {
                        r.push(LayerSource { source: e.path.clone(), name: string_of(&name) });
                        proof {
                            assert(sources_view(r@) =~= layer_sources_of(
                                src_root@,
                                out_root@,
                                walk@.take(i as int),
                            ).push((e.path@, name@)));
                        }
                    },
                    None => {},
                }
            }
        }
        i = i + 1;
    }
    assert(walk@.take(walk@.len() as int) =~= walk@);
    r
}

/// A path whose name below the source root lies within the output root's name
/// there lies within the output root.
proof fn lemma_within_lifts(src: Seq<char>, out: Seq<char>, path: Seq<char>)
    requires
        relative_name(out, src) is Some,
        relative_name(path, src) is Some,
        within(relative_name(path, src)->0, relative_name(out, src)->0),
    ensures
        within(path, out),
{
    let n = src.len() as int;
    let l = if n > 0 && src.last() == '/' {
        n
    } else {
        n + 1
    };
    let o = relative_name(out, src)->0;
    let p = relative_name(path, src)->0;
    assert forall|k: int| 0 <= k < l implies out[k] == path[k] by {
        if k < n {
            assert(out.take(n)[k] == path.take(n)[k]);
        }
    }
    assert(out.take(l) =~= path.take(l));
    assert(out =~= out.take(l) + o);
    assert(path =~= path.take(l) + p);
    if p == o {
        assert(path =~= out);
    } else {
        let m = o.len() as int;
        assert(o.len() > 0);
        assert(out.last() == o.last());
        assert(p.take(m) == o);
        assert forall|k: int| 0 <= k < out.len() implies path[k] == out[k] by {
            if k >= l {
                assert(p.take(m)[k - l] == o[k - l]);
            }
        }
        assert(path.take(out.len() as int) =~= out);
        if !(m > 0 && o.last() == '/') {
            assert(path[out.len() as int] == p[m]);
        }
    }
}

/// When the output root lies strictly inside the source root, no file of the
/// layer has a name that lies within the output root's path relative to the
/// source root: the package never holds itself.
pub proof fn lemma_output_not_packaged(src: Seq<char>, out: Seq<char>, walk: Seq<WalkEntry>)
    requires
        relative_name(out, src) is Some,
    ensures
        forall|k: int|
            0 <= k < layer_sources_of(src, out, walk).len() ==> !within(
                #[trigger] layer_sources_of(src, out, walk)[k].1,
                relative_name(out, src)->0,
            ),
    decreases walk.len(),
{
    if walk.len() > 0 {
        lemma_output_not_packaged(src, out, walk.drop_last());
        let e = walk.last();
        let rest = layer_sources_of(src, out, walk.drop_last());
        if selected(src, out, e) {
            if within(relative_name(e.path@, src)->0, relative_name(out, src)->0) {
                lemma_within_lifts(src, out, e.path@);
            }
            let all = layer_sources_of(src, out, walk);
            assert forall|k: int| 0 <= k < all.len() implies !within(
                #[trigger] all[k].1,
                relative_name(out, src)->0,
            ) by {
                if k < rest.len() {
                    assert(all[k] == rest[k]);
                }
            }
        }
    }
}

/// The definition file of a source tree lies strictly inside its root, under
/// the definition's fixed name.
proof fn lemma_definition_relative(src: Seq<char>)
    ensures
        relative_name(join_path(src, definition_name()), src) == Some(definition_name()),
{
    let p = join_path(src, definition_name());
    let n = src.len() as int;
    if n > 0 && src.last() == '/' {
        assert(p.take(n) =~= src);
        assert(p.skip(n) =~= definition_name());
    } else {
        assert(p.take(n) =~= src);
        assert(p[n] == '/');
        assert(p.skip(n + 1) =~= definition_name());
    }
}

/// When the walk of the source root meets the definition file as a regular file
/// outside the output root, the layer holds it, read from that path and named by
/// the definition's fixed path.
pub proof fn lemma_definition_packaged(src: Seq<char>, out: Seq<char>, walk: Seq<WalkEntry>, i: int)
    requires
        0 <= i < walk.len(),
        walk[i].is_file,
        walk[i].path@ == join_path(src, definition_name()),
        !within(walk[i].path@, out),
    ensures
        exists|k: int|
            0 <= k < layer_sources_of(src, out, walk).len() && #[trigger] layer_sources_of(
                src,
                out,
                walk,
            )[k] == (walk[i].path@, definition_name()),
    decreases walk.len(),
{
    lemma_definition_relative(src);
    let all = layer_sources_of(src, out, walk);
    let rest = layer_sources_of(src, out, walk.drop_last());
    if i == walk.len() - 1 {
        assert(all[rest.len() as int] == (walk[i].path@, definition_name()));
    } else {
        assert(walk.drop_last()[i] == walk[i]);
        lemma_definition_packaged(src, out, walk.drop_last(), i);
        let k = choose|k: int| 0 <= k < rest.len() && #[trigger] rest[k] == (walk[i].path@, definition_name());
        assert(all[k] == rest[k]);
    }
}

/// A file as stored in the layer: its name there and its content.
#[derive(Debug, Clone)]
pub struct LayerFile {
    pub name: String,
    pub data: Vec<u8>,
}

/// The view of a list of layer files as pairs of name and content.
pub open spec fn files_view(f: Seq<LayerFile>) -> Seq<(Seq<char>, Seq<u8>)> {
    f.map_values(|x: LayerFile| (x.name@, x.data@))
}

/// The permission bits that every file of a layer carries.
pub const FILE_MODE: u32 = 0o644;

/// The tar archive that holds the given files, in order, each with permission
/// bits `mode` and no timestamp or owner.
pub uninterp spec fn tar_of(files: Seq<(Seq<char>, Seq<u8>)>, mode: u32) -> Seq<u8>;

/// Whether a tar builder accepts every name of the given files.
pub uninterp spec fn tar_accepts(files: Seq<(Seq<char>, Seq<u8>)>) -> bool;

/// A name that a tar header holds as it is: under 100 characters, all ASCII and
/// none NUL, `\` or `:`; made of non-empty components between single `/`s, none
/// of which starts with `.`.
pub open spec fn simple_layer_name(n: Seq<char>) -> bool {
    &&& 0 < n.len() < 100
    &&& n[0] != '/'
    &&& n.last() != '/'
    &&& forall|i: int|
        #![trigger n[i]]
        0 <= i < n.len() ==> (n[i] as u32) < 128 && n[i] != '\0' && n[i] != '\\' && n[i] != ':'
    &&& forall|i: int| #![trigger n[i]] 0 < i < n.len() && n[i] == '/' ==> n[i - 1] != '/'
    &&& forall|i: int| #![trigger n[i]] 0 <= i < n.len() && n[i] == '.' ==> i > 0 && n[i - 1] != '/'
}

/// Whether every file of a list has a simple layer name.
pub open spec fn all_simple_names(files: Seq<(Seq<char>, Seq<u8>)>) -> bool {
    forall|i: int| 0 <= i < files.len() ==> simple_layer_name(#[trigger] files[i].0)
}

/// The entries of a tar archive, in order, each as its path and its content.
pub uninterp spec fn tar_entries_of(archive: Seq<u8>) -> Seq<(Seq<char>, Seq<u8>)>;

/// Whether a tar reader reads every entry of an archive, its path and its content,
/// without error.
pub uninterp spec fn tar_readable(archive: Seq<u8>) -> bool;

/// Relies on `tar::Builder::append_data` and `tar::Builder::into_inner` over an
/// in-memory buffer: the archive of the given files, or the builder's error.
/// Writing to a `Vec` cannot fail, so only a name that the header refuses fails;
/// a simple name fits the header's 100-byte name field as it is.
#[verifier::external_body]
fn pack_tar(files: &Vec<LayerFile>, mode: u32) -> (r: Result<Vec<u8>, std::io::Error>)
    ensures
        r matches Ok(b) ==> b@ == tar_of(files_view(files@), mode),
        r is Ok <==> tar_accepts(files_view(files@)),
        all_simple_names(files_view(files@)) ==> r is Ok,
{
    let mut builder = tar::Builder::new(Vec::new());
    for f in files.iter() {
        let mut header = tar::Header::new_gnu();
        header.set_size(f.data.len() as u64);
        header.set_mode(mode);
        builder.append_data(&mut header, f.name.as_str(), f.data.as_slice())?;
    }
    builder.into_inner()
}

/// Relies on `tar::Archive::entries` and `tar::Entry::path` over an in-memory
/// archive: every entry's path and content, in order, or the reader's error.
#[verifier::external_body]
fn unpack_tar(archive: &[u8]) -> (r: Result<Vec<LayerFile>, std::io::Error>)
    ensures
        r matches Ok(v) ==> files_view(v@) == tar_entries_of(archive@),
        r is Ok <==> tar_readable(archive@),
{
    let mut reader = tar::Archive::new(archive);
    let mut out = Vec::new();
    for entry in reader.entries()? {
        let mut e = entry?;
        let name = e.path()?.to_string_lossy().into_owned();
        let mut data = Vec::new();
        std::io::Read::read_to_end(&mut e, &mut data)?;
        out.push(LayerFile { name, data });
    }
    Ok(out)
}

/// Relies on `std::io::Error`'s `Display`: the error's message.
#[verifier::external_body]
pub(crate) fn io_error_text(e: &std::io::Error) -> (r: String) {
    e.to_string()
}

/// Builds the layer archive of the given files, in the given order, each with
/// permission bits `FILE_MODE`.
pub fn build_layer(files: &Vec<LayerFile>) -> (r: Result<Vec<u8>, PackageError>)
    ensures
        r matches Ok(b) ==> b@ == tar_of(files_view(files@), FILE_MODE),
        r is Ok <==> tar_accepts(files_view(files@)),
        all_simple_names(files_view(files@)) ==> r is Ok,
        r matches Err(e) ==> e is Io,
{
    match pack_tar(files, FILE_MODE) {
        Ok(b) => Ok(b),
        Err(e) => Err(PackageError::Io(io_error_text(&e))),
    }
}

/// The content of the first entry named by the definition's fixed path, if any.
pub open spec fn definition_in(entries: Seq<(Seq<char>, Seq<u8>)>) -> Option<Seq<u8>>
    decreases entries.len(),
{
    if entries.len() == 0 {
        None
    } else if entries[0].0 == definition_name() {
        Some(entries[0].1)
    } else {
        definition_in(entries.drop_first())
    }
}

/// The content of the first of `entries` stored at the definition's fixed path.
pub fn find_definition(entries: &Vec<LayerFile>) -> (r: Option<Vec<u8>>)
    ensures
        r matches Some(d) ==> definition_in(files_view(entries@)) == Some(d@),
        r is None ==> definition_in(files_view(entries@)) is None,
{
    let wanted = chars_of("adp/agent.yaml");
    proof {
        reveal_strlit("adp/agent.yaml");
        assert(wanted@ =~= definition_name());
    }
    let ghost all = files_view(entries@);
    assert(all.skip(0) =~= all);
    let mut i: usize = 0;
    while i < entries.len()
        invariant
            i <= entries@.len(),
            all == files_view(entries@),
            wanted@ == definition_name(),
            definition_in(all) == definition_in(all.skip(i as int)),
        decreases entries@.len() - i,
    {
        let name = chars_of(entries[i].name.as_str());
        proof {
            assert(all.skip(i as int).drop_first() =~= all.skip(i + 1));
            assert(all.skip(i as int)[0] == all[i as int]);
        }
        if chars_equal(&name, &wanted) {
            let d = entries[i].data.clone();
            assert(d@ =~= entries@[i as int].data@);
            return Some(d);
        }
        i = i + 1;
    }
    assert(all.skip(i as int) =~= Seq::<(Seq<char>, Seq<u8>)>::empty());
    None
}

/// Recovers the definition's bytes from a layer archive: the content of its
/// first entry at the fixed path `adp/agent.yaml`. Fails with `DefinitionNotFound`
/// when the archive has no such entry, and with `Io` when it cannot be read.
pub fn definition_from_layer(layer: &[u8]) -> (r: Result<Vec<u8>, PackageError>)
    ensures
        r matches Ok(d) ==> definition_in(tar_entries_of(layer@)) == Some(d@),
        r matches Err(PackageError::DefinitionNotFound) ==> definition_in(
            tar_entries_of(layer@),
        ) is None,
        r matches Err(e) ==> e is DefinitionNotFound || e is Io,
        r matches Err(PackageError::Io(_)) <==> !tar_readable(layer@),
        tar_readable(layer@) ==> (r is Ok <==> definition_in(tar_entries_of(layer@)) is Some),
        tar_readable(layer@) && definition_in(tar_entries_of(layer@)) is None ==> r matches Err(
            PackageError::DefinitionNotFound,
        ),
{
    match unpack_tar(layer) {
        Err(e) => Err(PackageError::Io(io_error_text(&e))),
        Ok(entries) => match find_definition(&entries) {
            Some(d) => Ok(d),
            None => Err(PackageError::DefinitionNotFound),
        },
    }
}

} // verus!
