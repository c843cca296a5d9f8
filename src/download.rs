//! Planning an image download: which blob goes to which file.

use vstd::prelude::*;

use crate::challenge::{lookup, lookup_spec, pairs_view};
use crate::digest::{
    is_algorithm_char, is_encoded_char, sha256_name, sha512_name, Digest,
};
use crate::text::{chars_of, push_char};

verus! {

/// An entry of a manifest: the blob's digest, media type and size.
#[derive(Debug, Clone, PartialEq, Eq)]
pub struct Descriptor {
    pub media_type: String,
    pub digest: Digest,
    pub size: i64,
}

/// Media types and the file extensions their blobs are stored under.
#[derive(Debug, Clone)]
pub struct MediaTypeTable {
    pub entries: Vec<(String, String)>,
}

impl View for MediaTypeTable {
    type V = Seq<(Seq<char>, Seq<char>)>;

    open spec fn view(&self) -> Seq<(Seq<char>, Seq<char>)> {
        pairs_view(self.entries@)
    }
}

/// The extension for a media type; `unknown` for one the table lacks.
pub open spec fn extension_spec(table: Seq<(Seq<char>, Seq<char>)>, media_type: Seq<char>) -> Seq<char> {
    match lookup_spec(table, media_type) {
        Some(e) => e,
        None => seq!['u', 'n', 'k', 'n', 'o', 'w', 'n'],
    }
}

/// A digest's text with `:` replaced by `-`, fit for a file name.
pub open spec fn file_safe(s: Seq<char>) -> Seq<char> {
    s.map_values(|c: char| if c == ':' { '-' } else { c })
}

/// Where a layer is stored: `<algorithm>-<hex>.<extension>`.
pub open spec fn layer_file_spec(table: Seq<(Seq<char>, Seq<char>)>, d: Descriptor) -> Seq<char> {
    file_safe(d.digest.text()) + seq!['.'] + extension_spec(table, d.media_type@)
}

pub open spec fn config_file() -> Seq<char> {
    seq!['c', 'o', 'n', 'f', 'i', 'g', '.', 'j', 's', 'o', 'n']
}

impl MediaTypeTable {
    /// The layer media types of the OCI and Docker image formats.
    pub fn standard() -> (r: MediaTypeTable)
        ensures
            r@ == seq![
                ("application/vnd.oci.image.layer.v1.tar"@, "tar"@),
                ("application/vnd.oci.image.layer.v1.tar+gzip"@, "tar.gz"@),
                ("application/vnd.docker.image.rootfs.diff.tar.gzip"@, "tar.gz"@),
                ("application/vnd.oci.image.layer.v1.tar+zstd"@, "tar.zst"@),
                ("application/vnd.oci.image.layer.nondistributable.v1.tar"@, "tar"@),
                ("application/vnd.oci.image.layer.nondistributable.v1.tar+gzip"@, "tar.gz"@),
                ("application/vnd.oci.image.layer.nondistributable.v1.tar+zstd"@, "tar.zst"@),
            ],
    {
        let mut entries: Vec<(String, String)> = Vec::new();
        entries.push((String::from_str("application/vnd.oci.image.layer.v1.tar"), String::from_str("tar")));
        entries.push((String::from_str("application/vnd.oci.image.layer.v1.tar+gzip"), String::from_str("tar.gz")));
        entries.push((String::from_str("application/vnd.docker.image.rootfs.diff.tar.gzip"), String::from_str("tar.gz")));
        entries.push((String::from_str("application/vnd.oci.image.layer.v1.tar+zstd"), String::from_str("tar.zst")));
        entries.push((String::from_str("application/vnd.oci.image.layer.nondistributable.v1.tar"), String::from_str("tar")));
        entries.push((String::from_str("application/vnd.oci.image.layer.nondistributable.v1.tar+gzip"), String::from_str("tar.gz")));
        entries.push((String::from_str("application/vnd.oci.image.layer.nondistributable.v1.tar+zstd"), String::from_str("tar.zst")));
        let r = MediaTypeTable { entries };
        assert(r@ =~= seq![
            ("application/vnd.oci.image.layer.v1.tar"@, "tar"@),
            ("application/vnd.oci.image.layer.v1.tar+gzip"@, "tar.gz"@),
            ("application/vnd.docker.image.rootfs.diff.tar.gzip"@, "tar.gz"@),
            ("application/vnd.oci.image.layer.v1.tar+zstd"@, "tar.zst"@),
            ("application/vnd.oci.image.layer.nondistributable.v1.tar"@, "tar"@),
            ("application/vnd.oci.image.layer.nondistributable.v1.tar+gzip"@, "tar.gz"@),
            ("application/vnd.oci.image.layer.nondistributable.v1.tar+zstd"@, "tar.zst"@),
        ]);
        r
    }

    /// The file extension for a media type.
    pub fn extension(&self, media_type: &str) -> (r: String)
        ensures
            r@ == extension_spec(self@, media_type@),
    {
        match lookup(&self.entries, media_type) {
            Some(e) => e,
            None => {
                proof {
                    reveal_strlit("unknown");
                }
                let u = String::from_str("unknown");
                assert(u@ =~= seq!['u', 'n', 'k', 'n', 'o', 'w', 'n']);
                u
            },
        }
    }
}

/// A digest's text with `:` replaced by `-`: the name of the directory an
/// image is downloaded to, and the stem of its layer files.
pub fn file_safe_name(d: &Digest) -> (r: String)
    ensures
        r@ == file_safe(d.text()),
{
    let t = d.as_str();
    let cs = chars_of(t.as_str());
    let mut r = String::new();
    let mut i: usize = 0;
    while i < cs.len()
        invariant
            i <= cs@.len(),
            cs@ == d.text(),
            r@ == file_safe(cs@.take(i as int)),
        decreases cs.len() - i,
    {
        let c = if cs[i] == ':' {
            '-'
        } else {
            cs[i]
        };
        push_char(&mut r, c);
        assert(file_safe(cs@.take(i + 1)) =~= file_safe(cs@.take(i as int)).push(c));
        i = i + 1;
    }
    assert(cs@.take(cs@.len() as int) =~= cs@);
    r
}

/// One file of a download: where it goes and which blob fills it.
#[derive(Debug, Clone)]
pub struct PlanEntry {
    pub file_name: String,
    pub digest: Digest,
}

/// The files of an image download: `config.json` for the config blob
/// first, then one file per layer, in manifest order.
pub fn build_plan(config: &Descriptor, layers: &Vec<Descriptor>, table: &MediaTypeTable) -> (r: Vec<PlanEntry>)
    ensures
        r@.len() == layers@.len() + 1,
        r@[0].file_name@ == config_file(),
        r@[0].digest@ == config.digest@,
        r@[0].digest.wf() == config.digest.wf(),
        forall|i: int| 0 <= i < layers@.len() ==> (#[trigger] r@[i + 1]).file_name@ == layer_file_spec(table@, layers@[i])
            && r@[i + 1].digest@ == layers@[i].digest@ && r@[i + 1].digest.wf() == layers@[i].digest.wf(),
{
    let mut plan: Vec<PlanEntry> = Vec::new();
    proof {
        reveal_strlit("config.json");
    }
    let name = String::from_str("config.json");
    assert(name@ =~= config_file());
    plan.push(PlanEntry { file_name: name, digest: config.digest.duplicate() });
    let mut i: usize = 0;
    while i < layers.len()
        invariant
            i <= layers@.len(),
            plan@.len() == i + 1,
            plan@[0].file_name@ == config_file(),
            plan@[0].digest@ == config.digest@,
            plan@[0].digest.wf() == config.digest.wf(),
            forall|j: int| 0 <= j < i ==> (#[trigger] plan@[j + 1]).file_name@ == layer_file_spec(table@, layers@[j])
                && plan@[j + 1].digest@ == layers@[j].digest@ && plan@[j + 1].digest.wf() == layers@[j].digest.wf(),
        decreases layers.len() - i,
    {
        let layer = &layers[i];
        let mut f = file_safe_name(&layer.digest);
        proof {
            reveal_strlit(".");
        }
        f.append(".");
        let ext = table.extension(layer.media_type.as_str());
        f.append(ext.as_str());
        assert(f@ =~= layer_file_spec(table@, layers@[i as int]));
        plan.push(PlanEntry { file_name: f, digest: layer.digest.duplicate() });
        i = i + 1;
    }
    plan
}

proof fn lemma_layer_file_shape(table: Seq<(Seq<char>, Seq<char>)>, d: Descriptor)
    requires
        d.digest.wf(),
        d.digest.algorithm.is_supported(),
    ensures
        ({
            let f = layer_file_spec(table, d);
            let name = d.digest.algorithm.name();
            let hex = d.digest.hex@;
            &&& name.len() == 6
            &&& f.len() >= 7 + hex.len()
            &&& hex.len() == (if name == sha256_name() { 64int } else { 128int })
            &&& (forall|k: int| 0 <= k < 6 ==> f[k] == name[k])
            &&& f[6] == '-'
            &&& (forall|m: int| 0 <= m < hex.len() ==> f[7 + m] == hex[m])
        }),
{
    let name = d.digest.algorithm.name();
    let hex = d.digest.hex@;
    let t = d.digest.text();
    let f = layer_file_spec(table, d);
    assert(t.len() == 7 + hex.len());
    assert forall|k: int| 0 <= k < 6 implies f[k] == name[k] by {
        assert(t[k] == name[k]);
        assert(is_algorithm_char(name[k]));
    }
    assert(t[6] == ':');
    assert forall|m: int| 0 <= m < hex.len() implies f[7 + m] == hex[m] by {
        assert(t[7 + m] == hex[m]);
        assert(is_encoded_char(hex[m]));
    }
}

/// The files of a plan have distinct names when its layers have distinct
/// digests of a supported algorithm: no two blobs are written to one file.
pub proof fn law_plan_files_are_distinct(table: Seq<(Seq<char>, Seq<char>)>, layers: Seq<Descriptor>)
    requires
        forall|i: int| 0 <= i < layers.len() ==> (#[trigger] layers[i]).digest.wf() && layers[i].digest.algorithm.is_supported(),
        forall|i: int, j: int| 0 <= i < j < layers.len() ==> (#[trigger] layers[i]).digest@ != (#[trigger] layers[j]).digest@,
    ensures
        forall|i: int| 0 <= i < layers.len() ==> layer_file_spec(table, #[trigger] layers[i]) != config_file(),
        forall|i: int, j: int| 0 <= i < j < layers.len() ==> layer_file_spec(table, #[trigger] layers[i]) != layer_file_spec(table, #[trigger] layers[j]),
{
    assert forall|i: int| 0 <= i < layers.len() implies layer_file_spec(table, #[trigger] layers[i]) != config_file() by {
        lemma_layer_file_shape(table, layers[i]);
    }
    assert forall|i: int, j: int| 0 <= i < j < layers.len() implies layer_file_spec(table, #[trigger] layers[i]) != layer_file_spec(table, #[trigger] layers[j]) by {
        let a = layers[i];
        let b = layers[j];
        lemma_layer_file_shape(table, a);
        lemma_layer_file_shape(table, b);
        let fa = layer_file_spec(table, a);
        let fb = layer_file_spec(table, b);
        if fa == fb {
            let na = a.digest.algorithm.name();
            let nb = b.digest.algorithm.name();
            assert(fa[3] == na[3] && fb[3] == nb[3]);
            assert(na == sha256_name() || na == sha512_name());
            assert(nb == sha256_name() || nb == sha512_name());
            assert(na == nb);
            let ha = a.digest.hex@;
            let hb = b.digest.hex@;
            assert(ha.len() == hb.len());
            assert forall|m: int| 0 <= m < ha.len() implies ha[m] == hb[m] by {
                assert(fa[7 + m] == ha[m]);
                assert(fb[7 + m] == hb[m]);
            }
            assert(ha =~= hb);
            assert(a.digest@ == b.digest@);
        }
    }
}

/// Which file of a download failed first, in plan order; `None` when all
/// succeeded. One failure fails the whole download.
pub fn first_failure<T, E>(results: &Vec<Result<T, E>>) -> (r: Option<usize>)
    ensures
        match r {
            None => forall|i: int| 0 <= i < results@.len() ==> (#[trigger] results@[i]) is Ok,
            Some(k) => k < results@.len() && results@[k as int] is Err && forall|i: int| 0 <= i < k ==> (#[trigger] results@[i]) is Ok,
        },
{
    let mut i: usize = 0;
    while i < results.len()
        invariant
            i <= results@.len(),
            forall|j: int| 0 <= j < i ==> (#[trigger] results@[j]) is Ok,
        decreases results.len() - i,
    {
        if results[i].is_err() {
            return Some(i);
        }
        i = i + 1;
    }
    None
}

} // verus!
