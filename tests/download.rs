use containrs::client::{blob_outcome, blob_path, catalog_outcome, catalog_path, manifest_expected_digest, manifest_path, tags_outcome};
use containrs::digest::Digest;
use containrs::download::{build_plan, file_safe_name, first_failure, Descriptor, MediaTypeTable};
use containrs::error::{Error, ErrorKind};
use containrs::index::Index;
use containrs::pagination::Paginate;

fn digest(c: char) -> Digest {
    Digest::parse(&format!("sha256:{}", c.to_string().repeat(64))).unwrap()
}

fn layer(c: char, media_type: &str) -> Descriptor {
    Descriptor { media_type: media_type.to_string(), digest: digest(c), size: 1 }
}

#[test]
fn plan_has_config_then_layers() {
    let table = MediaTypeTable::standard();
    let config = layer('c', "application/vnd.oci.image.config.v1+json");
    let layers = vec![layer('a', "application/vnd.oci.image.layer.v1.tar+gzip"), layer('b', "application/x-other")];
    let plan = build_plan(&config, &layers, &table);
    assert_eq!(plan.len(), 3);
    assert_eq!(plan[0].file_name, "config.json");
    assert_eq!(plan[0].digest, digest('c'));
    assert_eq!(plan[1].file_name, format!("sha256-{}.tar.gz", "a".repeat(64)));
    assert_eq!(plan[2].file_name, format!("sha256-{}.unknown", "b".repeat(64)));
    assert_eq!(plan[2].digest, digest('b'));
    let mut names: Vec<&String> = plan.iter().map(|p| &p.file_name).collect();
    names.sort();
    names.dedup();
    assert_eq!(names.len(), 3);
}

#[test]
fn extensions_follow_the_table() {
    let t = MediaTypeTable::standard();
    assert_eq!(t.extension("application/vnd.oci.image.layer.v1.tar"), "tar");
    assert_eq!(t.extension("application/vnd.docker.image.rootfs.diff.tar.gzip"), "tar.gz");
    assert_eq!(t.extension("application/vnd.oci.image.layer.nondistributable.v1.tar+zstd"), "tar.zst");
    assert_eq!(t.extension(""), "unknown");
}

#[test]
fn directory_name_replaces_the_colon() {
    assert_eq!(file_safe_name(&digest('d')), format!("sha256-{}", "d".repeat(64)));
}

#[test]
fn first_failure_fails_the_download() {
    let ok: Vec<Result<(), Error>> = vec![Ok(()), Ok(()), Ok(())];
    assert_eq!(first_failure(&ok), None);
    let bad: Vec<Result<(), Error>> = vec![Ok(()), Err(Error::new(ErrorKind::Network)), Err(Error::new(ErrorKind::Filesystem))];
    assert_eq!(first_failure(&bad), Some(1));
    let none: Vec<Result<(), Error>> = Vec::new();
    assert_eq!(first_failure(&none), None);
}

#[test]
fn endpoint_paths() {
    assert_eq!(catalog_path(&None), "/v2/_catalog");
    assert_eq!(catalog_path(&Some(Paginate::new(3, "x".to_string()))), "/v2/_catalog?n=3&last=x");
    assert_eq!(manifest_path("library/ubuntu", "latest"), "/v2/library/ubuntu/manifests/latest");
    assert_eq!(blob_path("r", &digest('e')), format!("/v2/r/blobs/sha256:{}", "e".repeat(64)));
}

#[test]
fn status_outcomes() {
    assert!(catalog_outcome(404, None).unwrap().is_none());
    assert!(catalog_outcome(200, None).unwrap().unwrap().is_none());
    assert_eq!(catalog_outcome(500, None).unwrap_err().kind, ErrorKind::Protocol);
    assert_eq!(tags_outcome(404, None).unwrap_err().kind, ErrorKind::RepoNotFound);
    let next = tags_outcome(200, Some("</v2/r/tags/list?n=2&last=b>; rel=\"next\"")).unwrap().unwrap();
    assert_eq!(next.last, "b");
    assert!(blob_outcome(206).is_ok());
    assert_eq!(blob_outcome(404).unwrap_err().kind, ErrorKind::RepoNotFound);
    assert_eq!(blob_outcome(500).unwrap_err().kind, ErrorKind::Protocol);
}

#[test]
fn manifest_digest_checks() {
    let d = digest('a');
    let text = d.as_str();
    assert_eq!(manifest_expected_digest(Some(&d), Some(&text.to_uppercase().replace("SHA", "sha"))).unwrap(), Some(d.clone()));
    assert_eq!(manifest_expected_digest(Some(&d), Some(&digest('b').as_str())).unwrap_err().kind, ErrorKind::DigestMismatch);
    assert_eq!(manifest_expected_digest(None, Some("nonsense")).unwrap_err().kind, ErrorKind::MalformedDigest);
    assert_eq!(manifest_expected_digest(None, None).unwrap(), None);
    assert_eq!(manifest_expected_digest(Some(&d), None).unwrap(), Some(d.clone()));
    assert_eq!(manifest_expected_digest(None, Some(&text)).unwrap(), Some(d));
}

#[test]
fn index_default() {
    let i = Index::default();
    assert_eq!(i.schema_version(), 2);
    assert!(i.manifests.is_empty());
    assert_eq!(i.media_type, None);
    assert_eq!(i.annotations, None);
    assert_eq!(Index::media_type_name(), "application/vnd.oci.image.index.v1+json");
}

#[test]
fn error_context_is_kept_in_order() {
    let e = Error::new(ErrorKind::Filesystem).context("writing a".to_string()).context("download".to_string());
    assert_eq!(e.kind(), ErrorKind::Filesystem);
    assert_eq!(e.context, vec!["writing a".to_string(), "download".to_string()]);
}
