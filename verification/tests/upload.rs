use packfile_sync::{
    upload_loaded, upload_packed, upload_packed_many, EncryptedData, Host, HostId, LoadingError,
    PackBodyError, PackManifestDataV1, PackManifestRecordView, Record, RecordId, UploadError,
    UploadManyStep, UploadStep, UPLOAD_CONCURRENCY,
};

fn manifest(id: u128) -> Record<EncryptedData> {
    Record {
        id: RecordId(id),
        idx: 0,
        host: Host::new(HostId(77)),
        version: String::from("v1"),
        tag: String::from("packfile"),
        data: EncryptedData {
            raw: String::from("001{}"),
            cek: String::new(),
        },
    }
}

fn view(manifest: &Record<EncryptedData>) -> PackManifestRecordView<'_> {
    let data = PackManifestDataV1 {
        start_idx: 0,
        end_idx: 4,
    };
    PackManifestRecordView::new(manifest, Ok(data)).unwrap()
}

#[test]
fn uploads_the_packed_range() {
    let manifest = manifest(1);
    let blob = vec![9u8, 8, 7, 6];
    let ids: Vec<RecordId> = (10..15).map(RecordId).collect();
    let packfile_id = RecordId(500);

    let UploadStep::PackBody(pack) = upload_packed(view(&manifest)) else {
        panic!("the history is packed first")
    };
    assert_eq!(pack.manifest_view().id(), RecordId(1));
    assert_eq!(pack.manifest_view().host_id(), HostId(77));
    assert_eq!(pack.manifest_view().range().end_idx, 4);

    let UploadStep::CreatePackfile(create) = pack.resume(Ok((blob.clone(), ids.clone()))) else {
        panic!("then the packfile is announced")
    };
    assert_eq!(create.manifest_id(), RecordId(1));
    assert_eq!(create.ids(), ids.as_slice());
    assert_eq!(create.blob_len(), 4);

    let url = String::from("http://server/upload/abc");
    let UploadStep::PutPackfile(put) = create.resume(Ok((url.clone(), packfile_id))) else {
        panic!("then the packfile is put")
    };
    assert_eq!(put.url(), url);
    assert_eq!(put.blob(), blob.as_slice());

    let UploadStep::Finished(got) = put.resume(Ok(())) else {
        panic!("then the upload is over")
    };
    assert_eq!(got.unwrap(), packfile_id);
}

#[test]
fn a_body_that_cannot_be_packed_ends_the_upload() {
    let manifest = manifest(1);
    let UploadStep::PackBody(pack) = upload_packed(view(&manifest)) else {
        panic!("the history is packed first")
    };
    let UploadStep::Finished(Err(error)) = pack.resume(Err(PackBodyError(String::from("gap"))))
    else {
        panic!("a failure to pack ends the upload")
    };
    assert!(matches!(error, UploadError::Body(_)));
    assert_eq!(error.message(), "gap");
}

#[test]
fn a_refused_announcement_ends_the_upload() {
    let manifest = manifest(1);
    let UploadStep::PackBody(pack) = upload_packed(view(&manifest)) else {
        panic!("the history is packed first")
    };
    let UploadStep::CreatePackfile(create) = pack.resume(Ok((vec![], vec![]))) else {
        panic!("then the packfile is announced")
    };
    assert_eq!(create.blob_len(), 0);
    let UploadStep::Finished(Err(error)) = create.resume(Err(eyre::Report::msg("refused"))) else {
        panic!("a refusal ends the upload")
    };
    assert!(matches!(error, UploadError::Api(_)));
    assert_eq!(error.message(), "packfile upload failed: refused");
}

#[test]
fn a_refused_put_ends_the_upload() {
    let manifest = manifest(1);
    let UploadStep::PackBody(pack) = upload_packed(view(&manifest)) else {
        panic!("the history is packed first")
    };
    let UploadStep::CreatePackfile(create) = pack.resume(Ok((vec![1], vec![RecordId(2)]))) else {
        panic!("then the packfile is announced")
    };
    let UploadStep::PutPackfile(put) = create.resume(Ok((String::from("u"), RecordId(3)))) else {
        panic!("then the packfile is put")
    };
    let UploadStep::Finished(Err(error)) = put.resume(Err(eyre::Report::msg("timeout"))) else {
        panic!("a refusal ends the upload")
    };
    assert!(matches!(error, UploadError::Api(_)));
}

#[test]
fn an_unreadable_manifest_uploads_nothing() {
    let UploadStep::Finished(Err(error)) = upload_loaded(Err(LoadingError::UnknownVersion)) else {
        panic!("no request is made")
    };
    assert!(matches!(
        error,
        UploadError::PackManifest(LoadingError::UnknownVersion)
    ));
    assert_eq!(
        error.message(),
        "failed to load the packfile manifest: unknown packfile manifest version"
    );
}

#[test]
fn upload_error_describes_its_cause() {
    let error = UploadError::from(LoadingError::UnknownVersion);
    assert_eq!(
        error.describe("why"),
        "failed to load the packfile manifest: why"
    );
    let error = UploadError::from(PackBodyError(String::from("x")));
    assert_eq!(error.describe("why"), "why");
    let error = UploadError::Api(eyre::Report::msg("x"));
    assert_eq!(error.describe("why"), "packfile upload failed: why");
}

#[test]
fn upload_many_ships_bounded_batches_and_keeps_input_order() {
    let manifests: Vec<Record<EncryptedData>> = (0..19).map(manifest).collect();
    let mut sizes = vec![];
    let mut step = upload_packed_many(&manifests);
    let ids = loop {
        step = match step {
            UploadManyStep::Batch(batch) => {
                sizes.push(batch.manifests().len());
                let ids = batch
                    .manifests()
                    .iter()
                    .map(|manifest| RecordId(manifest.id.0 + 1000))
                    .collect();
                batch.resume(Ok(ids))
            }
            UploadManyStep::Finished(result) => break result.unwrap(),
        };
    };
    assert_eq!(UPLOAD_CONCURRENCY, 8);
    assert_eq!(sizes, vec![8, 8, 3]);
    let expected: Vec<RecordId> = (1000..1019).map(RecordId).collect();
    assert_eq!(ids, expected);
}

#[test]
fn upload_many_of_nothing_is_over_at_once() {
    let UploadManyStep::Finished(Ok(ids)) = upload_packed_many(&[]) else {
        panic!("there is nothing to upload")
    };
    assert!(ids.is_empty());
}

#[test]
fn upload_many_stops_at_the_first_failed_batch() {
    let manifests: Vec<Record<EncryptedData>> = (0..24).map(manifest).collect();
    let UploadManyStep::Batch(first) = upload_packed_many(&manifests) else {
        panic!("the first batch")
    };
    assert_eq!(first.manifests()[0].id, RecordId(0));
    let UploadManyStep::Batch(second) = first.resume(Ok((0..8).map(RecordId).collect())) else {
        panic!("the second batch")
    };
    assert_eq!(second.manifests()[0].id, RecordId(8));
    let failure = UploadError::Api(eyre::Report::msg("503"));
    let UploadManyStep::Finished(Err(error)) = second.resume(Err(failure)) else {
        panic!("no third batch")
    };
    assert_eq!(error.message(), "packfile upload failed: 503");
}
