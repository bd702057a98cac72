use packfile_sync::{
    download_loaded, download_packed, download_packed_many, upload_packed, DecryptedData,
    DownloadError, DownloadManyStep, DownloadStep, EncryptedData, Host, HostId, LoadingError,
    PackManifestDataV1, PackManifestRecordView, Record, RecordId, UnpackError, UploadStep,
    DOWNLOAD_CONCURRENCY, HISTORY_TAG,
};

type Step<'a> = DownloadStep<'a, DecryptedData, EncryptedData>;

const HOST: HostId = HostId(42);

fn encrypted(id: u128, idx: u64, tag: &str, raw: &str) -> Record<EncryptedData> {
    Record {
        id: RecordId(id),
        idx,
        host: Host::new(HOST),
        version: String::from("v1"),
        tag: String::from(tag),
        data: EncryptedData {
            raw: String::from(raw),
            cek: String::new(),
        },
    }
}

fn manifest(id: u128) -> Record<EncryptedData> {
    encrypted(id, 0, "packfile", "001{}")
}

fn history(count: u64) -> Vec<Record<DecryptedData>> {
    (0..count)
        .map(|idx| Record {
            id: RecordId(100 + idx as u128),
            idx,
            host: Host::new(HOST),
            version: String::from("v1"),
            tag: HISTORY_TAG.to_owned(),
            data: DecryptedData(format!("command number {idx}").into_bytes()),
        })
        .collect()
}

fn encrypt(record: &Record<DecryptedData>) -> Record<EncryptedData> {
    let text: String = record.data.0.iter().rev().map(|b| *b as char).collect();
    encrypted(record.id.0, record.idx, &record.tag, &text)
}

fn decrypt(record: &Record<EncryptedData>) -> Vec<u8> {
    record.data.raw.bytes().rev().collect()
}

fn view(manifest: &Record<EncryptedData>, end_idx: u64) -> PackManifestRecordView<'_> {
    let data = PackManifestDataV1 {
        start_idx: 0,
        end_idx,
    };
    PackManifestRecordView::new(manifest, Ok(data)).unwrap()
}

fn start(view: PackManifestRecordView<'_>) -> Step<'_> {
    download_packed(view)
}

/// A store, a server and a codec that answer a download's requests.
struct World {
    store: Vec<Record<EncryptedData>>,
    server: Option<(RecordId, Vec<Record<DecryptedData>>)>,
    fetches: usize,
}

impl World {
    fn new(server: Option<(RecordId, Vec<Record<DecryptedData>>)>) -> World {
        World {
            store: vec![],
            server,
            fetches: 0,
        }
    }

    fn run(&mut self, step: Step<'_>) -> Result<Vec<RecordId>, DownloadError> {
        let mut step = step;
        loop {
            step = match step {
                DownloadStep::ReadHead(read) => {
                    assert_eq!(read.host_id(), HOST);
                    assert_eq!(read.tag(), HISTORY_TAG);
                    let head = self.store.last().cloned();
                    read.resume(Ok(head))
                }
                DownloadStep::LoadLocal(local) => {
                    assert_eq!(local.host_id(), HOST);
                    assert_eq!(local.tag(), HISTORY_TAG);
                    let range = local.range();
                    let records = self
                        .store
                        .iter()
                        .filter(|record| {
                            range.start_idx <= record.idx && record.idx <= range.end_idx
                        })
                        .cloned()
                        .collect();
                    local.resume(Ok(records))
                }
                DownloadStep::Fetch(fetch) => {
                    self.fetches += 1;
                    let blob = match &self.server {
                        Some((id, _)) if *id == fetch.packfile() => Ok(vec![1, 2, 3]),
                        _ => Err(eyre::Report::msg("connection refused")),
                    };
                    fetch.resume(blob)
                }
                DownloadStep::Unpack(unpack) => {
                    assert_eq!(unpack.blob(), [1, 2, 3]);
                    assert_eq!(unpack.manifest_view().id(), self.server.as_ref().unwrap().0);
                    let records = self.server.as_ref().unwrap().1.clone();
                    unpack.resume(Ok(records))
                }
                DownloadStep::Encrypt(one) => {
                    let record = encrypt(one.record());
                    one.resume(record)
                }
                DownloadStep::Push(push) => {
                    self.store.extend(push.records().iter().cloned());
                    push.resume(Ok(()))
                }
                DownloadStep::Finished(result) => return result,
            };
        }
    }
}

#[test]
fn download_packed_populates_history_from_the_packfile() {
    let manifest = manifest(1);
    let mut down = World::new(Some((RecordId(1), history(5))));
    let ids = down.run(download_packed(view(&manifest, 4))).unwrap();
    assert_eq!(ids.len(), 5, "all five history records populated");
    let expected: Vec<RecordId> = (100..105).map(RecordId).collect();
    assert_eq!(ids, expected);

    assert_eq!(down.store.len(), 5);
    assert_eq!(decrypt(&down.store[0]), b"command number 0");
    assert_eq!(decrypt(&down.store[4]), b"command number 4");
    assert_eq!(down.fetches, 1);
}

#[test]
fn download_packed_returns_range_ids_when_already_local() {
    let manifest = manifest(1);
    let mut down = World::new(None);
    down.store = history(5).iter().map(encrypt).collect();
    let expected_ids: Vec<RecordId> = down.store.iter().map(|record| record.id).collect();
    assert_eq!(expected_ids.len(), 5, "sanity: seeded ids captured");

    let ids = down.run(download_packed(view(&manifest, 4))).unwrap();
    assert_eq!(
        ids, expected_ids,
        "range already local -> covered ids returned anyway, for re-indexing"
    );
    assert_eq!(down.fetches, 0);
}

#[test]
fn a_second_download_is_local_and_gives_the_same_ids() {
    let manifest = manifest(1);
    let mut down = World::new(Some((RecordId(1), history(5))));
    let first = down.run(download_packed(view(&manifest, 4))).unwrap();
    down.server = None;
    let second = down.run(download_packed(view(&manifest, 4))).unwrap();
    assert_eq!(first, second);
    assert_eq!(down.fetches, 1);
    assert_eq!(down.store.len(), 5);
}

#[test]
fn a_download_undoes_an_upload() {
    let manifest = manifest(1);
    let up: Vec<Record<EncryptedData>> = history(5).iter().map(encrypt).collect();
    let packed: Vec<RecordId> = up.iter().map(|record| record.id).collect();

    let UploadStep::PackBody(pack) = upload_packed(view(&manifest, 4)) else {
        panic!("the history is packed first")
    };
    let UploadStep::CreatePackfile(create) = pack.resume(Ok((vec![1, 2, 3], packed.clone())))
    else {
        panic!("then the packfile is announced")
    };
    let UploadStep::PutPackfile(put) = create.resume(Ok((String::from("u"), RecordId(9)))) else {
        panic!("then the packfile is put")
    };
    assert_eq!(put.blob(), [1, 2, 3]);

    let mut down = World::new(Some((RecordId(1), history(5))));
    let ids = down.run(download_packed(view(&manifest, 4))).unwrap();
    assert_eq!(ids, packed);
    for (there, here) in up.iter().zip(&down.store) {
        assert_eq!(there.id, here.id);
        assert_eq!(there.idx, here.idx);
        assert_eq!(there.host, here.host);
        assert_eq!(here.tag, HISTORY_TAG);
        assert_eq!(decrypt(there), decrypt(here));
    }
}

#[test]
fn payloads_travel_untouched() {
    let manifest = manifest(1);
    let plain = Record {
        id: RecordId(3),
        idx: 0,
        host: Host::new(HOST),
        version: String::from("v1"),
        tag: HISTORY_TAG.to_owned(),
        data: (17u64, "ls"),
    };
    let sealed = Record {
        id: RecordId(3),
        idx: 0,
        host: Host::new(HOST),
        version: String::from("v1"),
        tag: HISTORY_TAG.to_owned(),
        data: (17u64, [5u8; 3]),
    };
    let DownloadStep::ReadHead(read) = download_packed(view(&manifest, 0)) else {
        panic!("the head is read first")
    };
    let DownloadStep::Fetch(fetch) = read.resume(Ok(None)) else {
        panic!("the packfile is fetched")
    };
    let DownloadStep::Unpack(unpack) = fetch.resume(Ok(vec![])) else {
        panic!("the packfile is unpacked")
    };
    let DownloadStep::Encrypt(one) = unpack.resume(Ok(vec![plain])) else {
        panic!("the record is encrypted")
    };
    assert_eq!(one.record().data, (17, "ls"));
    let DownloadStep::Push(push) = one.resume(sealed) else {
        panic!("the record is pushed")
    };
    assert_eq!(push.records()[0].data, (17, [5, 5, 5]));
}

#[test]
fn a_head_one_short_of_the_range_does_not_cover_it() {
    let manifest = manifest(1);
    for (idx, local) in [(3u64, false), (4, true), (5, true)] {
        let DownloadStep::ReadHead(read) = start(view(&manifest, 4)) else {
            panic!("the head is read first")
        };
        let step = read.resume(Ok(Some(encrypted(9, idx, HISTORY_TAG, ""))));
        assert_eq!(matches!(step, DownloadStep::LoadLocal(_)), local);
        assert_eq!(matches!(step, DownloadStep::Fetch(_)), !local);
    }
    let DownloadStep::ReadHead(read) = start(view(&manifest, 0)) else {
        panic!("the head is read first")
    };
    assert!(matches!(read.resume(Ok(None)), DownloadStep::Fetch(_)));
}

#[test]
fn store_faults_are_transient() {
    let manifest = manifest(1);
    let DownloadStep::ReadHead(read) = start(view(&manifest, 4)) else {
        panic!("the head is read first")
    };
    let DownloadStep::Finished(Err(error)) = read.resume(Err(eyre::Report::msg("locked"))) else {
        panic!("a store fault ends the download")
    };
    assert!(matches!(error, DownloadError::Store(_)));
    assert!(!error.is_permanent());
    assert_eq!(
        error.message(),
        "failed to store the unpacked history: locked"
    );

    let DownloadStep::ReadHead(read) = start(view(&manifest, 4)) else {
        panic!("the head is read first")
    };
    let DownloadStep::LoadLocal(local) = read.resume(Ok(Some(encrypted(9, 9, HISTORY_TAG, ""))))
    else {
        panic!("the range is local")
    };
    let DownloadStep::Finished(Err(error)) = local.resume(Err(eyre::Report::msg("io"))) else {
        panic!("a store fault ends the download")
    };
    assert!(matches!(error, DownloadError::Store(_)));
}

#[test]
fn an_empty_packfile_pushes_an_empty_batch() {
    let manifest = manifest(1);
    let DownloadStep::ReadHead(read) = start(view(&manifest, 4)) else {
        panic!("the head is read first")
    };
    let DownloadStep::Fetch(fetch) = read.resume(Ok(None)) else {
        panic!("the packfile is fetched")
    };
    let DownloadStep::Unpack(unpack) = fetch.resume(Ok(vec![])) else {
        panic!("the packfile is unpacked")
    };
    let DownloadStep::Push(push) = unpack.resume(Ok(vec![])) else {
        panic!("nothing is left to encrypt")
    };
    assert!(push.records().is_empty());
    let DownloadStep::Finished(Ok(ids)) = push.resume::<DecryptedData>(Ok(())) else {
        panic!("the download is over")
    };
    assert!(ids.is_empty());
}

#[test]
fn ids_are_given_only_once_the_store_took_the_records() {
    let manifest = manifest(1);
    let DownloadStep::ReadHead(read) = start(view(&manifest, 0)) else {
        panic!("the head is read first")
    };
    let DownloadStep::Fetch(fetch) = read.resume(Ok(None)) else {
        panic!("the packfile is fetched")
    };
    let DownloadStep::Unpack(unpack) = fetch.resume(Ok(vec![])) else {
        panic!("the packfile is unpacked")
    };
    let DownloadStep::Encrypt(one) = unpack.resume(Ok(history(1))) else {
        panic!("the record is encrypted")
    };
    let record = encrypt(one.record());
    let DownloadStep::Push(push) = one.resume(record) else {
        panic!("the record is pushed")
    };
    let refused = Err(eyre::Report::msg("disk full"));
    let DownloadStep::Finished(Err(error)) = push.resume::<DecryptedData>(refused)
    else {
        panic!("a store fault ends the download")
    };
    assert!(matches!(error, DownloadError::Store(_)));
}

#[test]
fn a_packfile_that_cannot_be_unpacked_is_a_permanent_fault() {
    let manifest = manifest(1);
    let DownloadStep::ReadHead(read) = start(view(&manifest, 4)) else {
        panic!("the head is read first")
    };
    let DownloadStep::Fetch(fetch) = read.resume(Ok(None)) else {
        panic!("the packfile is fetched")
    };
    assert_eq!(fetch.packfile(), RecordId(1));
    let DownloadStep::Unpack(unpack) = fetch.resume(Ok(vec![0xff])) else {
        panic!("the packfile is unpacked")
    };
    let DownloadStep::Finished(Err(error)) =
        unpack.resume(Err(UnpackError(String::from("wrong key"))))
    else {
        panic!("the download is over")
    };
    assert!(error.is_permanent());
    assert_eq!(error.message(), "wrong key");
}

#[test]
fn download_error_kinds_and_texts() {
    let error = DownloadError::from(LoadingError::UnknownVersion);
    assert!(error.is_permanent());
    assert_eq!(
        error.message(),
        "failed to load the packfile manifest: unknown packfile manifest version"
    );
    let error = DownloadError::from(UnpackError(String::from("x")));
    assert!(error.is_permanent());
    assert_eq!(error.describe("why"), "why");
    let error = DownloadError::Api(eyre::Report::msg("503"));
    assert!(!error.is_permanent());
    assert_eq!(error.message(), "packfile download failed: 503");
    let error = DownloadError::Store(eyre::Report::msg("x"));
    assert!(!error.is_permanent());
    assert_eq!(
        error.describe("why"),
        "failed to store the unpacked history: why"
    );
}

fn skips_a_permanent_manifest(
    bad_data: EncryptedData,
    decoded: Result<PackManifestDataV1, String>,
    text: &str,
) {
    let mut bad = manifest(7);
    bad.data = bad_data;
    let good = manifest(8);
    let mut down = World::new(Some((RecordId(8), history(3))));

    let manifests = [bad, good];
    let DownloadManyStep::Batch(batch) = download_packed_many(&manifests) else {
        panic!("both stand in one batch")
    };
    assert_eq!(batch.manifests().len(), 2);
    let results = vec![
        down.run(download_loaded(PackManifestRecordView::new(
            &manifests[0],
            decoded,
        ))),
        down.run(download_loaded(Ok(view(&manifests[1], 2)))),
    ];
    let (DownloadManyStep::Finished(result), skipped) = batch.resume(results) else {
        panic!("there is one batch")
    };
    let ids = result.expect("a permanent per-manifest fault must be skipped, not abort the batch");
    assert_eq!(ids.len(), 3, "the valid sibling's three records still expand");
    assert_eq!(
        down.store.len(),
        3,
        "the valid packfile's history is present locally"
    );
    assert_eq!(down.fetches, 1, "nothing is fetched for the bad manifest");
    assert_eq!(skipped.len(), 1);
    assert_eq!(skipped[0].manifest_id, RecordId(7));
    assert_eq!(skipped[0].host, HOST);
    assert_eq!(skipped[0].idx, 0);
    assert_eq!(skipped[0].message(), text);
}

#[test]
fn download_packed_many_skips_a_permanent_manifest_and_expands_the_valid_one() {
    skips_a_permanent_manifest(
        EncryptedData {
            raw: "999{}".into(),
            cek: String::new(),
        },
        Err(String::from("missing field")),
        "skipping unexpandable packfile manifest: failed to load the packfile manifest: \
         unknown packfile manifest version",
    );
    skips_a_permanent_manifest(
        EncryptedData {
            raw: "001{not json".into(),
            cek: String::new(),
        },
        Err(String::from("not json")),
        "skipping unexpandable packfile manifest: failed to load the packfile manifest: \
         malformed packfile manifest: not json",
    );
    skips_a_permanent_manifest(
        manifest(7).data,
        Ok(PackManifestDataV1 {
            start_idx: 100,
            end_idx: 5,
        }),
        "skipping unexpandable packfile manifest: failed to load the packfile manifest: \
         packfile manifest range is inverted",
    );
}

#[test]
fn download_packed_many_propagates_a_transient_api_error() {
    let manifests = [manifest(1)];
    let mut down = World::new(None);
    let DownloadManyStep::Batch(batch) = download_packed_many(&manifests) else {
        panic!("there is one batch")
    };
    let results = vec![down.run(download_loaded(Ok(view(&manifests[0], 2))))];
    let (DownloadManyStep::Finished(result), skipped) = batch.resume(results) else {
        panic!("there is one batch")
    };
    assert!(
        matches!(result, Err(DownloadError::Api(_))),
        "a transient transport fault must propagate, not be skipped: {result:?}"
    );
    assert!(skipped.is_empty());
    assert_eq!(down.fetches, 1);
}

#[test]
fn download_many_goes_on_in_bounded_batches_and_keeps_input_order() {
    let manifests: Vec<Record<EncryptedData>> = (0..17).map(manifest).collect();
    let mut sizes = vec![];
    let mut warned = vec![];
    let mut step = download_packed_many(&manifests);
    let ids = loop {
        step = match step {
            DownloadManyStep::Batch(batch) => {
                sizes.push(batch.manifests().len());
                let results = batch
                    .manifests()
                    .iter()
                    .map(|manifest| match manifest.id.0 {
                        id if id % 5 == 0 => {
                            Err(DownloadError::Unpack(UnpackError(String::from("codec"))))
                        }
                        id => Ok(vec![RecordId(10 * id), RecordId(10 * id + 1)]),
                    })
                    .collect();
                let (next, skipped) = batch.resume(results);
                warned.extend(skipped.into_iter().map(|skip| skip.manifest_id.0));
                next
            }
            DownloadManyStep::Finished(result) => break result.unwrap(),
        };
    };
    assert_eq!(DOWNLOAD_CONCURRENCY, 8);
    assert_eq!(sizes, vec![8, 8, 1]);
    assert_eq!(warned, vec![0, 5, 10, 15]);
    let expected: Vec<RecordId> = (0..17u128)
        .filter(|id| id % 5 != 0)
        .flat_map(|id| [RecordId(10 * id), RecordId(10 * id + 1)])
        .collect();
    assert_eq!(ids, expected);
}

#[test]
fn the_first_transient_fault_wins_and_later_skips_are_not_warned_of() {
    let manifests: Vec<Record<EncryptedData>> = (0..12).map(manifest).collect();
    let DownloadManyStep::Batch(batch) = download_packed_many(&manifests) else {
        panic!("the first batch")
    };
    let permanent = || Err(DownloadError::Unpack(UnpackError(String::from("codec"))));
    let results = vec![
        Ok(vec![RecordId(1)]),
        permanent(),
        Err(DownloadError::Store(eyre::Report::msg("first"))),
        permanent(),
        Err(DownloadError::Api(eyre::Report::msg("second"))),
        Ok(vec![]),
        Ok(vec![]),
        Ok(vec![]),
    ];
    let (DownloadManyStep::Finished(Err(error)), skipped) = batch.resume(results) else {
        panic!("no second batch")
    };
    assert_eq!(
        error.message(),
        "failed to store the unpacked history: first"
    );
    assert_eq!(skipped.len(), 1);
    assert_eq!(skipped[0].manifest_id, RecordId(1));
}

#[test]
fn a_warning_names_the_skipped_manifest() {
    let mut second = manifest(6);
    second.idx = 31;
    second.host = Host::new(HostId(43));
    let manifests = [manifest(5), second];
    let DownloadManyStep::Batch(batch) = download_packed_many(&manifests) else {
        panic!("there is one batch")
    };
    let fault = DownloadError::Unpack(UnpackError(String::from("codec")));
    let (_, skipped) = batch.resume(vec![Ok(vec![]), Err(fault)]);
    assert_eq!(skipped.len(), 1);
    assert_eq!(skipped[0].manifest_id, RecordId(6));
    assert_eq!(skipped[0].host, HostId(43));
    assert_eq!(skipped[0].idx, 31);
    assert_eq!(
        skipped[0].message(),
        "skipping unexpandable packfile manifest: codec"
    );
}

/// The last history record of `HOST` in `store`.
fn head_of(store: &[Record<EncryptedData>]) -> Option<Record<EncryptedData>> {
    store
        .iter()
        .filter(|record| record.host.id == HOST && record.tag == HISTORY_TAG)
        .max_by_key(|record| record.idx)
        .cloned()
}

#[test]
fn records_of_other_hosts_and_tags_do_not_matter() {
    let manifest = manifest(1);
    let own: Vec<Record<EncryptedData>> = history(3).iter().map(encrypt).collect();
    let mut mixed = own.clone();
    mixed.push(encrypted(900, 50, "packfile", ""));
    let mut foreign = encrypted(901, 60, HISTORY_TAG, "");
    foreign.host = Host::new(HostId(43));
    mixed.push(foreign);
    for (end_idx, fetched) in [(2u64, false), (4, true)] {
        for store in [&own, &mixed] {
            let DownloadStep::ReadHead(read) = start(view(&manifest, end_idx)) else {
                panic!("the head is read first")
            };
            assert_eq!(read.host_id(), HOST);
            assert_eq!(read.tag(), HISTORY_TAG);
            let step = read.resume(Ok(head_of(store)));
            assert_eq!(matches!(step, DownloadStep::Fetch(_)), fetched);
        }
    }
}

#[test]
fn download_many_of_nothing_is_over_at_once() {
    let DownloadManyStep::Finished(Ok(ids)) = download_packed_many(&[]) else {
        panic!("there is nothing to download")
    };
    assert!(ids.is_empty());
}
