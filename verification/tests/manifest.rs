use packfile_sync::{
    manifest_body, EncryptedData, Host, HostId, LoadingError, PackManifestDataV1,
    PackManifestRecordView, Record, RecordId,
};

fn record(raw: &str) -> Record<EncryptedData> {
    Record {
        id: RecordId(5),
        idx: 3,
        host: Host::new(HostId(6)),
        version: String::from("v1"),
        tag: String::from("packfile"),
        data: EncryptedData {
            raw: String::from(raw),
            cek: String::new(),
        },
    }
}

fn inverted_range_is_rejected(start_idx: u64, end_idx: u64) {
    let manifest = record("001{}");
    let data = PackManifestDataV1 { start_idx, end_idx };
    let view = PackManifestRecordView::new(&manifest, Ok(data));
    assert!(
        view.is_err(),
        "inverted manifest range must be rejected, not underflow the count"
    );
    match view {
        Err(LoadingError::InvertedRange {
            start_idx: start,
            end_idx: end,
        }) => assert_eq!((start, end), (start_idx, end_idx)),
        other => panic!("{other:?}"),
    }
}

#[test]
fn an_inverted_range_is_rejected_when_building_the_view() {
    inverted_range_is_rejected(100, 5);
    inverted_range_is_rejected(6, 5);
    inverted_range_is_rejected(u64::MAX, 0);
}

#[test]
fn a_range_of_one_record_and_the_full_range_are_accepted() {
    let manifest = record("001{}");
    for (start_idx, end_idx) in [(5, 5), (0, u64::MAX)] {
        let data = PackManifestDataV1 { start_idx, end_idx };
        let view = PackManifestRecordView::new(&manifest, Ok(data)).unwrap();
        assert_eq!(view.range(), data);
        assert_eq!(view.id(), RecordId(5));
        assert_eq!(view.idx(), 3);
        assert_eq!(view.host_id(), HostId(6));
    }
}

#[test]
fn a_malformed_body_is_rejected_in_the_decoders_words() {
    let manifest = record("001{not json");
    let decoded = Err(String::from("expected a key"));
    let error = PackManifestRecordView::new(&manifest, decoded).unwrap_err();
    assert_eq!(
        error.message(),
        "malformed packfile manifest: expected a key"
    );
}

#[test]
fn an_unknown_version_is_rejected_whatever_the_decoder_says() {
    let manifest = record("999{}");
    let data = PackManifestDataV1 {
        start_idx: 0,
        end_idx: 2,
    };
    for decoded in [Ok(data), Err(String::from("no"))] {
        assert!(matches!(
            PackManifestRecordView::new(&manifest, decoded),
            Err(LoadingError::UnknownVersion)
        ));
    }
}

#[test]
fn the_version_tag_is_checked_and_cut_off() {
    assert_eq!(manifest_body(&record("001{not json").data).unwrap(), "{not json");
    assert_eq!(manifest_body(&record("001").data).unwrap(), "");
    assert_eq!(manifest_body(&record("001\u{e9}x").data).unwrap(), "\u{e9}x");
    for raw in ["999{}", "", "00", "012", "\u{e9}01{}"] {
        assert!(matches!(
            manifest_body(&record(raw).data),
            Err(LoadingError::UnknownVersion)
        ));
    }
}

#[test]
fn loading_errors_say_what_is_wrong() {
    assert_eq!(
        LoadingError::UnknownVersion.message(),
        "unknown packfile manifest version"
    );
    let inverted = LoadingError::InvertedRange {
        start_idx: 2,
        end_idx: 1,
    };
    assert_eq!(inverted.message(), "packfile manifest range is inverted");
}
