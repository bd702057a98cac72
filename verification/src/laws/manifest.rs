//! What holds of reading manifests.
use crate::manifest::{
    is_v1, manifest_of, read_as, LoadingError, Manifest, PackManifestDataV1,
    PackManifestRecordView, VERSION_TAG_LEN,
};
use crate::record::{EncryptedData, Record};
use vstd::prelude::*;

verus! {

/// The tag alone tells the known version: whatever stands behind `001`, of whatever length, is a
/// body of the known version, and is the body whole.
pub proof fn law_any_body_behind_the_tag_is_known(body: Seq<char>)
    ensures
        is_v1(seq!['0', '0', '1'] + body),
        (seq!['0', '0', '1'] + body).skip(VERSION_TAG_LEN as int) == body,
{
    reveal_strlit("001");
    let raw = seq!['0', '0', '1'] + body;
    assert(raw.take(VERSION_TAG_LEN as int) =~= "001"@);
    assert(raw.skip(VERSION_TAG_LEN as int) =~= body);
}

/// Without the tag no version is known: a text that is shorter than the tag, or differs from it in
/// one of its characters, is of an unknown version.
pub proof fn law_no_other_tag_is_known(raw: Seq<char>)
    requires
        raw.len() < 3 || raw[0] != '0' || raw[1] != '0' || raw[2] != '1',
    ensures
        !is_v1(raw),
{
    reveal_strlit("001");
    if raw.len() >= 3 {
        let tag = raw.take(VERSION_TAG_LEN as int);
        assert(tag[0] == raw[0] && tag[1] == raw[1] && tag[2] == raw[2]);
    }
}

/// A readable manifest keeps its record and its range: whatever its body, it is read as the record
/// it is, covering the range that was decoded, from its first index to its last.
pub proof fn law_readable_manifest_keeps_its_range(
    record: Record<EncryptedData>,
    body: Seq<char>,
    range: PackManifestDataV1,
)
    requires
        record.data.raw@ == seq!['0', '0', '1'] + body,
        range.start_idx <= range.end_idx,
    ensures
        read_as(record, Ok(range)) == Ok::<Manifest, LoadingError>(Manifest { record, range }),
{
    law_any_body_behind_the_tag_is_known(body);
}

/// A manifest of the known version is rejected exactly where its body does not decode, with the
/// decoder's reason, or its range is inverted, with that range.
pub proof fn law_unreadable_bodies_are_rejected(
    record: Record<EncryptedData>,
    body: Seq<char>,
    reason: String,
    range: PackManifestDataV1,
)
    requires
        record.data.raw@ == seq!['0', '0', '1'] + body,
        range.start_idx > range.end_idx,
    ensures
        read_as(record, Err(reason)) == Err::<Manifest, LoadingError>(
            LoadingError::MalformedBody(reason),
        ),
        read_as(record, Ok(range)) == Err::<Manifest, LoadingError>(
            LoadingError::InvertedRange { start_idx: range.start_idx, end_idx: range.end_idx },
        ),
{
    law_any_body_behind_the_tag_is_known(body);
}

/// A manifest of an unknown version is rejected for its version, whatever the decoder makes of it.
pub proof fn law_unknown_versions_are_rejected(
    record: Record<EncryptedData>,
    decoded: Result<PackManifestDataV1, String>,
)
    requires
        ({
            let raw = record.data.raw@;
            raw.len() < 3 || raw[0] != '0' || raw[1] != '0' || raw[2] != '1'
        }),
    ensures
        read_as(record, decoded) == Err::<Manifest, LoadingError>(LoadingError::UnknownVersion),
{
    law_no_other_tag_is_known(record.data.raw@);
}

/// A view that was built stands for its own manifest; one that was not, for why.
pub proof fn law_view_stands_for_its_manifest(
    view: PackManifestRecordView<'_>,
    error: LoadingError,
)
    ensures
        manifest_of(Ok(view)) == Ok::<Manifest, LoadingError>(view@),
        manifest_of(Err(error)) == Err::<Manifest, LoadingError>(error),
{
}

} // verus!
