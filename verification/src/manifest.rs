//! Packfile manifests: the records that name the history range a packfile covers.
use crate::error::prefixed;
use crate::record::{EncryptedData, HostId, Record, RecordId};
use vstd::prelude::*;

verus! {

/// The number of characters of the version tag in front of a manifest's body.
pub const VERSION_TAG_LEN: usize = 3;

/// The history range that a manifest covers, `start_idx..=end_idx`.
#[derive(Debug, Clone, Copy, PartialEq, Eq, Structural)]
pub struct PackManifestDataV1 {
    pub start_idx: u64,
    pub end_idx: u64,
}

/// Why a manifest record could not be read. All of these are in the record itself: reading it
/// again gives the same.
#[derive(Debug)]
pub enum LoadingError {
    /// The body carries a version tag that is not known here.
    UnknownVersion,
    /// The body is of a known version but does not decode; the decoder's words.
    MalformedBody(String),
    /// The range starts after it ends.
    InvertedRange { start_idx: u64, end_idx: u64 },
}

impl LoadingError {
    /// What the error says.
    pub open spec fn text(self) -> Seq<char> {
        match self {
            LoadingError::UnknownVersion => "unknown packfile manifest version"@,
            LoadingError::MalformedBody(reason) => "malformed packfile manifest: "@ + reason@,
            LoadingError::InvertedRange { .. } => "packfile manifest range is inverted"@,
        }
    }

    /// What the error says, as a string.
    pub fn message(&self) -> (text: String)
        ensures
            text@ == self.text(),
    {
        match self {
            LoadingError::UnknownVersion => "unknown packfile manifest version".to_owned(),
            LoadingError::MalformedBody(reason) => prefixed(
                "malformed packfile manifest: ",
                reason.as_str(),
            ),
            LoadingError::InvertedRange { .. } => "packfile manifest range is inverted".to_owned(),
        }
    }
}

/// Whether `raw` carries a body of the first version: it starts with the tag `001`.
pub open spec fn is_v1(raw: Seq<char>) -> bool {
    raw.len() >= VERSION_TAG_LEN && raw.take(VERSION_TAG_LEN as int) == "001"@
}

/// The encoded body of a manifest, behind its version tag: what the decoder is given.
pub fn manifest_body(data: &EncryptedData) -> (body: Result<&str, LoadingError>)
    ensures
        is_v1(data.raw@) ==> (body matches Ok(b) && b@ == data.raw@.skip(VERSION_TAG_LEN as int)),
        !is_v1(data.raw@) ==> body == Err::<&str, LoadingError>(LoadingError::UnknownVersion),
        match body {
            Ok(encoded) => data.raw@ == seq!['0', '0', '1'] + encoded@,
            Err(_) => data.raw@.len() < 3 || data.raw@[0] != '0' || data.raw@[1] != '0'
                || data.raw@[2] != '1',
        },
{
    proof {
        reveal_strlit("001");
        if data.raw@.len() >= VERSION_TAG_LEN {
            let tag = data.raw@.take(VERSION_TAG_LEN as int);
            assert(tag[0] == data.raw@[0] && tag[1] == data.raw@[1] && tag[2] == data.raw@[2]);
            assert(tag[0] == '0' && tag[1] == '0' && tag[2] == '1' ==> tag =~= "001"@);
        }
    }
    let raw: &str = data.raw.as_str();
    let len: usize = raw.unicode_len();
    if len >= VERSION_TAG_LEN && raw.get_char(0) == '0' && raw.get_char(1) == '0' && raw.get_char(2)
        == '1' {
        Ok(raw.substring_char(VERSION_TAG_LEN, len))
    } else {
        Err(LoadingError::UnknownVersion)
    }
}

/// A manifest record together with the range that its body names. Every value of this type has
/// a range that does not start after it ends.
#[derive(Debug, Clone, Copy)]
pub struct PackManifestRecordView<'a> {
    manifest: &'a Record<EncryptedData>,
    data: PackManifestDataV1,
}

/// The mathematical value of a [`PackManifestRecordView`]: a manifest record and the range that its
/// body names.
pub struct Manifest {
    pub record: Record<EncryptedData>,
    pub range: PackManifestDataV1,
}

/// What `record` is read as where the decoder makes `decoded` of its body. A body of an unknown
/// version is rejected whatever the decoder makes of it, and so are a body that does not decode
/// and an inverted range.
pub open spec fn read_as(
    record: Record<EncryptedData>,
    decoded: Result<PackManifestDataV1, String>,
) -> Result<Manifest, LoadingError> {
    if !is_v1(record.data.raw@) {
        Err(LoadingError::UnknownVersion)
    } else {
        match decoded {
            Err(reason) => Err(LoadingError::MalformedBody(reason)),
            Ok(range) => if range.start_idx > range.end_idx {
                Err(
                    LoadingError::InvertedRange {
                        start_idx: range.start_idx,
                        end_idx: range.end_idx,
                    },
                )
            } else {
                Ok(Manifest { record, range })
            },
        }
    }
}

/// The mathematical value of a view that may have failed to load.
pub open spec fn manifest_of(
    loaded: Result<PackManifestRecordView<'_>, LoadingError>,
) -> Result<Manifest, LoadingError> {
    match loaded {
        Ok(view) => Ok(view@),
        Err(error) => Err(error),
    }
}

impl<'a> View for PackManifestRecordView<'a> {
    type V = Manifest;

    closed spec fn view(&self) -> Manifest {
        Manifest { record: *self.manifest, range: self.data }
    }
}

impl<'a> PackManifestRecordView<'a> {
    #[verifier::type_invariant]
    spec fn range_not_inverted(self) -> bool {
        self.data.start_idx <= self.data.end_idx
    }

    /// The view of `manifest`, of whose body the decoder made `decoded`.
    pub fn new(
        manifest: &'a Record<EncryptedData>,
        decoded: Result<PackManifestDataV1, String>,
    ) -> (view: Result<PackManifestRecordView<'a>, LoadingError>)
        ensures
            manifest_of(view) == read_as(*manifest, decoded),
    {
        if let Err(error) = manifest_body(&manifest.data) {
            return Err(error);
        }
        match decoded {
            Err(reason) => Err(LoadingError::MalformedBody(reason)),
            Ok(data) => {
                if data.start_idx > data.end_idx {
                    Err(
                        LoadingError::InvertedRange {
                            start_idx: data.start_idx,
                            end_idx: data.end_idx,
                        },
                    )
                } else {
                    Ok(PackManifestRecordView { manifest, data })
                }
            },
        }
    }

    /// The manifest's id.
    pub fn id(&self) -> (id: RecordId)
        ensures
            id == self@.record.id,
    {
        self.manifest.id
    }

    /// The id of the manifest's host.
    pub fn host_id(&self) -> (host: HostId)
        ensures
            host == self@.record.host.id,
    {
        self.manifest.host.id
    }

    /// The manifest's position in its host's log.
    pub fn idx(&self) -> (idx: u64)
        ensures
            idx == self@.record.idx,
    {
        self.manifest.idx
    }

    /// The range that the manifest covers. It does not start after it ends.
    pub fn range(&self) -> (range: PackManifestDataV1)
        ensures
            range == self@.range,
            range.start_idx <= range.end_idx,
    {
        proof {
            use_type_invariant(self);
        }
        self.data
    }
}

} // verus!
