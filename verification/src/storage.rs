//! Storage profiles: where a warehouse keeps its objects, and how the
//! metadata files of a tabular are named.

use crate::error::{error_of, ErrorKind, ErrorModel};
use crate::ident::{format_uuid, hyphenated_text, lemma_hyphenated_text, new_uuid_v7};
use crate::location::{
    is_segment, is_sublocation, lemma_pieces_of_segment, pieces, valid_location, Location,
    LocationView,
};
use crate::text::{copy_text, text_of};
use vstd::prelude::*;
use vstd::string::*;

verus! {

/// Key-value properties, in the order they were given.
pub type Properties = Vec<(String, String)>;

/// The value of the first entry of `properties` with the given key.
pub open spec fn property(properties: Seq<(String, String)>, key: Seq<char>) -> Option<Seq<char>>
    decreases properties.len(),
{
    if properties.len() == 0 {
        None
    } else if properties[0].0@ == key {
        Some(properties[0].1@)
    } else {
        property(properties.drop_first(), key)
    }
}

/// Looks a property up by its key; the first entry with the key counts.
pub fn get_property<'a>(properties: &'a Properties, key: &str) -> (value: Option<&'a String>)
    ensures
        value is Some <==> property(properties@, key@) is Some,
        value matches Some(v) ==> property(properties@, key@) == Some(v@),
{
    let wanted = key.to_owned();
    let mut i: usize = 0;
    assert(properties@.skip(0) =~= properties@);
    while i < properties.len()
        invariant
            wanted@ == key@,
            i <= properties.len(),
            property(properties@, key@) == property(properties@.skip(i as int), key@),
        decreases properties.len() - i,
    {
        let ghost rest = properties@.skip(i as int);
        assert(rest[0] == properties@[i as int]);
        if properties[i].0 == wanted {
            return Some(&properties[i].1);
        }
        assert(rest.drop_first() =~= properties@.skip(i + 1));
        i += 1;
    }
    None
}

/// The texts of properties.
pub open spec fn property_texts(properties: Seq<(String, String)>) -> Seq<(Seq<char>, Seq<char>)> {
    properties.map_values(|p: (String, String)| (p.0@, p.1@))
}

/// The texts of properties that may be absent.
pub open spec fn optional_property_texts(properties: Option<Properties>) -> Option<
    Seq<(Seq<char>, Seq<char>)>,
> {
    match properties {
        Some(p) => Some(property_texts(p@)),
        None => None,
    }
}

/// A copy of the properties.
pub fn copy_properties(properties: &Properties) -> (copy: Properties)
    ensures
        property_texts(copy@) == property_texts(properties@),
{
    let mut copy: Properties = Vec::with_capacity(properties.len());
    let mut i: usize = 0;
    while i < properties.len()
        invariant
            i <= properties.len(),
            property_texts(copy@) == property_texts(properties@).take(i as int),
        decreases properties.len() - i,
    {
        let ghost before = copy@;
        let entry = (properties[i].0.clone(), properties[i].1.clone());
        copy.push(entry);
        i += 1;
        assert(property_texts(before.push(entry)) =~= property_texts(before).push(
            (entry.0@, entry.1@),
        ));
        assert(property_texts(copy@) =~= property_texts(properties@).take(i as int));
    }
    assert(property_texts(properties@).take(i as int) =~= property_texts(properties@));
    copy
}

/// How a metadata file is compressed.
#[derive(Debug, Clone, Copy, PartialEq, Eq, Structural)]
pub enum CompressionCodec {
    Uncompressed,
    Gzip,
    Zstd,
}

/// The property that names the compression codec of metadata files.
pub open spec fn codec_property() -> Seq<char> {
    "write.metadata.compression-codec"@
}

/// The codec a property value names.
pub open spec fn codec_named(value: Seq<char>) -> Option<CompressionCodec> {
    if value == "none"@ {
        Some(CompressionCodec::Uncompressed)
    } else if value == "gzip"@ {
        Some(CompressionCodec::Gzip)
    } else if value == "zstd"@ {
        Some(CompressionCodec::Zstd)
    } else {
        None
    }
}

/// The codec that `properties` ask for: the one named by the codec property,
/// `fallback` where the property is absent, `None` where it names no codec.
pub open spec fn codec_of(
    properties: Seq<(String, String)>,
    fallback: CompressionCodec,
) -> Option<CompressionCodec> {
    match property(properties, codec_property()) {
        Some(value) => codec_named(value),
        None => Some(fallback),
    }
}

impl CompressionCodec {
    /// What the codec adds to the name of a metadata file.
    pub open spec fn extension(self) -> Seq<char> {
        match self {
            CompressionCodec::Uncompressed => Seq::empty(),
            CompressionCodec::Gzip => ".gz"@,
            CompressionCodec::Zstd => ".zstd"@,
        }
    }

    /// What the codec adds to the name of a metadata file.
    pub fn as_file_extension(self) -> (ext: &'static str)
        ensures
            ext@ == self.extension(),
    {
        match self {
            CompressionCodec::Uncompressed => {
                proof {
                    reveal_strlit("");
                }
                assert(""@ =~= Seq::<char>::empty());
                ""
            },
            CompressionCodec::Gzip => ".gz",
            CompressionCodec::Zstd => ".zstd",
        }
    }

    /// The codec that the properties of a request ask for, `fallback` where
    /// they name none. A value that names no codec is refused.
    pub fn try_from_properties(properties: &Properties, fallback: CompressionCodec) -> (r: Result<
        CompressionCodec,
        ErrorModel,
    >)
        ensures
            r is Ok <==> codec_of(properties@, fallback) is Some,
            r matches Ok(codec) ==> codec_of(properties@, fallback) == Some(codec),
            r matches Err(e) ==> e@ == error_of(
                ErrorKind::BadRequest,
                "Unsupported compression codec."@,
                "UnsupportedCompressionCodec"@,
            ),
    {
        match get_property(properties, "write.metadata.compression-codec") {
            None => Ok(fallback),
            Some(value) => {
                let none = "none".to_owned();
                let gzip = "gzip".to_owned();
                let zstd = "zstd".to_owned();
                if *value == none {
                    Ok(CompressionCodec::Uncompressed)
                } else if *value == gzip {
                    Ok(CompressionCodec::Gzip)
                } else if *value == zstd {
                    Ok(CompressionCodec::Zstd)
                } else {
                    Err(
                        ErrorModel::bad_request(
                            "Unsupported compression codec.",
                            "UnsupportedCompressionCodec",
                        ),
                    )
                }
            },
        }
    }
}

/// The kind of S3 service.
#[derive(Debug, Clone, Copy, PartialEq, Eq, Structural)]
pub enum S3Flavor {
    Aws,
    Minio,
}

/// An S3 bucket, with what is needed to reach it.
#[derive(Debug, Clone)]
pub struct S3Profile {
    /// Name of the bucket.
    pub bucket: String,
    /// Path below which the warehouse keeps its objects.
    pub key_prefix: Option<String>,
    /// Role to assume for access to the bucket.
    pub assume_role_arn: Option<String>,
    /// Endpoint of the service, where it is not the default one.
    pub endpoint: Option<String>,
    /// Region of the bucket.
    pub region: String,
    /// Whether the bucket is addressed in the path.
    pub path_style_access: Option<bool>,
    /// Role to assume for vended credentials.
    pub sts_role_arn: Option<String>,
    /// Whether short-lived credentials can be vended.
    pub sts_enabled: bool,
    /// The kind of S3 service.
    pub flavor: S3Flavor,
}

/// The object store of a warehouse.
#[derive(Debug, Clone)]
pub enum StorageProfile {
    S3(S3Profile),
}

/// What an [`S3Profile`] holds, as plain values.
pub struct S3ProfileView {
    pub bucket: Seq<char>,
    pub key_prefix: Option<Seq<char>>,
    pub assume_role_arn: Option<Seq<char>>,
    pub endpoint: Option<Seq<char>>,
    pub region: Seq<char>,
    pub path_style_access: Option<bool>,
    pub sts_role_arn: Option<Seq<char>>,
    pub sts_enabled: bool,
    pub flavor: S3Flavor,
}

impl View for S3Profile {
    type V = S3ProfileView;

    open spec fn view(&self) -> S3ProfileView {
        S3ProfileView {
            bucket: self.bucket@,
            key_prefix: text_of(self.key_prefix),
            assume_role_arn: text_of(self.assume_role_arn),
            endpoint: text_of(self.endpoint),
            region: self.region@,
            path_style_access: self.path_style_access,
            sts_role_arn: text_of(self.sts_role_arn),
            sts_enabled: self.sts_enabled,
            flavor: self.flavor,
        }
    }
}

/// What a [`StorageProfile`] holds, as plain values.
pub enum StorageProfileView {
    S3(S3ProfileView),
}

impl View for StorageProfile {
    type V = StorageProfileView;

    open spec fn view(&self) -> StorageProfileView {
        match self {
            StorageProfile::S3(profile) => StorageProfileView::S3(profile@),
        }
    }
}

/// The scheme of S3 locations.
pub open spec fn s3_scheme() -> Seq<char> {
    seq!['s', '3']
}

/// The segment under a tabular's location that holds its metadata files.
pub open spec fn metadata_segment() -> Seq<char> {
    "metadata"@
}

/// The name of a metadata file: the tabular's identifier, a hyphen, a suffix
/// that tells retries apart, `.metadata.json`, and the codec's extension.
pub open spec fn metadata_file_name(codec: CompressionCodec, tabular: u128, suffix: u128) -> Seq<
    char,
> {
    hyphenated_text(tabular) + seq!['-'] + hyphenated_text(suffix) + ".metadata.json"@
        + codec.extension()
}

/// The location of a metadata file of the tabular at `tabular_location`.
pub open spec fn metadata_location(
    tabular_location: LocationView,
    codec: CompressionCodec,
    tabular: u128,
    suffix: u128,
) -> LocationView {
    LocationView {
        segments: tabular_location.segments.push(metadata_segment()).push(
            metadata_file_name(codec, tabular, suffix),
        ),
        trailing_slash: false,
        ..tabular_location
    }
}

/// `metadata` and the name of a metadata file are path segments.
pub proof fn lemma_metadata_segments(codec: CompressionCodec, tabular: u128, suffix: u128)
    ensures
        is_segment(metadata_segment()),
        is_segment(metadata_file_name(codec, tabular, suffix)),
{
    reveal_strlit("metadata");
    reveal_strlit(".metadata.json");
    reveal_strlit(".gz");
    reveal_strlit(".zstd");
    lemma_hyphenated_text(tabular);
    lemma_hyphenated_text(suffix);
    let name = metadata_file_name(codec, tabular, suffix);
    let json = ".metadata.json"@;
    let ext = codec.extension();
    assert forall|i: int| 0 <= i < name.len() implies name[i] != '/' by {
        if i < 36 {
            assert(name[i] == hyphenated_text(tabular)[i]);
        } else if i == 36 {
        } else if i < 73 {
            assert(name[i] == hyphenated_text(suffix)[i - 37]);
        } else if i < 73 + json.len() {
            assert(name[i] == json[i - 73]);
        } else {
            assert(name[i] == ext[i - 73 - json.len()]);
        }
    }
}

/// A metadata file lies under the location of its tabular, and its name
/// begins with the tabular's identifier.
pub proof fn lemma_metadata_location_is_under(
    tabular_location: LocationView,
    codec: CompressionCodec,
    tabular: u128,
    suffix: u128,
)
    requires
        valid_location(tabular_location),
    ensures
        valid_location(metadata_location(tabular_location, codec, tabular, suffix)),
        is_sublocation(
            metadata_location(tabular_location, codec, tabular, suffix),
            tabular_location,
        ),
        hyphenated_text(tabular).is_prefix_of(
            metadata_location(tabular_location, codec, tabular, suffix).segments.last(),
        ),
{
    lemma_metadata_segments(codec, tabular, suffix);
    lemma_hyphenated_text(tabular);
    let m = metadata_location(tabular_location, codec, tabular, suffix);
    assert(tabular_location.segments =~= m.segments.subrange(
        0,
        tabular_location.segments.len() as int,
    ));
    let name = metadata_file_name(codec, tabular, suffix);
    assert(hyphenated_text(tabular) =~= name.subrange(0, 36));
}

impl S3ProfileView {
    /// The location below which the bucket's objects of this profile lie:
    /// the bucket and the segments of the key prefix. `None` where the
    /// bucket's name is no path segment.
    pub open spec fn base_location(self) -> Option<LocationView> {
        if is_segment(self.bucket) {
            Some(
                LocationView {
                    scheme: s3_scheme(),
                    authority: self.bucket,
                    segments: match self.key_prefix {
                        Some(prefix) => pieces(prefix),
                        None => Seq::empty(),
                    },
                    trailing_slash: false,
                },
            )
        } else {
            None
        }
    }
}

impl StorageProfileView {
    /// The location below which the objects of this profile lie.
    pub open spec fn base_location(self) -> Option<LocationView> {
        match self {
            StorageProfileView::S3(profile) => profile.base_location(),
        }
    }
}

impl S3Profile {
    /// A copy of the profile.
    pub fn duplicate(&self) -> (copy: Self)
        ensures
            copy@ == self@,
    {
        S3Profile {
            bucket: self.bucket.clone(),
            key_prefix: copy_text(&self.key_prefix),
            assume_role_arn: copy_text(&self.assume_role_arn),
            endpoint: copy_text(&self.endpoint),
            region: self.region.clone(),
            path_style_access: self.path_style_access,
            sts_role_arn: copy_text(&self.sts_role_arn),
            sts_enabled: self.sts_enabled,
            flavor: self.flavor,
        }
    }

    /// The location below which the bucket's objects of this profile lie:
    /// see [`S3ProfileView::base_location`].
    pub open spec fn spec_base_location(&self) -> Option<LocationView> {
        self@.base_location()
    }

    /// The location below which the bucket's objects of this profile lie.
    pub fn base_location(&self) -> (r: Result<Location, ErrorModel>)
        ensures
            r is Ok <==> self.spec_base_location() is Some,
            r matches Ok(l) ==> l.wf() && Some(l@) == self.spec_base_location(),
            r matches Err(e) ==> e@ == error_of(
                ErrorKind::BadRequest,
                "Location is not valid."@,
                "InvalidLocation"@,
            ),
    {
        proof {
            reveal_strlit("s3");
            reveal_strlit("");
            assert("s3"@ =~= s3_scheme());
            assert(pieces(""@) =~= Seq::<Seq<char>>::empty());
        }
        if self.bucket.as_str().unicode_len() == 0 {
            return Err(ErrorModel::bad_request("Location is not valid.", "InvalidLocation"));
        }
        match &self.key_prefix {
            Some(prefix) => Location::from_parts("s3", self.bucket.as_str(), prefix.as_str()),
            None => Location::from_parts("s3", self.bucket.as_str(), ""),
        }
    }
}

impl StorageProfile {
    /// A copy of the profile.
    pub fn duplicate(&self) -> (copy: Self)
        ensures
            copy@ == self@,
    {
        match self {
            StorageProfile::S3(profile) => StorageProfile::S3(profile.duplicate()),
        }
    }

    /// The location below which the objects of this profile lie.
    pub open spec fn spec_base_location(&self) -> Option<LocationView> {
        self@.base_location()
    }

    /// The location below which the objects of this profile lie. It depends
    /// on the profile alone.
    pub fn base_location(&self) -> (r: Result<Location, ErrorModel>)
        ensures
            r is Ok <==> self.spec_base_location() is Some,
            r matches Ok(l) ==> l.wf() && Some(l@) == self.spec_base_location(),
            r matches Err(e) ==> e@ == error_of(
                ErrorKind::BadRequest,
                "Location is not valid."@,
                "InvalidLocation"@,
            ),
    {
        match self {
            StorageProfile::S3(profile) => profile.base_location(),
        }
    }

    /// The location of the metadata file with the given suffix.
    pub fn metadata_location_with_suffix(
        &self,
        tabular_location: &Location,
        codec: CompressionCodec,
        tabular: u128,
        suffix: u128,
    ) -> (l: Location)
        requires
            tabular_location.wf(),
        ensures
            l.wf(),
            l@ == metadata_location(tabular_location@, codec, tabular, suffix),
    {
        let mut name = format_uuid(tabular);
        proof {
            reveal_strlit("-");
            assert("-"@ =~= seq!['-']);
        }
        name.append("-");
        name.append(format_uuid(suffix).as_str());
        name.append(".metadata.json");
        name.append(codec.as_file_extension());
        assert(name@ =~= metadata_file_name(codec, tabular, suffix));
        let mut l = tabular_location.duplicate();
        proof {
            lemma_metadata_segments(codec, tabular, suffix);
            lemma_pieces_of_segment(metadata_segment());
            lemma_pieces_of_segment(name@);
        }
        l.push("metadata");
        l.push(name.as_str());
        assert(l@.segments =~= tabular_location@.segments.push(metadata_segment()).push(name@));
        l
    }

    /// A location for a new metadata file of the tabular at
    /// `tabular_location`. The suffix is fresh on every call, so a retry never
    /// writes over the file of an earlier attempt.
    pub fn default_metadata_location(
        &self,
        tabular_location: &Location,
        codec: CompressionCodec,
        tabular: u128,
    ) -> (l: Location)
        requires
            tabular_location.wf(),
        ensures
            l.wf(),
            exists|suffix: u128|
                l@ == #[trigger] metadata_location(tabular_location@, codec, tabular, suffix),
    {
        let suffix = new_uuid_v7();
        self.metadata_location_with_suffix(tabular_location, codec, tabular, suffix)
    }
}

} // verus!
