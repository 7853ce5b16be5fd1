//! Playlists as the parser hands them over, and the way from a playlist URL
//! down to the segments of one rendition.

use crate::error::{is_client_error, is_server_error, TransportError};
use crate::text::text_of;
use crate::urls::{join_url, joined_url};
use vstd::prelude::*;

verus! {

/// How and where to get the key that decrypts the segments of a run.
#[derive(Debug, Clone, PartialEq, Eq)]
pub struct KeyInfo {
    /// The cipher, as the playlist names it.
    pub method: String,
    /// Where the key bytes are, absolute or relative to the playlist.
    pub uri: String,
    /// The initialization vector in hexadecimal, where the playlist gives one.
    pub iv: Option<String>,
}

/// The key that a playlist attaches to a segment.
#[derive(Debug, Clone, PartialEq, Eq)]
pub struct SegmentKey {
    pub method: String,
    pub uri: Option<String>,
    pub iv: Option<String>,
}

/// One segment of a media playlist.
#[derive(Debug, Clone, PartialEq, Eq)]
pub struct MediaSegment {
    /// Where the segment is, relative to the playlist.
    pub uri: String,
    /// The key that the playlist attaches to it, if any.
    pub key: Option<SegmentKey>,
}

/// One rendition that a master playlist offers.
#[derive(Debug, Clone, PartialEq, Eq)]
pub struct VariantStream {
    /// Where the rendition's playlist is, relative to the master playlist.
    pub uri: String,
    /// Its peak bit rate.
    pub bandwidth: u64,
}

/// A playlist: the renditions of a stream, or the segments of one rendition.
#[derive(Debug, Clone, PartialEq, Eq)]
pub enum Playlist {
    MasterPlaylist(Vec<VariantStream>),
    MediaPlaylist(Vec<MediaSegment>),
}

/// A key descriptor as plain text.
pub struct KeyInfoModel {
    pub method: Seq<char>,
    pub uri: Seq<char>,
    pub iv: Option<Seq<char>>,
}

/// A segment's key as plain text.
pub struct KeyModel {
    pub method: Seq<char>,
    pub uri: Option<Seq<char>>,
    pub iv: Option<Seq<char>>,
}

/// A segment as plain text.
pub struct SegmentModel {
    pub uri: Seq<char>,
    pub key: Option<KeyModel>,
}

/// A rendition as plain text.
pub struct VariantModel {
    pub uri: Seq<char>,
    pub bandwidth: u64,
}

/// A playlist as plain text.
pub enum PlaylistModel {
    Master(Seq<VariantModel>),
    Media(Seq<SegmentModel>),
}

impl View for KeyInfo {
    type V = KeyInfoModel;

    open spec fn view(&self) -> KeyInfoModel {
        KeyInfoModel { method: self.method@, uri: self.uri@, iv: text_of(self.iv) }
    }
}

impl View for SegmentKey {
    type V = KeyModel;

    open spec fn view(&self) -> KeyModel {
        KeyModel { method: self.method@, uri: text_of(self.uri), iv: text_of(self.iv) }
    }
}

impl View for MediaSegment {
    type V = SegmentModel;

    open spec fn view(&self) -> SegmentModel {
        SegmentModel {
            uri: self.uri@,
            key: match self.key {
                Some(k) => Some(k@),
                None => None,
            },
        }
    }
}

impl View for VariantStream {
    type V = VariantModel;

    open spec fn view(&self) -> VariantModel {
        VariantModel { uri: self.uri@, bandwidth: self.bandwidth }
    }
}

/// The segments of a vector as plain text.
pub open spec fn segments_view(segments: Seq<MediaSegment>) -> Seq<SegmentModel> {
    Seq::new(segments.len(), |i: int| segments[i]@)
}

/// The renditions of a vector as plain text.
pub open spec fn variants_view(variants: Seq<VariantStream>) -> Seq<VariantModel> {
    Seq::new(variants.len(), |i: int| variants[i]@)
}

impl View for Playlist {
    type V = PlaylistModel;

    open spec fn view(&self) -> PlaylistModel {
        match *self {
            Playlist::MasterPlaylist(variants) => PlaylistModel::Master(variants_view(variants@)),
            Playlist::MediaPlaylist(segments) => PlaylistModel::Media(segments_view(segments@)),
        }
    }
}

/// The playlist that `m3u8_rs::parse_playlist_res` reads from `content`,
/// reduced to the fields that a run uses; `None` where it rejects `content`.
pub uninterp spec fn parsed_playlist(content: Seq<char>) -> Option<PlaylistModel>;

/// An optional playlist as plain text.
pub open spec fn playlist_view(playlist: Option<Playlist>) -> Option<PlaylistModel> {
    match playlist {
        Some(p) => Some(p@),
        None => None,
    }
}

/// Calls `m3u8_rs::parse_playlist_res` on the bytes of `content` and copies
/// out of its playlist what a run uses: of each rendition the URI and the
/// bandwidth, of each segment the URI and the key's method, URI and vector.
/// `None` stands for the crate's error.
#[verifier::external_body]
fn parse_playlist(content: &str) -> (r: Option<Playlist>)
    ensures
        playlist_view(r) == parsed_playlist(content@),
{
    match m3u8_rs::parse_playlist_res(content.as_bytes()) {
        Ok(m3u8_rs::Playlist::MasterPlaylist(p)) => Some(Playlist::MasterPlaylist(
            p.variants.into_iter().map(|v| VariantStream { uri: v.uri, bandwidth: v.bandwidth }).collect(),
        )),
        Ok(m3u8_rs::Playlist::MediaPlaylist(p)) => Some(Playlist::MediaPlaylist(
            p.segments.into_iter().map(|s| MediaSegment {
                uri: s.uri,
                key: s.key.map(|k| SegmentKey { method: k.method.to_string(), uri: k.uri, iv: k.iv }),
            }).collect(),
        )),
        Err(_) => None,
    }
}

/// The rendition to follow: the one with the highest bandwidth, and among
/// equals the one that comes first. `None` where there is no rendition.
pub open spec fn best_variant(variants: Seq<VariantModel>) -> Option<int>
    decreases variants.len(),
{
    if variants.len() == 0 {
        None
    } else {
        match best_variant(variants.drop_last()) {
            None => Some(variants.len() - 1),
            Some(best) => if variants.last().bandwidth > variants[best].bandwidth {
                Some(variants.len() - 1)
            } else {
                Some(best)
            },
        }
    }
}

/// The chosen rendition has the highest bandwidth of all, and a higher one
/// than every rendition before it.
pub proof fn lemma_best_variant(variants: Seq<VariantModel>)
    ensures
        variants.len() == 0 <==> best_variant(variants) is None,
        best_variant(variants) matches Some(best) ==> {
            &&& 0 <= best < variants.len()
            &&& forall|j: int| 0 <= j < variants.len() ==> variants[j].bandwidth <= variants[best].bandwidth
            &&& forall|j: int| 0 <= j < best ==> variants[j].bandwidth < variants[best].bandwidth
        },
    decreases variants.len(),
{
    if variants.len() > 0 {
        lemma_best_variant(variants.drop_last());
        let before = variants.drop_last();
        assert forall|j: int| 0 <= j < before.len() implies before[j] == variants[j] by {}
    }
}

/// Picks the rendition to follow.
pub fn select_variant(variants: &[VariantStream]) -> (r: Option<usize>)
    ensures
        match r {
            Some(i) => best_variant(variants_view(variants@)) == Some(i as int),
            None => best_variant(variants_view(variants@)) is None,
        },
{
    let total = variants.len();
    if total == 0 {
        return None;
    }
    let ghost all = variants_view(variants@);
    let mut best: usize = 0;
    let mut i: usize = 1;
    proof {
        assert(all.subrange(0, 1).drop_last() =~= Seq::<VariantModel>::empty());
        reveal_with_fuel(best_variant, 2);
    }
    while i < total
        invariant
            1 <= i <= total,
            total == variants@.len(),
            all == variants_view(variants@),
            best < i,
            best_variant(all.subrange(0, i as int)) == Some(best as int),
        decreases total - i,
    {
        proof {
            assert(all.subrange(0, i + 1).drop_last() =~= all.subrange(0, i as int));
        }
        if variants[i].bandwidth > variants[best].bandwidth {
            best = i;
        }
        i = i + 1;
    }
    proof {
        assert(all.subrange(0, total as int) =~= all);
    }
    Some(best)
}

/// The descriptor that a segment's key makes for the run: a key without a
/// URI has the empty one.
pub open spec fn key_info_of(key: KeyModel) -> KeyInfoModel {
    KeyInfoModel {
        method: key.method,
        uri: match key.uri {
            Some(uri) => uri,
            None => Seq::empty(),
        },
        iv: key.iv,
    }
}

/// The key descriptor of a run: that of the first segment that carries a
/// key. `None` where no segment carries one.
pub open spec fn first_key(segments: Seq<SegmentModel>) -> Option<KeyInfoModel>
    decreases segments.len(),
{
    if segments.len() == 0 {
        None
    } else {
        match segments[0].key {
            Some(key) => Some(key_info_of(key)),
            None => first_key(segments.subrange(1, segments.len() as int)),
        }
    }
}

/// The run's key is that of the segment at `at`, where that segment carries
/// a key and none before it does; a run whose segments carry no key has
/// none.
pub proof fn lemma_first_key(segments: Seq<SegmentModel>, at: int)
    requires
        0 <= at <= segments.len(),
        forall|i: int| 0 <= i < at ==> segments[i].key is None,
        at < segments.len() ==> segments[at].key is Some,
    ensures
        at < segments.len() ==> first_key(segments) == Some(key_info_of(segments[at].key->0)),
        at == segments.len() ==> first_key(segments) is None,
    decreases segments.len(),
{
    if segments.len() > 0 && at > 0 {
        let rest = segments.subrange(1, segments.len() as int);
        assert forall|i: int| 0 <= i < at - 1 implies rest[i].key is None by {
            assert(rest[i] == segments[i + 1]);
        }
        lemma_first_key(rest, at - 1);
    }
}

/// A key descriptor as plain text, where there is one.
pub open spec fn key_info_view(key_info: Option<KeyInfo>) -> Option<KeyInfoModel> {
    match key_info {
        Some(k) => Some(k@),
        None => None,
    }
}

/// Finds the key descriptor of a run among its segments.
pub fn select_key(segments: &[MediaSegment]) -> (r: Option<KeyInfo>)
    ensures
        key_info_view(r) == first_key(segments_view(segments@)),
{
    let total = segments.len();
    let ghost all = segments_view(segments@);
    let mut i: usize = 0;
    proof {
        assert(all.subrange(0, total as int) =~= all);
    }
    while i < total
        invariant
            i <= total,
            total == segments@.len(),
            all == segments_view(segments@),
            first_key(all) == first_key(all.subrange(i as int, total as int)),
        decreases total - i,
    {
        proof {
            let rest = all.subrange(i as int, total as int);
            assert(rest.subrange(1, rest.len() as int) =~= all.subrange(i + 1, total as int));
            assert(rest[0] == segments@[i as int]@);
        }
        match &segments[i].key {
            Some(key) => {
                let uri = match &key.uri {
                    Some(uri) => uri.clone(),
                    None => String::new(),
                };
                return Some(KeyInfo { method: key.method.clone(), uri, iv: key.iv.clone() });
            },
            None => {},
        }
        i = i + 1;
    }
    None
}

/// The answer to the request for a playlist.
#[derive(Debug, Clone, PartialEq, Eq)]
pub struct PlaylistResponse {
    /// The status code.
    pub status: u16,
    /// The URL that answered, after redirects.
    pub final_url: String,
    /// The body as text.
    pub content: String,
}

/// Why a playlist URL did not lead to segments.
#[derive(Clone, Copy, Debug, PartialEq, Eq)]
pub enum PlaylistError {
    /// The request failed, or the status was 4xx or 5xx.
    Fetch(TransportError),
    /// The content is no playlist.
    Parse,
    /// The master playlist offers no rendition.
    NoVariants,
    /// The chosen rendition's URI cannot be resolved against the URL of the
    /// master playlist.
    UriResolution,
}

/// What a playlist leads to.
#[derive(Debug, Clone, PartialEq, Eq)]
pub enum Resolution {
    /// A master playlist: fetch the chosen rendition's playlist at `url`.
    Follow { url: String },
    /// A media playlist: its segments, the URL to resolve their URIs
    /// against, and the key descriptor of the run.
    Media { segments: Vec<MediaSegment>, base_url: String, key_info: Option<KeyInfo> },
}

/// What a playlist leads to, as plain text.
pub enum ResolutionModel {
    Follow { url: Seq<char> },
    Media { segments: Seq<SegmentModel>, base_url: Seq<char>, key_info: Option<KeyInfoModel> },
}

impl View for Resolution {
    type V = ResolutionModel;

    open spec fn view(&self) -> ResolutionModel {
        match *self {
            Resolution::Follow { url } => ResolutionModel::Follow { url: url@ },
            Resolution::Media { segments, base_url, key_info } => ResolutionModel::Media {
                segments: segments_view(segments@),
                base_url: base_url@,
                key_info: key_info_view(key_info),
            },
        }
    }
}

/// What the playlist fetched from `final_url` leads to.
///
/// A master playlist leads to its best rendition, whose URI is resolved
/// against `final_url`. A media playlist is the end: its segments, with
/// `final_url` as their base and the first key among them as the run's.
pub open spec fn resolved(playlist: PlaylistModel, final_url: Seq<char>) -> Result<
    ResolutionModel,
    PlaylistError,
> {
    match playlist {
        PlaylistModel::Master(variants) => match best_variant(variants) {
            None => Err(PlaylistError::NoVariants),
            Some(best) => match joined_url(final_url, variants[best].uri) {
                Some(url) => Ok(ResolutionModel::Follow { url }),
                None => Err(PlaylistError::UriResolution),
            },
        },
        PlaylistModel::Media(segments) => Ok(
            ResolutionModel::Media { segments, base_url: final_url, key_info: first_key(segments) },
        ),
    }
}

/// A result with the success as plain text.
pub open spec fn resolution_view(r: Result<Resolution, PlaylistError>) -> Result<
    ResolutionModel,
    PlaylistError,
> {
    match r {
        Ok(resolution) => Ok(resolution@),
        Err(e) => Err(e),
    }
}

/// Decides where a parsed playlist leads.
pub fn resolve_playlist(playlist: Playlist, final_url: String) -> (r: Result<
    Resolution,
    PlaylistError,
>)
    ensures
        resolution_view(r) == resolved(playlist@, final_url@),
{
    match playlist {
        Playlist::MasterPlaylist(variants) => {
            proof {
                lemma_best_variant(variants_view(variants@));
            }
            match select_variant(variants.as_slice()) {
                None => Err(PlaylistError::NoVariants),
                Some(best) => match join_url(final_url.as_str(), variants[best].uri.as_str()) {
                    Some(url) => Ok(Resolution::Follow { url }),
                    None => Err(PlaylistError::UriResolution),
                },
            }
        },
        Playlist::MediaPlaylist(segments) => {
            let key_info = select_key(segments.as_slice());
            Ok(Resolution::Media { segments, base_url: final_url, key_info })
        },
    }
}

/// What the answer to a playlist request leads to.
///
/// A failed request and a 4xx or 5xx status are fetch failures; content that
/// the parser rejects is a parse failure; a playlist leads where `resolved`
/// says.
pub open spec fn fetched(response: Result<PlaylistResponse, TransportError>) -> Result<
    ResolutionModel,
    PlaylistError,
> {
    match response {
        Err(t) => Err(PlaylistError::Fetch(t)),
        Ok(reply) => if is_client_error(reply.status) || is_server_error(reply.status) {
            Err(
                PlaylistError::Fetch(
                    TransportError { timeout: false, connect: false, status: Some(reply.status) },
                ),
            )
        } else {
            match parsed_playlist(reply.content@) {
                None => Err(PlaylistError::Parse),
                Some(playlist) => resolved(playlist, reply.final_url@),
            }
        },
    }
}

/// Reads the answer to a playlist request and decides what comes next: the
/// playlist of the best rendition, or the download of the segments.
pub fn fetch_and_parse_playlist(response: Result<PlaylistResponse, TransportError>) -> (r: Result<
    Resolution,
    PlaylistError,
>)
    ensures
        resolution_view(r) == fetched(response),
{
    match response {
        Err(t) => Err(PlaylistError::Fetch(t)),
        Ok(reply) => {
            let status = reply.status;
            if 400 <= status && status < 600 {
                return Err(
                    PlaylistError::Fetch(
                        TransportError { timeout: false, connect: false, status: Some(status) },
                    ),
                );
            }
            match parse_playlist(reply.content.as_str()) {
                None => Err(PlaylistError::Parse),
                Some(playlist) => resolve_playlist(playlist, reply.final_url),
            }
        },
    }
}

} // verus!
