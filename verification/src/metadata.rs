//! What is known of a track once its metadata has been retrieved.

use vstd::prelude::*;

verus! {

/// One credited artist.
#[derive(Debug, Clone, PartialEq, Eq)]
pub struct ArtistMetadata {
    pub name: String,
}

/// The album that a track belongs to.
#[derive(Debug, Clone, PartialEq, Eq)]
pub struct AlbumMetadata {
    pub name: String,
    /// Total number of discs of the album.
    pub num_discs: u32,
    /// Reference to the cover image, where the album has one.
    pub cover: Option<Vec<u8>>,
}

/// Metadata of one track, read-only once retrieved.
#[derive(Debug, Clone, PartialEq, Eq)]
pub struct TrackMetadata {
    /// Credited artists, in the order in which they are listed.
    pub artists: Vec<ArtistMetadata>,
    pub track_name: String,
    pub album: AlbumMetadata,
    pub disc_number: u32,
    /// Position of the track on its disc.
    pub number: u32,
}

/// Mathematical model of [`TrackMetadata`].
pub struct TrackMetadataView {
    pub artists: Seq<Seq<char>>,
    pub track_name: Seq<char>,
    pub album_name: Seq<char>,
    pub num_discs: nat,
    pub cover: Option<Seq<u8>>,
    pub disc_number: nat,
    pub number: nat,
}

/// The names of a list of artists, in order.
pub open spec fn artist_names(artists: Seq<ArtistMetadata>) -> Seq<Seq<char>> {
    artists.map_values(|a: ArtistMetadata| a.name@)
}

/// Model of an optional cover reference.
pub open spec fn cover_view(cover: Option<Vec<u8>>) -> Option<Seq<u8>> {
    match cover {
        Some(c) => Some(c@),
        None => None,
    }
}

impl View for TrackMetadata {
    type V = TrackMetadataView;

    open spec fn view(&self) -> TrackMetadataView {
        TrackMetadataView {
            artists: artist_names(self.artists@),
            track_name: self.track_name@,
            album_name: self.album.name@,
            num_discs: self.album.num_discs as nat,
            cover: cover_view(self.album.cover),
            disc_number: self.disc_number as nat,
            number: self.number as nat,
        }
    }
}

} // verus!
