//! The path namer: from track metadata and a folder policy to a sanitized
//! relative file name. Pure and deterministic.

use vstd::prelude::*;
use vstd::string::*;
use crate::metadata::{TrackMetadata, TrackMetadataView};
use crate::options::{FolderStructure, Format};
use crate::text::{decimal, digit_char, is_digit, join, join_strings, lemma_decimal_digits,
    lemma_decimal_len, push_char, push_decimal, views};

verus! {

/// Control characters: the code points `U+0000..=U+001F` and `U+007F..=U+009F`.
pub open spec fn is_control(c: char) -> bool {
    c as u32 <= 0x1f || (0x7f <= c as u32 && c as u32 <= 0x9f)
}

/// The characters that no file name may hold: `< > : ' " / \ | ? *`.
pub open spec fn is_reserved(c: char) -> bool {
    c == '<' || c == '>' || c == ':' || c == '\'' || c == '"' || c == '/' || c == '\\' || c == '|'
        || c == '?' || c == '*'
}

/// Whether sanitization keeps `c`. With `ascii_only`, characters outside
/// ASCII are dropped as well.
pub open spec fn is_allowed(c: char, ascii_only: bool) -> bool {
    !is_reserved(c) && (!ascii_only || c as u32 <= 0x7f) && !is_control(c)
}

/// [`is_allowed`] as a predicate on characters.
pub open spec fn allowed(ascii_only: bool) -> spec_fn(char) -> bool {
    |c: char| is_allowed(c, ascii_only)
}

/// `s` without the characters that are not allowed, the rest in order.
pub open spec fn sanitized(s: Seq<char>, ascii_only: bool) -> Seq<char> {
    s.filter(allowed(ascii_only))
}

/// Whether every character of `s` is allowed.
pub open spec fn is_clean(s: Seq<char>, ascii_only: bool) -> bool {
    forall|i: int| 0 <= i < s.len() ==> is_allowed(#[trigger] s[i], ascii_only)
}

/// Decides [`is_allowed`].
pub fn char_allowed(c: char, ascii_only: bool) -> (b: bool)
    ensures
        b == is_allowed(c, ascii_only),
{
    let n: u32 = c as u32;
    let reserved = c == '<' || c == '>' || c == ':' || c == '\'' || c == '"' || c == '/' || c
        == '\\' || c == '|' || c == '?' || c == '*';
    let control = n <= 0x1f || (0x7f <= n && n <= 0x9f);
    !reserved && (!ascii_only || n <= 0x7f) && !control
}

/// Removes from `file_name` every character that is not allowed in a path
/// segment. Never fails; the result may be empty.
pub fn clean_file_name(file_name: String, ascii_only: bool) -> (clean: String)
    ensures
        clean@ == sanitized(file_name@, ascii_only),
{
    let mut clean = String::new();
    let ghost pred = allowed(ascii_only);
    for c in it: file_name.as_str().chars()
        invariant
            it.seq() == file_name@,
            pred == allowed(ascii_only),
            clean@ == file_name@.take(it.index() as int).filter(pred),
    {
        proof {
            let i = it.index() as int;
            assert(file_name@.take(i + 1) =~= file_name@.take(i).push(c));
            file_name@.take(i).lemma_filter_push(c, pred);
        }
        if char_allowed(c, ascii_only) {
            push_char(&mut clean, c);
        }
    }
    assert(file_name@.take(file_name@.len() as int) =~= file_name@);
    clean
}

/// A clean string is left as it is.
pub proof fn lemma_sanitized_of_clean(s: Seq<char>, ascii_only: bool)
    requires
        is_clean(s, ascii_only),
    ensures
        sanitized(s, ascii_only) == s,
    decreases s.len(),
{
    reveal(Seq::filter);
    if s.len() > 0 {
        assert(is_allowed(s[s.len() - 1], ascii_only));
        assert forall|i: int| 0 <= i < s.drop_last().len() implies is_allowed(
            #[trigger] s.drop_last()[i],
            ascii_only,
        ) by {
            assert(s.drop_last()[i] == s[i]);
        }
        lemma_sanitized_of_clean(s.drop_last(), ascii_only);
        assert(s.drop_last().push(s.last()) =~= s);
    }
}

/// What sanitization returns is clean: it holds none of the reserved
/// characters and no control character, and with `ascii_only` nothing
/// outside ASCII.
pub proof fn lemma_sanitized_is_clean(s: Seq<char>, ascii_only: bool)
    ensures
        is_clean(sanitized(s, ascii_only), ascii_only),
        forall|i: int|
            0 <= i < sanitized(s, ascii_only).len() ==> !is_reserved(
                #[trigger] sanitized(s, ascii_only)[i],
            ) && !is_control(sanitized(s, ascii_only)[i]),
{
    let pred = allowed(ascii_only);
    assert forall|i: int| 0 <= i < s.filter(pred).len() implies is_allowed(
        #[trigger] s.filter(pred)[i],
        ascii_only,
    ) by {
        s.lemma_filter_pred(pred, i);
    }
}

/// Sanitization is idempotent.
pub proof fn lemma_sanitize_idempotent(s: Seq<char>, ascii_only: bool)
    ensures
        sanitized(sanitized(s, ascii_only), ascii_only) == sanitized(s, ascii_only),
{
    lemma_sanitized_is_clean(s, ascii_only);
    lemma_sanitized_of_clean(sanitized(s, ascii_only), ascii_only);
}

/// Sanitizing a concatenation sanitizes both halves.
pub proof fn lemma_sanitized_concat(a: Seq<char>, b: Seq<char>, ascii_only: bool)
    ensures
        sanitized(a + b, ascii_only) == sanitized(a, ascii_only) + sanitized(b, ascii_only),
{
    Seq::filter_distributes_over_add(a, b, allowed(ascii_only));
}

/// The suffix that stands for the artists that are not listed.
pub open spec fn others_marker() -> Seq<char> {
    "and others"@
}

/// The artists of a track as one label: all of them joined by `", "`, or,
/// where there are more than three, the first three and the marker.
pub open spec fn artists_label(names: Seq<Seq<char>>) -> Seq<char> {
    if names.len() > 3 {
        join(names.take(3).push(others_marker()), ", "@)
    } else {
        join(names, ", "@)
    }
}

/// The album artist: the first listed artist, or nothing where none is listed.
pub open spec fn album_artist_label(names: Seq<Seq<char>>) -> Seq<char> {
    if names.len() == 0 {
        Seq::empty()
    } else {
        names[0]
    }
}

/// The album's directory: its name, followed by the disc where the album
/// has more than one.
pub open spec fn album_label(album: Seq<char>, num_discs: nat, disc_number: nat) -> Seq<char> {
    if num_discs > 1 {
        album + " (Disc "@ + decimal(disc_number) + ")"@
    } else {
        album
    }
}

/// A track number, zero-padded on the left to two digits.
pub open spec fn padded_number(n: nat) -> Seq<char> {
    if n < 10 {
        seq!['0'] + decimal(n)
    } else {
        decimal(n)
    }
}

/// The file's own name under the album policy: padded number, a space, title.
pub open spec fn track_label(number: nat, title: Seq<char>) -> Seq<char> {
    padded_number(number) + " "@ + title
}

/// The path segments of a track before sanitization.
pub open spec fn segments(m: TrackMetadataView, structure: FolderStructure) -> Seq<Seq<char>> {
    match structure {
        FolderStructure::FLAT => seq![artists_label(m.artists) + " - "@ + m.track_name],
        FolderStructure::ALBUM => seq![
            album_artist_label(m.artists),
            album_label(m.album_name, m.num_discs, m.disc_number),
            track_label(m.number, m.track_name),
        ],
    }
}

/// [`sanitized`] as a function on segments.
pub open spec fn sanitizer(ascii_only: bool) -> spec_fn(Seq<char>) -> Seq<char> {
    |p: Seq<char>| sanitized(p, ascii_only)
}

/// The relative file name of a track, without extension: its segments, each
/// sanitized on its own, joined by `/`.
pub open spec fn file_name(m: TrackMetadataView, structure: FolderStructure, ascii_only: bool) -> Seq<
    char,
> {
    join(segments(m, structure).map_values(sanitizer(ascii_only)), "/"@)
}

/// The relative path of a track's file: its name and, after a dot, the
/// extension of the target format.
pub open spec fn relative_path(
    m: TrackMetadataView,
    structure: FolderStructure,
    format: Format,
    ascii_only: bool,
) -> Seq<char> {
    file_name(m, structure, ascii_only) + "."@ + format.extension_text()
}

/// The label of the track's artists.
pub fn artists_name(metadata: &TrackMetadata) -> (out: String)
    ensures
        out@ == artists_label(metadata@.artists),
{
    let n: usize = metadata.artists.len();
    let shown: usize = if n > 3 { 3 } else { n };
    let mut parts: Vec<String> = Vec::new();
    let mut i: usize = 0;
    while i < shown
        invariant
            i <= shown <= n,
            n == metadata.artists.len(),
            views(parts@) == metadata@.artists.take(i as int),
        decreases shown - i,
    {
        let name = metadata.artists[i].name.clone();
        let ghost before = parts@;
        parts.push(name);
        proof {
            assert(views(before.push(name)) =~= views(before).push(name@));
            assert(metadata@.artists.take(i + 1) =~= metadata@.artists.take(i as int).push(
                metadata@.artists[i as int],
            ));
        }
        i += 1;
    }
    if n > 3 {
        let marker = String::from_str("and others");
        let ghost before = parts@;
        parts.push(marker);
        proof {
            assert(views(before.push(marker)) =~= views(before).push(marker@));
        }
    } else {
        assert(metadata@.artists.take(n as int) =~= metadata@.artists);
    }
    join_strings(&parts, ", ")
}

/// The album artist of the track.
pub fn album_artist_name(metadata: &TrackMetadata) -> (out: String)
    ensures
        out@ == album_artist_label(metadata@.artists),
{
    if metadata.artists.len() == 0 {
        String::new()
    } else {
        metadata.artists[0].name.clone()
    }
}

/// The album's directory name, before sanitization.
pub fn album_segment(metadata: &TrackMetadata) -> (out: String)
    ensures
        out@ == album_label(metadata@.album_name, metadata@.num_discs, metadata@.disc_number),
{
    let mut out = metadata.album.name.clone();
    if metadata.album.num_discs > 1 {
        out.append(" (Disc ");
        push_decimal(&mut out, metadata.disc_number as u128);
        out.append(")");
    }
    out
}

/// The track's own file name under the album policy, before sanitization.
pub fn track_segment(metadata: &TrackMetadata) -> (out: String)
    ensures
        out@ == track_label(metadata@.number, metadata@.track_name),
{
    let mut out = String::new();
    if metadata.number < 10 {
        push_char(&mut out, '0');
    }
    let ghost pad = out@;
    push_decimal(&mut out, metadata.number as u128);
    proof {
        if metadata.number < 10 {
            assert(pad =~= seq!['0']);
        } else {
            assert(pad + decimal(metadata.number as nat) =~= decimal(metadata.number as nat));
        }
    }
    out.append(" ");
    out.append(metadata.track_name.as_str());
    out
}

/// The relative file name of a track under `structure`, without extension.
pub fn get_file_name(metadata: &TrackMetadata, structure: FolderStructure, ascii_only: bool) -> (name:
    String)
    ensures
        name@ == file_name(metadata@, structure, ascii_only),
{
    let mut parts: Vec<String> = Vec::new();
    match structure {
        FolderStructure::FLAT => {
            let mut label = artists_name(metadata);
            label.append(" - ");
            label.append(metadata.track_name.as_str());
            parts.push(label);
        },
        FolderStructure::ALBUM => {
            parts.push(album_artist_name(metadata));
            parts.push(album_segment(metadata));
            parts.push(track_segment(metadata));
        },
    }
    assert(views(parts@) =~= segments(metadata@, structure));
    let mut cleaned: Vec<String> = Vec::new();
    let mut i: usize = 0;
    while i < parts.len()
        invariant
            i <= parts.len(),
            views(cleaned@) == views(parts@).take(i as int).map_values(sanitizer(ascii_only)),
        decreases parts.len() - i,
    {
        let part = clean_file_name(parts[i].clone(), ascii_only);
        let ghost before = cleaned@;
        cleaned.push(part);
        proof {
            assert(views(before.push(part)) =~= views(before).push(part@));
            assert(views(parts@).take(i + 1) =~= views(parts@).take(i as int).push(parts@[i as int]@));
            assert(views(parts@).take(i + 1).map_values(sanitizer(ascii_only)) =~= views(
                parts@,
            ).take(i as int).map_values(sanitizer(ascii_only)).push(part@));
        }
        i += 1;
    }
    assert(views(parts@).take(parts.len() as int) =~= views(parts@));
    join_strings(&cleaned, "/")
}

/// Suffixes a file name with a dot and the extension of `format`.
pub fn add_extension(name: String, format: Format) -> (path: String)
    ensures
        path@ == name@ + "."@ + format.extension_text(),
{
    let mut path = name;
    path.append(".");
    path.append(format.extension());
    path
}

/// The relative path of a track's file under `structure`, with the
/// extension of `format`.
pub fn get_relative_path(
    metadata: &TrackMetadata,
    structure: FolderStructure,
    format: Format,
    ascii_only: bool,
) -> (path: String)
    ensures
        path@ == relative_path(metadata@, structure, format, ascii_only),
{
    add_extension(get_file_name(metadata, structure, ascii_only), format)
}

/// Up to three artists are all listed, in their order, with `", "` between
/// them; of more than three, the first three are listed and the marker follows.
pub proof fn lemma_artists_label(names: Seq<Seq<char>>)
    ensures
        names.len() <= 3 ==> artists_label(names) == join(names, ", "@),
        names.len() == 0 ==> artists_label(names) == Seq::<char>::empty(),
        names.len() == 1 ==> artists_label(names) == names[0],
        names.len() == 2 ==> artists_label(names) == names[0] + ", "@ + names[1],
        names.len() == 3 ==> artists_label(names) == names[0] + ", "@ + names[1] + ", "@
            + names[2],
        names.len() > 3 ==> artists_label(names) == names[0] + ", "@ + names[1] + ", "@ + names[2]
            + ", "@ + others_marker(),
{
    reveal_with_fuel(join, 5);
    let sep = ", "@;
    if names.len() == 2 {
        assert(names.drop_last() =~= seq![names[0]]);
    } else if names.len() == 3 {
        assert(names.drop_last() =~= seq![names[0], names[1]]);
        assert(names.drop_last().drop_last() =~= seq![names[0]]);
    } else if names.len() > 3 {
        let shown = names.take(3).push(others_marker());
        assert(shown.drop_last() =~= seq![names[0], names[1], names[2]]);
        assert(shown.drop_last().drop_last() =~= seq![names[0], names[1]]);
        assert(shown.drop_last().drop_last().drop_last() =~= seq![names[0]]);
    }
}

/// The album's directory is the album's name where the album has one disc,
/// and names the disc where it has more.
pub proof fn lemma_album_label(album: Seq<char>, num_discs: nat, disc_number: nat)
    ensures
        num_discs == 1 ==> album_label(album, num_discs, disc_number) == album,
        num_discs > 1 ==> album_label(album, num_discs, disc_number) == album + " (Disc "@
            + decimal(disc_number) + ")"@,
{
}

/// A padded track number is exactly two digits wide up to 99, and the plain
/// number, in full, from 100 on.
pub proof fn lemma_padded_number(n: nat)
    ensures
        n < 100 ==> padded_number(n) == seq![digit_char(n / 10), digit_char(n % 10)],
        n >= 100 ==> padded_number(n) == decimal(n) && padded_number(n).len() >= 3,
        is_clean(padded_number(n), true),
{
    lemma_decimal_len(n);
    lemma_decimal_digits(n);
    if n < 10 {
        assert(seq!['0'] + seq![digit_char(n)] =~= seq![digit_char(0), digit_char(n)]);
    }
    assert forall|i: int| 0 <= i < padded_number(n).len() implies is_allowed(
        #[trigger] padded_number(n)[i],
        true,
    ) by {
        if n < 10 {
            if i > 0 {
                assert(padded_number(n)[i] == decimal(n)[i - 1]);
                assert(is_digit(decimal(n)[i - 1]));
            }
        } else {
            assert(is_digit(decimal(n)[i]));
        }
    }
}

/// Sanitization leaves the number of a track label as it is: the sanitized
/// label is the padded number, a space and the sanitized title.
pub proof fn lemma_track_label_sanitized(number: nat, title: Seq<char>, ascii_only: bool)
    ensures
        sanitized(track_label(number, title), ascii_only) == padded_number(number) + " "@
            + sanitized(title, ascii_only),
{
    reveal_strlit(" ");
    let head = padded_number(number) + " "@;
    lemma_padded_number(number);
    assert forall|i: int| 0 <= i < head.len() implies is_allowed(#[trigger] head[i], ascii_only) by {
        if i < padded_number(number).len() {
            assert(is_allowed(padded_number(number)[i], true));
        }
    }
    lemma_sanitized_of_clean(head, ascii_only);
    lemma_sanitized_concat(head, title, ascii_only);
}

/// Under the album policy a name has three segments, each sanitized on its
/// own: album artist, album directory, numbered title.
pub proof fn lemma_album_file_name(m: TrackMetadataView, ascii_only: bool)
    ensures
        file_name(m, FolderStructure::ALBUM, ascii_only) == sanitized(
            album_artist_label(m.artists),
            ascii_only,
        ) + "/"@ + sanitized(album_label(m.album_name, m.num_discs, m.disc_number), ascii_only)
            + "/"@ + padded_number(m.number) + " "@ + sanitized(m.track_name, ascii_only),
{
    reveal_with_fuel(join, 4);
    let parts = segments(m, FolderStructure::ALBUM).map_values(sanitizer(ascii_only));
    assert(parts.drop_last() =~= seq![parts[0], parts[1]]);
    assert(parts.drop_last().drop_last() =~= seq![parts[0]]);
    lemma_track_label_sanitized(m.number, m.track_name, ascii_only);
    let a = parts[0] + "/"@ + parts[1] + "/"@;
    let n = padded_number(m.number);
    let t = sanitized(m.track_name, ascii_only);
    assert(a + (n + " "@ + t) =~= a + n + " "@ + t);
}

/// Under the flat policy a name is one sanitized segment: artists, `" - "`, title.
pub proof fn lemma_flat_file_name(m: TrackMetadataView, ascii_only: bool)
    ensures
        file_name(m, FolderStructure::FLAT, ascii_only) == sanitized(
            artists_label(m.artists) + " - "@ + m.track_name,
            ascii_only,
        ),
{
    reveal_with_fuel(join, 2);
}

/// No segment of a file name holds a character that is not allowed: the
/// only `/` of a name are those between its segments.
pub proof fn lemma_segments_are_clean(m: TrackMetadataView, structure: FolderStructure, ascii_only: bool)
    ensures
        forall|k: int|
            0 <= k < segments(m, structure).len() ==> is_clean(
                #[trigger] segments(m, structure).map_values(sanitizer(ascii_only))[k],
                ascii_only,
            ),
{
    assert forall|k: int| 0 <= k < segments(m, structure).len() implies is_clean(
        #[trigger] segments(m, structure).map_values(sanitizer(ascii_only))[k],
        ascii_only,
    ) by {
        lemma_sanitized_is_clean(segments(m, structure)[k], ascii_only);
    }
}

} // verus!
