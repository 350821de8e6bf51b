//! Debug screenshots and input requests driven by files: a
//! `shot-<nonce>.request` file in the debug folder asks for a capture,
//! `hold-`, `release-` and `tap-<action>` files drive the injected input
//! layer. This module reads the folder's file names and turns a captured
//! frame into the RGB pixels a screenshot stores; the caller lists the
//! folder, consumes the files and writes the image.

use vstd::prelude::*;

use crate::screen::{GAME_HEIGHT, GAME_WIDTH};
use crate::text::{
    ends_with,
    has_prefix,
    has_suffix,
    slice_text,
    sort_texts,
    starts_with,
    texts_sorted,
};

verus! {

/// The name between `prefix` and `.request` in a request file's name.
pub open spec fn request_name(file: Seq<char>, prefix: Seq<char>) -> Option<Seq<char>> {
    if starts_with(file, prefix) {
        let rest = file.skip(prefix.len() as int);
        if ends_with(rest, ".request"@) {
            Some(rest.take(rest.len() - 8))
        } else {
            None
        }
    } else {
        None
    }
}

/// The request names among `files`, in listing order.
pub open spec fn request_names(files: Seq<Seq<char>>, prefix: Seq<char>) -> Seq<Seq<char>>
    decreases files.len(),
{
    if files.len() == 0 {
        seq![]
    } else {
        let rest = request_names(files.drop_last(), prefix);
        match request_name(files.last(), prefix) {
            Some(n) => rest.push(n),
            None => rest,
        }
    }
}

/// Finds the pending `<prefix><name>.request` files among a folder's
/// file names and returns their names, sorted.
pub fn scan_requests(files: &[String], prefix: &str) -> (names: Vec<String>)
    ensures
        texts_sorted(names@.map_values(|s: String| s@)),
        names@.map_values(|s: String| s@).to_multiset() == request_names(
            files@.map_values(|s: String| s@),
            prefix@,
        ).to_multiset(),
{
    let ghost ft = files@.map_values(|s: String| s@);
    let mut found: Vec<String> = Vec::new();
    let mut i: usize = 0;
    assert(ft.take(0) =~= Seq::<Seq<char>>::empty());
    assert(found@.map_values(|s: String| s@) =~= Seq::<Seq<char>>::empty());
    while i < files.len()
        invariant
            i <= files@.len(),
            ft == files@.map_values(|s: String| s@),
            found@.map_values(|s: String| s@) == request_names(ft.take(i as int), prefix@),
        decreases files@.len() - i,
    {
        assert(ft.take(i + 1).drop_last() =~= ft.take(i as int));
        assert(ft.take(i + 1).last() == files@[i as int]@);
        let file = files[i].as_str();
        if has_prefix(file, prefix) {
            let rest = slice_text(file, prefix.unicode_len(), file.unicode_len());
            assert(rest@ =~= file@.skip(prefix@.len() as int));
            if has_suffix(rest.as_str(), ".request") {
                proof {
                    reveal_strlit(".request");
                }
                let name = slice_text(rest.as_str(), 0, rest.as_str().unicode_len() - 8);
                assert(name@ =~= rest@.take(rest@.len() - 8));
                let ghost before = found@.map_values(|s: String| s@);
                found.push(name);
                assert(found@.map_values(|s: String| s@) =~= before.push(name@));
            }
        }
        i = i + 1;
    }
    assert(ft.take(files@.len() as int) =~= ft);
    sort_texts(found)
}

/// Finds the pending screenshot requests.
pub fn scan_shot_requests(files: &[String]) -> (names: Vec<String>)
    ensures
        texts_sorted(names@.map_values(|s: String| s@)),
        names@.map_values(|s: String| s@).to_multiset() == request_names(
            files@.map_values(|s: String| s@),
            "shot-"@,
        ).to_multiset(),
{
    scan_requests(files, "shot-")
}

/// How many bytes a read-back frame of the game image holds (RGBA).
pub open spec fn frame_bytes() -> int {
    GAME_WIDTH * GAME_HEIGHT * 4
}

/// Whether read-back data is a whole game frame, so it can be saved.
pub fn is_full_frame(len: usize) -> (r: bool)
    ensures
        r == (len == frame_bytes()),
{
    let width: usize = GAME_WIDTH as usize;
    let height: usize = GAME_HEIGHT as usize;
    assert(width == 320 && height == 240);
    assert(width * height * 4 == 307200) by (nonlinear_arith)
        requires
            width == 320,
            height == 240,
    ;
    len == width * height * 4
}

/// Channel `k` of pixel `i` in RGB bytes.
pub open spec fn rgb_at(v: Seq<u8>, i: int, k: int) -> u8 {
    v[3 * i + k]
}

/// Channel `k` of pixel `i` in RGBA bytes.
pub open spec fn rgba_at(data: Seq<u8>, i: int, k: int) -> u8 {
    data[4 * i + k]
}

/// `v` is the first `pixels` RGBA pixels of `data` as RGB: each pixel's
/// red, green and blue bytes in order, its alpha byte dropped.
pub open spec fn rgb_of(v: Seq<u8>, data: Seq<u8>, pixels: int) -> bool {
    &&& v.len() == 3 * pixels
    &&& forall|i: int, k: int| 0 <= i < pixels && 0 <= k < 3 ==> #[trigger] rgb_at(v, i, k) == rgba_at(data, i, k)
}

/// Converts RGBA pixel bytes to RGB with `image::RgbaImage::from_raw`
/// and `image::DynamicImage::to_rgb8`. `from_raw` accepts the bytes
/// exactly when they hold the `width * height` pixels of four bytes each
/// (a product past `usize` is refused too, and no such buffer exists);
/// the conversion of 8-bit RGBA to RGB in the same colour space keeps
/// each pixel's red, green and blue bytes and drops its alpha byte.
#[verifier::external_body]
fn rgb_frame(width: u32, height: u32, data: Vec<u8>) -> (r: Option<Vec<u8>>)
    ensures
        r is Some <==> 4 * width * height <= data@.len(),
        r matches Some(v) ==> rgb_of(v@, data@, width * height),
{
    match image::RgbaImage::from_raw(width, height, data) {
        Some(rgba) => Some(image::DynamicImage::ImageRgba8(rgba).to_rgb8().into_raw()),
        None => None,
    }
}

/// The RGB pixels a screenshot stores for a read-back frame of the game
/// image: none unless the frame is whole (see [`is_full_frame`]).
pub fn screenshot_rgb(data: Vec<u8>) -> (r: Option<Vec<u8>>)
    ensures
        r is Some <==> data@.len() == frame_bytes(),
        r matches Some(v) ==> rgb_of(v@, data@, GAME_WIDTH * GAME_HEIGHT),
{
    if !is_full_frame(data.len()) {
        return None;
    }
    assert(4 * GAME_WIDTH * GAME_HEIGHT == frame_bytes()) by (nonlinear_arith)
        requires
            GAME_WIDTH == 320,
            GAME_HEIGHT == 240,
    ;
    rgb_frame(GAME_WIDTH, GAME_HEIGHT, data)
}

/// A request file's name is its prefix, the request's name and
/// `.request`: writing a name that way reads it back, and every name read
/// back came from a file spelled that way.
pub proof fn lemma_request_file_names(prefix: Seq<char>, name: Seq<char>, file: Seq<char>)
    ensures
        request_name(prefix + name + ".request"@, prefix) == Some(name),
        request_name(file, prefix) is Some ==> file == prefix + request_name(file, prefix)->0 + ".request"@,
{
    reveal_strlit(".request");
    let f = prefix + name + ".request"@;
    assert(f.take(prefix.len() as int) =~= prefix);
    let rest = f.skip(prefix.len() as int);
    assert(rest =~= name + ".request"@);
    assert(rest.skip(rest.len() - 8) =~= ".request"@);
    assert(rest.take(rest.len() - 8) =~= name);
    if request_name(file, prefix) is Some {
        let r = file.skip(prefix.len() as int);
        let n = r.take(r.len() - 8);
        assert(r =~= n + ".request"@);
        assert(file =~= prefix + r);
        assert(file =~= prefix + n + ".request"@);
    }
}

} // verus!
