//! Where saves go and what a thumbnail is made of.
use crate::paths::{
    clean, clean_part, clean_path, cleaned, law_cleaning_is_idempotent, lemma_clean_of_joined,
    lemma_kept_parts_clean, path_pieces, PartRule,
};
use crate::strs::{
    concat, copy_bytes, copy_text, decimal_of, decimal_text, ends_with, has_prefix, has_suffix,
    join, lower, same_text, starts_with, strip, stripped, to_lower,
};
use crate::runtime::wait::{WaitState, Waiting};
use vstd::prelude::*;

verus! {

// ── Paths ──────────────────────────────────────────────────────

/// The directory for saves that a configured path comes to.
pub open spec fn savepath_of(raw: Option<Seq<char>>) -> Seq<char> {
    match raw {
        Some(path) => match clean_path(PartRule::Lenient, path) {
            Some(clean) => clean,
            None => "save"@,
        },
        None => "save"@,
    }
}

/// Makes a clean relative directory of a configured path: slashes of one kind,
/// no empty, dotted or drive-like parts, and `save` where nothing is left.
pub fn sanitize_savepath(raw: Option<&str>) -> (out: String)
    ensures
        out@ == savepath_of(
            match raw {
                Some(path) => Some(path@),
                None => None,
            },
        ),
{
    match raw {
        Some(path) => match cleaned(PartRule::Lenient, path) {
            Some(clean) => clean,
            None => copy_text("save"),
        },
        None => copy_text("save"),
    }
}

/// A clean path below a prefix, unless it is there already.
pub open spec fn below(prefix: Seq<char>, file: Seq<char>) -> Seq<char> {
    if prefix.len() == 0 || file == prefix || has_prefix(file, prefix + "/"@) {
        file
    } else {
        prefix + "/"@ + file
    }
}

/// The save path of a file, or `None` where the file's own path is invalid.
pub open spec fn qualified(file: Seq<char>, savepath: Seq<char>) -> Option<Seq<char>> {
    match clean_path(PartRule::Strict, file) {
        Some(clean) => Some(below(strip(savepath, '/'), clean)),
        None => None,
    }
}

/// The save path of a file: clean, and below the save directory, which is put
/// in front once at most.
pub fn qualify_save_path(file: &str, savepath: &str) -> (out: Result<String, String>)
    ensures
        out is Ok <==> qualified(file@, savepath@) is Some,
        out matches Ok(path) ==> qualified(file@, savepath@) == Some(path@),
        out matches Err(message) ==> message@ == "非法存档路径: "@ + file@,
{
    let clean = match cleaned(PartRule::Strict, file) {
        Some(clean) => clean,
        None => return Err(concat("非法存档路径: ", file)),
    };
    let prefix = stripped(savepath, '/');
    let open = concat(prefix.as_str(), "/");
    if prefix.as_str().is_empty() || same_text(clean.as_str(), prefix.as_str()) || starts_with(
        clean.as_str(),
        open.as_str(),
    ) {
        Ok(clean)
    } else {
        Ok(concat(open.as_str(), clean.as_str()))
    }
}

/// The join of two lists is their joins with a slash between.
proof fn lemma_join_append(a: Seq<Seq<char>>, b: Seq<Seq<char>>)
    requires
        a.len() > 0,
        b.len() > 0,
    ensures
        join(a + b, '/') == join(a, '/') + "/"@ + join(b, '/'),
    decreases b.len(),
{
    reveal_strlit("/");
    assert("/"@ =~= seq!['/']);
    reveal_with_fuel(join, 2);
    assert((a + b).drop_last() =~= a + b.drop_last());
    if b.len() == 1 {
        assert(a + b.drop_last() =~= a);
        assert(join(a + b, '/') =~= join(a, '/') + "/"@ + join(b, '/'));
    } else {
        lemma_join_append(a, b.drop_last());
        assert(join(a + b, '/') =~= join(a, '/') + "/"@ + join(b, '/'));
    }
}

/// The parts that make up a path which is its own clean path.
proof fn lemma_parts_of(path: Seq<char>)
    requires
        clean_path(PartRule::Strict, path) is Some,
    ensures
        clean(PartRule::Strict, path) is Some,
        clean(PartRule::Strict, path)->0.len() > 0,
        forall|i: int|
            0 <= i < clean(PartRule::Strict, path)->0.len() ==> clean_part(
                PartRule::Strict,
                #[trigger] clean(PartRule::Strict, path)->0[i],
            ),
{
    let pieces = path_pieces(path);
    lemma_kept_parts_clean(PartRule::Strict, path, pieces.len() as int);
    assert(pieces.take(pieces.len() as int) =~= pieces);
}

/// Save paths are qualified once: a save path qualified again is the same, for
/// every save directory that is empty or its own clean path.
pub proof fn law_save_paths_are_qualified_once(file: Seq<char>, savepath: Seq<char>)
    requires
        qualified(file, savepath) is Some,
        strip(savepath, '/').len() == 0 || clean_path(PartRule::Strict, strip(savepath, '/'))
            == Some(strip(savepath, '/')),
    ensures
        qualified(qualified(file, savepath)->0, savepath) == qualified(file, savepath),
{
    let prefix = strip(savepath, '/');
    let name = clean_path(PartRule::Strict, file)->0;
    law_cleaning_is_idempotent(PartRule::Strict, file);
    let path = below(prefix, name);
    if path != name {
        let a = clean(PartRule::Strict, prefix)->0;
        let b = clean(PartRule::Strict, name)->0;
        lemma_parts_of(prefix);
        lemma_parts_of(name);
        lemma_join_append(a, b);
        assert forall|i: int| 0 <= i < (a + b).len() implies clean_part(
            PartRule::Strict,
            #[trigger] (a + b)[i],
        ) by {
            if i < a.len() {
                assert(clean_part(PartRule::Strict, a[i]));
            } else {
                assert(clean_part(PartRule::Strict, b[i - a.len()]));
            }
        }
        lemma_clean_of_joined(PartRule::Strict, a + b);
        assert(path.take((prefix + "/"@).len() as int) =~= prefix + "/"@);
    }
}

/// A save path stays below the save directory: it holds no parent part, and it
/// is the directory itself, below it, or relative where there is none.
pub proof fn law_save_paths_stay_below(file: Seq<char>, savepath: Seq<char>)
    requires
        qualified(file, savepath) is Some,
    ensures
        strip(savepath, '/').len() > 0 ==> (qualified(file, savepath)->0 == strip(savepath, '/')
            || has_prefix(qualified(file, savepath)->0, strip(savepath, '/') + "/"@)),
        !clean(PartRule::Strict, file)->0.contains(".."@),
{
    let prefix = strip(savepath, '/');
    let name = clean_path(PartRule::Strict, file)->0;
    let path = below(prefix, name);
    assert((prefix + "/"@ + name).take((prefix + "/"@).len() as int) =~= prefix + "/"@);
    lemma_parts_of(file);
    let parts = clean(PartRule::Strict, file)->0;
    if parts.contains(".."@) {
        let i = choose|i: int| 0 <= i < parts.len() && parts[i] == ".."@;
        assert(clean_part(PartRule::Strict, parts[i]));
    }
}

/// What of the global state is kept between sessions.
#[derive(Clone, Copy, Debug, PartialEq, Eq, Structural)]
pub enum SaveScope {
    Global,
    System,
}

/// The file that holds a scope.
pub open spec fn scope_file(scope: SaveScope) -> Seq<char> {
    match scope {
        SaveScope::Global => "saveg.dat"@,
        SaveScope::System => "system.dat"@,
    }
}

/// The prefix of a scope's variables.
pub open spec fn scope_prefix(scope: SaveScope) -> Seq<char> {
    match scope {
        SaveScope::Global => "g."@,
        SaveScope::System => "s."@,
    }
}

/// The path under which a scope is kept.
pub fn scope_path(scope: SaveScope, savepath: &str) -> (out: Result<String, String>)
    ensures
        out is Ok <==> qualified(scope_file(scope), savepath@) is Some,
        out matches Ok(path) ==> qualified(scope_file(scope), savepath@) == Some(path@),
        out matches Err(message) ==> message@ == "非法存档路径: "@ + scope_file(scope),
{
    match scope {
        SaveScope::Global => qualify_save_path("saveg.dat", savepath),
        SaveScope::System => qualify_save_path("system.dat", savepath),
    }
}

/// The variable that a kept entry is read back into.
pub fn scope_variable(scope: SaveScope, key: &str) -> (out: String)
    ensures
        out@ == scope_prefix(scope) + key@,
{
    match scope {
        SaveScope::Global => concat("g.", key),
        SaveScope::System => concat("s.", key),
    }
}

// ── Thumbnails ─────────────────────────────────────────────────

/// A captured picture, with the scene that it shows.
pub struct ScreenshotBuffer<S> {
    pub width: u32,
    pub height: u32,
    pub rgba: Vec<u8>,
    pub scene: S,
}

/// The longest side of a picture that is scaled.
pub const MAX_SIDE: u32 = 1048576;

/// Whether a picture can be scaled: no side is too long, and neither the result
/// nor the picture between the two passes is larger than an allocation.
pub open spec fn scalable(width: u32, height: u32, target_width: u32, target_height: u32) -> bool {
    &&& width <= MAX_SIDE && height <= MAX_SIDE
    &&& target_width <= MAX_SIDE && target_height <= MAX_SIDE
    &&& width * target_height * 16 <= isize::MAX
    &&& target_width * target_height * 4 <= isize::MAX
}

/// The pixels of a picture scaled by linear interpolation.
pub uninterp spec fn resized_pixels(
    rgba: Seq<u8>,
    width: u32,
    height: u32,
    target_width: u32,
    target_height: u32,
) -> Seq<u8>;

/// Scales RGBA pixels.
///
/// Calls `image::RgbaImage::from_raw`, which takes the bytes where they are
/// enough for the picture, and `image::imageops::resize` with the triangle
/// filter, whose result has the size asked for.
#[verifier::external_body]
fn scale_rgba(rgba: Vec<u8>, width: u32, height: u32, target_width: u32, target_height: u32) -> (out:
    Option<Vec<u8>>)
    requires
        width * height * 4 <= rgba@.len() ==> scalable(width, height, target_width, target_height),
    ensures
        out is Some <==> width * height * 4 <= rgba@.len(),
        out matches Some(pixels) ==> pixels@ == resized_pixels(
            rgba@,
            width,
            height,
            target_width,
            target_height,
        ) && pixels@.len() == target_width * target_height * 4,
{
    let image = image::RgbaImage::from_raw(width, height, rgba)?;
    let filter = image::imageops::FilterType::Triangle;
    Some(image::imageops::resize(&image, target_width, target_height, filter).into_raw())
}

/// The pixels that a thumbnail of a given size is made of.
pub open spec fn thumbnail_pixels(
    rgba: Seq<u8>,
    width: u32,
    height: u32,
    target_width: u32,
    target_height: u32,
) -> Option<Seq<u8>> {
    if width == target_width && height == target_height {
        Some(rgba)
    } else if width * height * 4 <= rgba.len() {
        Some(resized_pixels(rgba, width, height, target_width, target_height))
    } else {
        None
    }
}

/// What is said of a picture whose bytes are too few.
pub open spec fn short_picture_text(width: u32, height: u32, len: nat) -> Seq<char> {
    "截图 RGBA 长度不匹配: "@ + decimal_text(width as nat) + "x"@ + decimal_text(height as nat)
        + " len="@ + decimal_text(len)
}

/// Scales a captured picture to a size; at its own size it is taken as it is.
pub fn resize_screenshot_rgba<S>(
    screenshot: &ScreenshotBuffer<S>,
    target_width: u32,
    target_height: u32,
) -> (out: Result<Vec<u8>, String>)
    requires
        screenshot.width * screenshot.height * 4 <= screenshot.rgba@.len() ==> ((screenshot.width
            == target_width && screenshot.height == target_height) || scalable(
            screenshot.width,
            screenshot.height,
            target_width,
            target_height,
        )),
    ensures
        out is Ok <==> thumbnail_pixels(
            screenshot.rgba@,
            screenshot.width,
            screenshot.height,
            target_width,
            target_height,
        ) is Some,
        out matches Ok(pixels) ==> thumbnail_pixels(
            screenshot.rgba@,
            screenshot.width,
            screenshot.height,
            target_width,
            target_height,
        ) == Some(pixels@),
        out matches Ok(pixels) ==> (screenshot.width != target_width || screenshot.height
            != target_height) ==> pixels@.len() == target_width * target_height * 4,
        out matches Err(message) ==> message@ == short_picture_text(
            screenshot.width,
            screenshot.height,
            screenshot.rgba@.len(),
        ),
{
    if screenshot.width == target_width && screenshot.height == target_height {
        return Ok(copy_bytes(screenshot.rgba.as_slice()));
    }
    let pixels = copy_bytes(screenshot.rgba.as_slice());
    match scale_rgba(pixels, screenshot.width, screenshot.height, target_width, target_height) {
        Some(scaled) => Ok(scaled),
        None => {
            let mut message = concat(
                "截图 RGBA 长度不匹配: ",
                decimal_of(screenshot.width as u64).as_str(),
            );
            message.append("x");
            message.append(decimal_of(screenshot.height as u64).as_str());
            message.append(" len=");
            message.append(decimal_of(screenshot.rgba.len() as u64).as_str());
            Err(message)
        },
    }
}

/// What a file or a message holds.
pub open spec fn file_outcome(out: Result<Vec<u8>, String>) -> Result<Seq<u8>, Seq<char>> {
    match out {
        Ok(bytes) => Ok(bytes@),
        Err(message) => Err(message@),
    }
}

/// The PNG file of RGBA pixels, or what is said where there is none.
pub uninterp spec fn png_encoded(rgba: Seq<u8>, width: u32, height: u32) -> Result<
    Seq<u8>,
    Seq<char>,
>;

/// Writes RGBA pixels as a PNG file.
///
/// Calls `image::codecs::png::PngEncoder::write_image` with eight bits for each
/// of four channels, into memory. It fails on an empty picture and nowhere
/// else.
#[verifier::external_body]
fn write_png(rgba: &[u8], width: u32, height: u32) -> (out: Result<Vec<u8>, String>)
    requires
        rgba@.len() == width * height * 4,
    ensures
        (out is Ok) == (width != 0 && height != 0),
        file_outcome(out) == png_encoded(rgba@, width, height),
{
    let mut png = Vec::new();
    let encoder = image::codecs::png::PngEncoder::new(&mut png);
    let color = image::ColorType::Rgba8.into();
    match image::ImageEncoder::write_image(encoder, rgba, width, height, color) {
        Ok(()) => Ok(png),
        Err(error) => Err(error.to_string()),
    }
}

/// What is said of pixels whose number is not that of the picture.
pub open spec fn wrong_length_text(width: u32, height: u32, len: nat) -> Seq<char> {
    "PNG RGBA 长度不匹配: "@ + decimal_text(width as nat) + "x"@ + decimal_text(height as nat)
        + " expected="@ + decimal_text((width * height * 4) as nat) + " actual="@ + decimal_text(
        len,
    )
}

/// The PNG file of pixels, which must be as many as the size says.
pub open spec fn png_of(rgba: Seq<u8>, width: u32, height: u32) -> Result<Seq<u8>, Seq<char>> {
    if rgba.len() == width * height * 4 {
        png_encoded(rgba, width, height)
    } else {
        Err(wrong_length_text(width, height, rgba.len()))
    }
}

/// Writes RGBA pixels as a PNG file.
pub fn encode_png_rgba(rgba: &[u8], width: u32, height: u32) -> (out: Result<Vec<u8>, String>)
    requires
        width * height * 4 <= usize::MAX,
    ensures
        out is Ok <==> (rgba@.len() == width * height * 4 && width > 0 && height > 0),
        file_outcome(out) == png_of(rgba@, width, height),
{
    assert(width * height >= 0) by (nonlinear_arith)
        requires
            width >= 0,
            height >= 0,
    ;
    let expected: usize = width as usize * height as usize * 4;
    if rgba.len() != expected {
        let mut message = concat("PNG RGBA 长度不匹配: ", decimal_of(width as u64).as_str());
        message.append("x");
        message.append(decimal_of(height as u64).as_str());
        message.append(" expected=");
        message.append(decimal_of(expected as u64).as_str());
        message.append(" actual=");
        message.append(decimal_of(rgba.len() as u64).as_str());
        return Err(message);
    }
    write_png(rgba, width, height)
}

/// The resource name and the file name of a thumbnail: without and with the
/// ending `.png`.
pub open spec fn thumbnail_names(name: Seq<char>) -> (Seq<char>, Seq<char>) {
    if has_suffix(lower(name), ".png"@) {
        (name.take(name.len() - 4), name)
    } else {
        (name, name + ".png"@)
    }
}

/// The resource name and the path of a thumbnail. A name that holds nothing but
/// the ending has no resource name.
pub open spec fn thumbnail_paths(file: Seq<char>, savepath: Seq<char>) -> Result<
    (Seq<char>, Seq<char>),
    Seq<char>,
> {
    match clean_path(PartRule::Strict, file) {
        Some(name) => {
            let (resource, png) = thumbnail_names(name);
            match (qualified(resource, savepath), qualified(png, savepath)) {
                (Some(r), Some(p)) => Ok((r, p)),
                (None, _) => Err("非法存档路径: "@ + resource),
                (_, None) => Err("非法存档路径: "@ + png),
            }
        },
        None => Err("非法缩略图路径: "@ + file),
    }
}

/// What two paths or a message hold.
pub open spec fn paths_outcome(out: Result<(String, String), String>) -> Result<
    (Seq<char>, Seq<char>),
    Seq<char>,
> {
    match out {
        Ok((resource, path)) => Ok((resource@, path@)),
        Err(message) => Err(message@),
    }
}

/// The resource name and the path of a thumbnail.
pub fn screenshot_paths_for(file: &str, savepath: &str) -> (out: Result<(String, String), String>)
    ensures
        paths_outcome(out) == thumbnail_paths(file@, savepath@),
{
    let name = match cleaned(PartRule::Strict, file) {
        Some(name) => name,
        None => return Err(concat("非法缩略图路径: ", file)),
    };
    let low = to_lower(name.as_str());
    let has_ending = ends_with(low.as_str(), ".png");
    let chars = crate::strs::chars_of(name.as_str());
    proof {
        reveal_strlit(".png");
        assert(lower(name@).len() == name@.len());
    }
    let resource = if has_ending {
        crate::strs::string_of_range(&chars, 0, chars.len() - 4)
    } else {
        copy_text(name.as_str())
    };
    assert(has_ending ==> resource@ =~= name@.take(name@.len() - 4));
    let png = if has_ending {
        name
    } else {
        concat(name.as_str(), ".png")
    };
    match qualify_save_path(resource.as_str(), savepath) {
        Ok(r) => match qualify_save_path(png.as_str(), savepath) {
            Ok(p) => Ok((r, p)),
            Err(message) => Err(message),
        },
        Err(message) => Err(message),
    }
}

/// A thumbnail on its way to disk.
pub struct Thumbnail {
    pub resource: String,
    pub path: String,
    pub png: Vec<u8>,
    pub rgba: Vec<u8>,
    pub width: u32,
    pub height: u32,
}

/// What a thumbnail holds.
pub struct ThumbnailRecord {
    pub resource: Seq<char>,
    pub path: Seq<char>,
    pub png: Seq<u8>,
    pub rgba: Seq<u8>,
    pub width: u32,
    pub height: u32,
}

impl View for Thumbnail {
    type V = ThumbnailRecord;

    open spec fn view(&self) -> ThumbnailRecord {
        ThumbnailRecord {
            resource: self.resource@,
            path: self.path@,
            png: self.png@,
            rgba: self.rgba@,
            width: self.width,
            height: self.height,
        }
    }
}

/// A side of a thumbnail: the one asked for, else the picture's own, and one at
/// least.
pub open spec fn thumbnail_side(asked: Option<u32>, own: u32) -> u32 {
    let side = match asked {
        Some(n) => n,
        None => own,
    };
    if side == 0 {
        1
    } else {
        side
    }
}

fn side_of(asked: Option<u32>, own: u32) -> (out: u32)
    ensures
        out == thumbnail_side(asked, own),
{
    let side: u32 = match asked {
        Some(n) => n,
        None => own,
    };
    if side == 0 {
        1
    } else {
        side
    }
}

/// The thumbnail of a captured picture, or the message of what stands against
/// it: first the missing picture, then its size, the PNG file and the path.
pub open spec fn thumbnail_outcome<S>(
    screenshot: Option<&ScreenshotBuffer<S>>,
    file: Seq<char>,
    width: Option<u32>,
    height: Option<u32>,
    savepath: Seq<char>,
) -> Result<ThumbnailRecord, Seq<char>> {
    match screenshot {
        None => Err("savess 前没有 takess 缓存，跳过以避免截到保存界面"@),
        Some(shot) => {
            let w = thumbnail_side(width, shot.width);
            let h = thumbnail_side(height, shot.height);
            match thumbnail_pixels(shot.rgba@, shot.width, shot.height, w, h) {
                None => Err(short_picture_text(shot.width, shot.height, shot.rgba@.len())),
                Some(rgba) => match png_of(rgba, w, h) {
                    Err(message) => Err(message),
                    Ok(png) => match thumbnail_paths(file, savepath) {
                        Err(message) => Err(message),
                        Ok((resource, path)) => Ok(
                            ThumbnailRecord { resource, path, png, rgba, width: w, height: h },
                        ),
                    },
                },
            }
        },
    }
}

/// What a thumbnail or a message holds.
pub open spec fn made(out: Result<Thumbnail, String>) -> Result<ThumbnailRecord, Seq<char>> {
    match out {
        Ok(thumbnail) => Ok(thumbnail@),
        Err(message) => Err(message@),
    }
}

/// Makes the thumbnail of a captured picture.
pub fn handle_save_screenshot<S>(
    screenshot: Option<&ScreenshotBuffer<S>>,
    file: &str,
    width: Option<u32>,
    height: Option<u32>,
    savepath: &str,
) -> (out: Result<Thumbnail, String>)
    requires
        screenshot matches Some(shot) ==> {
            let w = thumbnail_side(width, shot.width);
            let h = thumbnail_side(height, shot.height);
            &&& w * h * 4 <= usize::MAX
            &&& shot.width * shot.height * 4 <= shot.rgba@.len() ==> ((shot.width == w
                && shot.height == h) || scalable(shot.width, shot.height, w, h))
        },
    ensures
        made(out) == thumbnail_outcome(screenshot, file@, width, height, savepath@),
{
    let shot = match screenshot {
        Some(shot) => shot,
        None => return Err(copy_text("savess 前没有 takess 缓存，跳过以避免截到保存界面")),
    };
    let w: u32 = side_of(width, shot.width);
    let h: u32 = side_of(height, shot.height);
    let rgba = match resize_screenshot_rgba(shot, w, h) {
        Ok(rgba) => rgba,
        Err(message) => return Err(message),
    };
    let png = match encode_png_rgba(rgba.as_slice(), w, h) {
        Ok(png) => png,
        Err(message) => return Err(message),
    };
    match screenshot_paths_for(file, savepath) {
        Ok((resource, path)) => Ok(Thumbnail { resource, path, png, rgba, width: w, height: h }),
        Err(message) => Err(message),
    }
}

// ── Saving, loading and leaving a game ─────────────────────────

/// The scene that goes into a save: the one of the captured picture, or else
/// the one of this moment.
pub fn saved_scene<S>(screenshot: Option<ScreenshotBuffer<S>>, current: S) -> (out: S)
    ensures
        out == (match screenshot {
            Some(picture) => picture.scene,
            None => current,
        }),
{
    match screenshot {
        Some(picture) => picture.scene,
        None => current,
    }
}

/// Where a game begins again when it goes back to its title: a script and a
/// label in it. The script that the project starts with comes first.
pub open spec fn title_start(boot_script: Option<Seq<char>>) -> (Seq<char>, Seq<char>) {
    match boot_script {
        Some(script) => (script, "title"@),
        None => ("system/first.iet"@, "title"@),
    }
}

/// Goes back to the title: no layer is under the pointer, no picture is kept,
/// nothing is waited for, and the script begins at its title.
pub fn handle_go_title<S>(
    hovered: &mut Vec<String>,
    screenshot: &mut Option<ScreenshotBuffer<S>>,
    wait: &mut WaitState,
    boot_script: Option<&str>,
) -> (out: (String, String))
    ensures
        final(hovered)@.len() == 0,
        *final(screenshot) == None::<ScreenshotBuffer<S>>,
        final(wait)@ == (Waiting { reason: None, remaining_ms: 0 }),
        (out.0@, out.1@) == title_start(
            match boot_script {
                Some(script) => Some(script@),
                None => None,
            },
        ),
{
    hovered.clear();
    *screenshot = None;
    wait.wait_reason = None;
    wait.timed_remaining_ms = 0;
    let script = match boot_script {
        Some(script) => copy_text(script),
        None => copy_text("system/first.iet"),
    };
    (script, copy_text("title"))
}

/// Saves go to the path that the game names, once it is cleaned, and to `save`
/// where it names none or one that leads out.
pub proof fn law_saves_have_a_path(raw: Seq<char>)
    ensures
        savepath_of(None) == "save"@,
        clean_path(PartRule::Lenient, raw) is None ==> savepath_of(Some(raw)) == "save"@,
        clean_path(PartRule::Lenient, raw) matches Some(clean) ==> savepath_of(Some(raw)) == clean,
{
}

/// A file that is not below the path of saves yet is put there, behind a slash; one
/// that is stays as it is. A file whose own path is refused is refused.
pub proof fn law_files_go_below_the_path(prefix: Seq<char>, file: Seq<char>, savepath: Seq<char>)
    ensures
        prefix.len() == 0 ==> below(prefix, file) == file,
        below(prefix, prefix) == prefix,
        below(prefix, prefix + "/"@ + file) == prefix + "/"@ + file,
        prefix.len() > 0 && file != prefix && !has_prefix(file, prefix + "/"@) ==> below(
            prefix,
            file,
        ) == prefix + "/"@ + file,
        qualified(file, savepath) is Some <==> clean_path(PartRule::Strict, file) is Some,
        qualified(file, savepath) matches Some(path) ==> path == below(
            strip(savepath, '/'),
            clean_path(PartRule::Strict, file)->0,
        ),
{
    let whole = prefix + "/"@ + file;
    assert(whole.take((prefix + "/"@).len() as int) =~= prefix + "/"@);
}

/// What is kept between games has one file for each of the two kinds, and its
/// variables one prefix.
pub proof fn law_scopes_have_files()
    ensures
        scope_file(SaveScope::Global) == "saveg.dat"@,
        scope_file(SaveScope::System) == "system.dat"@,
        scope_prefix(SaveScope::Global) == "g."@,
        scope_prefix(SaveScope::System) == "s."@,
{
}

/// A thumbnail has the size that is asked for, or that of the picture, and no side
/// without pixels. Where that is the size of the picture the pixels are its own;
/// else they are scaled, if the picture has all of its own.
pub proof fn law_thumbnails_have_a_size(
    asked: Option<u32>,
    own: u32,
    rgba: Seq<u8>,
    width: u32,
    height: u32,
    target_width: u32,
    target_height: u32,
)
    ensures
        thumbnail_side(asked, own) >= 1,
        asked matches Some(n) ==> n > 0 ==> thumbnail_side(asked, own) == n,
        asked is None && own > 0 ==> thumbnail_side(asked, own) == own,
        asked == Some(0u32) || (asked is None && own == 0) ==> thumbnail_side(asked, own) == 1,
        thumbnail_pixels(rgba, width, height, width, height) == Some(rgba),
        width != target_width || height != target_height ==> {
            let out = thumbnail_pixels(rgba, width, height, target_width, target_height);
            &&& out is Some <==> rgba.len() >= 4 * width * height
            &&& out matches Some(pixels) ==> pixels == resized_pixels(
                rgba,
                width,
                height,
                target_width,
                target_height,
            )
        },
{
    assert(width * height * 4 == 4 * width * height) by (nonlinear_arith);
}

/// A picture is encoded where it has four bytes for each pixel, and refused in
/// words that give both numbers where it has not.
pub proof fn law_pictures_have_four_bytes_a_pixel(rgba: Seq<u8>, width: u32, height: u32)
    ensures
        rgba.len() == 4 * width * height ==> png_of(rgba, width, height) == png_encoded(
            rgba,
            width,
            height,
        ),
        rgba.len() != 4 * width * height ==> png_of(rgba, width, height) == Err::<
            Seq<u8>,
            Seq<char>,
        >(
            "PNG RGBA 长度不匹配: "@ + decimal_text(width as nat) + "x"@ + decimal_text(
                height as nat,
            ) + " expected="@ + decimal_text((4 * width * height) as nat) + " actual="@
                + decimal_text(rgba.len()),
        ),
{
    assert(width * height * 4 == 4 * width * height) by (nonlinear_arith);
}

/// A thumbnail is known without the ending `.png` and written with it, whether or
/// not the name has it, in any case of its letters.
pub proof fn law_thumbnails_end_in_png(name: Seq<char>, ending: Seq<char>)
    requires
        ending.len() == 4,
        lower(ending) == ".png"@,
    ensures
        thumbnail_names(name + ending) == (name, name + ending),
        !has_suffix(lower(name), ".png"@) ==> thumbnail_names(name) == (name, name + ".png"@),
{
    reveal_strlit(".png");
    let whole = name + ending;
    assert(lower(whole).skip(name.len() as int) =~= ".png"@) by {
        assert forall|i: int| 0 <= i < 4 implies lower(whole).skip(name.len() as int)[i]
            == ".png"@[i] by {
            assert(whole[name.len() + i] == ending[i]);
            assert(lower(ending)[i] == ".png"@[i]);
        }
    }
    assert(whole.take(whole.len() - 4) =~= name);
}

/// The paths of a thumbnail are those of its two names below the path of saves. A
/// path that is refused is told.
pub proof fn law_thumbnails_have_two_paths(file: Seq<char>, savepath: Seq<char>)
    ensures
        clean_path(PartRule::Strict, file) is None ==> thumbnail_paths(file, savepath) == Err::<
            (Seq<char>, Seq<char>),
            Seq<char>,
        >("非法缩略图路径: "@ + file),
        clean_path(PartRule::Strict, file) matches Some(name) ==> {
            let names = thumbnail_names(name);
            let out = thumbnail_paths(file, savepath);
            &&& out is Ok <==> qualified(names.0, savepath) is Some && qualified(names.1, savepath)
                is Some
            &&& out matches Ok(paths) ==> qualified(names.0, savepath) == Some(paths.0)
                && qualified(names.1, savepath) == Some(paths.1)
            &&& qualified(names.0, savepath) is None ==> out == Err::<
                (Seq<char>, Seq<char>),
                Seq<char>,
            >("非法存档路径: "@ + names.0)
        },
{
}

/// A thumbnail is made of the last picture that was taken; without one it is
/// refused. What fails first is told: the pixels, the encoding or the path.
pub proof fn law_thumbnails_are_made_of_pictures<S>(
    shot: ScreenshotBuffer<S>,
    file: Seq<char>,
    width: Option<u32>,
    height: Option<u32>,
    savepath: Seq<char>,
)
    ensures
        thumbnail_outcome::<S>(None, file, width, height, savepath) == Err::<
            ThumbnailRecord,
            Seq<char>,
        >("savess 前没有 takess 缓存，跳过以避免截到保存界面"@),
        ({
            let w = thumbnail_side(width, shot.width);
            let h = thumbnail_side(height, shot.height);
            let pixels = thumbnail_pixels(shot.rgba@, shot.width, shot.height, w, h);
            let out = thumbnail_outcome(Some(&shot), file, width, height, savepath);
            &&& pixels is None ==> out == Err::<ThumbnailRecord, Seq<char>>(
                "截图 RGBA 长度不匹配: "@ + decimal_text(shot.width as nat) + "x"@ + decimal_text(
                    shot.height as nat,
                ) + " len="@ + decimal_text(shot.rgba@.len()),
            )
            &&& out is Ok <==> pixels is Some && png_of(pixels->0, w, h) is Ok && thumbnail_paths(
                file,
                savepath,
            ) is Ok
            &&& out matches Ok(made) ==> {
                &&& made.width == w && made.height == h
                &&& pixels == Some(made.rgba)
                &&& png_of(made.rgba, w, h) == Ok::<Seq<u8>, Seq<char>>(made.png)
                &&& thumbnail_paths(file, savepath) == Ok::<(Seq<char>, Seq<char>), Seq<char>>(
                    (made.resource, made.path),
                )
            }
            &&& pixels matches Some(rgba) ==> (png_of(rgba, w, h) matches Err(message) ==> out
                == Err::<ThumbnailRecord, Seq<char>>(message))
        }),
{
}

/// The title is the label `title` of the first script, or of `system/first.iet`
/// where that is not known.
pub proof fn law_titles_have_a_place(script: Seq<char>)
    ensures
        title_start(Some(script)) == (script, "title"@),
        title_start(None) == ("system/first.iet"@, "title"@),
{
}

} // verus!
