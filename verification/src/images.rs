//! Game artwork: storage layout, target sizes, output formats and the
//! download retry policy.

use vstd::prelude::*;
use crate::paths::{joined, path_join};
use crate::numfmt::push_str;
use crate::api::pow2;

verus! {

/// Where downloaded artwork is stored.
pub struct ImagePaths {
    pub covers: String,
    pub backgrounds: String,
    pub thumbnails: String,
}

impl ImagePaths {
    /// The layout under an application data directory:
    /// `images/covers`, `images/backgrounds`, `images/thumbnails`.
    pub fn new(app_data_dir: &str) -> (p: ImagePaths)
        ensures
            exists|images: Seq<char>| #[trigger] joined(app_data_dir@, "images"@, images)
                && joined(images, "covers"@, p.covers@)
                && joined(images, "backgrounds"@, p.backgrounds@)
                && joined(images, "thumbnails"@, p.thumbnails@),
    {
        let images_dir = path_join(app_data_dir, "images");
        let covers = path_join(images_dir.as_str(), "covers");
        let backgrounds = path_join(images_dir.as_str(), "backgrounds");
        let thumbnails = path_join(images_dir.as_str(), "thumbnails");
        assert(joined(app_data_dir@, "images"@, images_dir@));
        ImagePaths { covers, backgrounds, thumbnails }
    }
}

/// Kinds of artwork.
#[derive(Clone, Copy, Debug, PartialEq, Eq, Structural)]
pub enum ImageType {
    Cover,
    Background,
    Thumbnail,
}

impl ImageType {
    /// Box the artwork is fitted into: covers 512×512, backgrounds
    /// 1920×1080, thumbnails 256×256.
    pub fn target_dimensions(&self) -> (d: (u32, u32))
        ensures
            d == match *self {
                ImageType::Cover => (512u32, 512u32),
                ImageType::Background => (1920u32, 1080u32),
                ImageType::Thumbnail => (256u32, 256u32),
            },
    {
        match self {
            ImageType::Cover => (512, 512),
            ImageType::Background => (1920, 1080),
            ImageType::Thumbnail => (256, 256),
        }
    }

    /// The word used in file names for this kind.
    pub fn filename_suffix(&self) -> (s: &'static str)
        ensures
            s@ == match *self {
                ImageType::Cover => "cover"@,
                ImageType::Background => "background"@,
                ImageType::Thumbnail => "thumbnail"@,
            },
    {
        match self {
            ImageType::Cover => "cover",
            ImageType::Background => "background",
            ImageType::Thumbnail => "thumbnail",
        }
    }
}

/// Encodings a processed image is written in.
#[derive(Clone, Copy, Debug, PartialEq, Eq, Structural)]
pub enum OutputFormat {
    Jpeg,
    Png,
    WebP,
}

/// The encoding chosen by a file extension: `jpg`/`jpeg`, `png`, `webp`,
/// and JPEG for anything else or no extension.
pub open spec fn format_for(ext: Option<Seq<char>>) -> OutputFormat {
    match ext {
        Some(e) => if e == "png"@ {
            OutputFormat::Png
        } else if e == "webp"@ {
            OutputFormat::WebP
        } else {
            OutputFormat::Jpeg
        },
        None => OutputFormat::Jpeg,
    }
}

/// The extension of a path, as `Path::extension` returns it.
pub uninterp spec fn path_extension(path: Seq<char>) -> Option<Seq<char>>;

/// `Path::new(path).extension()`, as text: the result is the named
/// `path_extension(path)`; std's rule (the part of the file name after its
/// last dot, none for names without a dot or starting with the only dot)
/// is not restated.
#[verifier::external_body]
pub(crate) fn extension_of(path: &str) -> (r: Option<String>)
    ensures
        match r {
            Some(e) => path_extension(path@) == Some(e@),
            None => path_extension(path@).is_none(),
        },
{
    match std::path::Path::new(path).extension() {
        Some(e) => Some(e.to_string_lossy().into_owned()),
        None => None,
    }
}

/// The encoding for an output path, from its extension.
pub fn output_format(output_path: &str) -> (f: OutputFormat)
    ensures
        f == format_for(path_extension(output_path@)),
{
    match extension_of(output_path) {
        Some(e) => {
            if crate::text::text_eq(e.as_str(), "png") {
                OutputFormat::Png
            } else if crate::text::text_eq(e.as_str(), "webp") {
                OutputFormat::WebP
            } else {
                OutputFormat::Jpeg
            }
        },
        None => OutputFormat::Jpeg,
    }
}

/// After resizing a download into `output_path`: the stored path, or the
/// resizing error as it came.
pub fn process_downloaded_image(output_path: &str, resized: Result<(), String>) -> (r: Result<String, String>)
    ensures
        match resized {
            Ok(_) => r.is_ok() && r.unwrap()@ == output_path@,
            Err(e) => r == Err::<String, String>(e),
        },
{
    match resized {
        Ok(_) => Ok(output_path.to_string()),
        Err(e) => Err(e),
    }
}

/// Attempts before a download is given up.
pub const DOWNLOAD_MAX_RETRIES: u32 = 3;

/// What follows a failed download attempt.
#[derive(Clone, Copy, Debug, PartialEq, Eq, Structural)]
pub enum DownloadRetry {
    /// Wait this long (milliseconds) and try again; `attempts` failures so far.
    Wait { attempts: u32, delay_ms: u64 },
    /// Give up.
    GiveUp,
}

/// After the `attempts + 1`-th failed attempt: give up at three, else wait
/// `1000 · 2^(attempts + 1)` ms.
pub fn download_retry(attempts: u32) -> (r: DownloadRetry)
    requires
        attempts < DOWNLOAD_MAX_RETRIES,
    ensures
        r == (if attempts + 1 >= DOWNLOAD_MAX_RETRIES {
            DownloadRetry::GiveUp
        } else {
            DownloadRetry::Wait { attempts: (attempts + 1) as u32, delay_ms: (1000 * pow2((attempts + 1) as nat)) as u64 }
        }),
{
    let a = attempts + 1;
    if a >= DOWNLOAD_MAX_RETRIES {
        DownloadRetry::GiveUp
    } else {
        proof {
            reveal_with_fuel(pow2, 3);
        }
        let delay: u64 = if a == 1 { 2000 } else { 4000 };
        DownloadRetry::Wait { attempts: a, delay_ms: delay }
    }
}

/// The error of a download given up.
pub fn download_failure_message(err: &str) -> (m: String)
    ensures
        m@ == "Download failed after 3 retries: "@ + err@,
{
    let mut m = String::new();
    push_str(&mut m, "Download failed after 3 retries: ");
    push_str(&mut m, err);
    m
}

/// File names for a game's downloaded artwork of one kind: the final
/// `{id}_{kind}.jpg` and the temporary `{id}_{kind}_temp.jpg`.
pub fn artwork_file_names(game_id: &str, kind: ImageType) -> (r: (String, String))
    ensures
        r.0@ == game_id@ + "_"@ + kind.filename_suffix_spec() + ".jpg"@,
        r.1@ == game_id@ + "_"@ + kind.filename_suffix_spec() + "_temp.jpg"@,
{
    let suffix = kind.filename_suffix();
    let mut a = String::new();
    push_str(&mut a, game_id);
    push_str(&mut a, "_");
    push_str(&mut a, suffix);
    let mut b = a.clone();
    push_str(&mut a, ".jpg");
    push_str(&mut b, "_temp.jpg");
    (a, b)
}

impl ImageType {
    /// The file-name word, as a specification.
    pub open spec fn filename_suffix_spec(self) -> Seq<char> {
        match self {
            ImageType::Cover => "cover"@,
            ImageType::Background => "background"@,
            ImageType::Thumbnail => "thumbnail"@,
        }
    }
}

} // verus!
