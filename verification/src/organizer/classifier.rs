//! Sorting a file into a category by its extension.
use vstd::prelude::*;

use crate::organizer::category::Category;
use crate::text::{chars_eq_str, chars_of};

verus! {
/// The extensions of the `Images` category.
pub open spec fn is_image_ext(e: Seq<char>) -> bool {
    ||| e == "jpg"@
    ||| e == "jpeg"@
    ||| e == "jpe"@
    ||| e == "png"@
    ||| e == "gif"@
    ||| e == "webp"@
    ||| e == "avif"@
    ||| e == "bmp"@
    ||| e == "dib"@
    ||| e == "tif"@
    ||| e == "tiff"@
    ||| e == "svg"@
    ||| e == "ico"@
    ||| e == "heic"@
    ||| e == "heif"@
    ||| e == "raw"@
    ||| e == "cr2"@
    ||| e == "cr3"@
    ||| e == "nef"@
    ||| e == "nrw"@
    ||| e == "arw"@
    ||| e == "dng"@
    ||| e == "orf"@
    ||| e == "rw2"@
    ||| e == "pef"@
    ||| e == "sr2"@
    ||| e == "raf"@
}

fn is_image_ext_of(e: &Vec<char>) -> (r: bool)
    ensures
        r == is_image_ext(e@),
{
    chars_eq_str(e, "jpg")
        || chars_eq_str(e, "jpeg")
        || chars_eq_str(e, "jpe")
        || chars_eq_str(e, "png")
        || chars_eq_str(e, "gif")
        || chars_eq_str(e, "webp")
        || chars_eq_str(e, "avif")
        || chars_eq_str(e, "bmp")
        || chars_eq_str(e, "dib")
        || chars_eq_str(e, "tif")
        || chars_eq_str(e, "tiff")
        || chars_eq_str(e, "svg")
        || chars_eq_str(e, "ico")
        || chars_eq_str(e, "heic")
        || chars_eq_str(e, "heif")
        || chars_eq_str(e, "raw")
        || chars_eq_str(e, "cr2")
        || chars_eq_str(e, "cr3")
        || chars_eq_str(e, "nef")
        || chars_eq_str(e, "nrw")
        || chars_eq_str(e, "arw")
        || chars_eq_str(e, "dng")
        || chars_eq_str(e, "orf")
        || chars_eq_str(e, "rw2")
        || chars_eq_str(e, "pef")
        || chars_eq_str(e, "sr2")
        || chars_eq_str(e, "raf")
}

/// The extensions of the `Videos` category.
pub open spec fn is_video_ext(e: Seq<char>) -> bool {
    ||| e == "mp4"@
    ||| e == "mkv"@
    ||| e == "avi"@
    ||| e == "mov"@
    ||| e == "wmv"@
    ||| e == "flv"@
    ||| e == "webm"@
    ||| e == "m4v"@
    ||| e == "3gp"@
    ||| e == "3g2"@
    ||| e == "mpeg"@
    ||| e == "mpg"@
    ||| e == "mpe"@
    ||| e == "mpv"@
    ||| e == "m2v"@
    ||| e == "mts"@
    ||| e == "m2ts"@
    ||| e == "vob"@
    ||| e == "ogv"@
    ||| e == "asf"@
    ||| e == "rm"@
    ||| e == "rmvb"@
    ||| e == "divx"@
    ||| e == "f4v"@
    ||| e == "f4p"@
    ||| e == "f4a"@
    ||| e == "f4b"@
}

fn is_video_ext_of(e: &Vec<char>) -> (r: bool)
    ensures
        r == is_video_ext(e@),
{
    chars_eq_str(e, "mp4")
        || chars_eq_str(e, "mkv")
        || chars_eq_str(e, "avi")
        || chars_eq_str(e, "mov")
        || chars_eq_str(e, "wmv")
        || chars_eq_str(e, "flv")
        || chars_eq_str(e, "webm")
        || chars_eq_str(e, "m4v")
        || chars_eq_str(e, "3gp")
        || chars_eq_str(e, "3g2")
        || chars_eq_str(e, "mpeg")
        || chars_eq_str(e, "mpg")
        || chars_eq_str(e, "mpe")
        || chars_eq_str(e, "mpv")
        || chars_eq_str(e, "m2v")
        || chars_eq_str(e, "mts")
        || chars_eq_str(e, "m2ts")
        || chars_eq_str(e, "vob")
        || chars_eq_str(e, "ogv")
        || chars_eq_str(e, "asf")
        || chars_eq_str(e, "rm")
        || chars_eq_str(e, "rmvb")
        || chars_eq_str(e, "divx")
        || chars_eq_str(e, "f4v")
        || chars_eq_str(e, "f4p")
        || chars_eq_str(e, "f4a")
        || chars_eq_str(e, "f4b")
}

/// The extensions of the `Audio` category.
pub open spec fn is_audio_ext(e: Seq<char>) -> bool {
    ||| e == "mp3"@
    ||| e == "wav"@
    ||| e == "flac"@
    ||| e == "aac"@
    ||| e == "m4a"@
    ||| e == "m4b"@
    ||| e == "ogg"@
    ||| e == "oga"@
    ||| e == "opus"@
    ||| e == "wma"@
    ||| e == "aiff"@
    ||| e == "aif"@
    ||| e == "aifc"@
    ||| e == "alac"@
    ||| e == "ape"@
    ||| e == "amr"@
    ||| e == "mid"@
    ||| e == "midi"@
    ||| e == "mka"@
    ||| e == "ac3"@
    ||| e == "dts"@
    ||| e == "caf"@
    ||| e == "au"@
    ||| e == "ra"@
    ||| e == "ram"@
}

fn is_audio_ext_of(e: &Vec<char>) -> (r: bool)
    ensures
        r == is_audio_ext(e@),
{
    chars_eq_str(e, "mp3")
        || chars_eq_str(e, "wav")
        || chars_eq_str(e, "flac")
        || chars_eq_str(e, "aac")
        || chars_eq_str(e, "m4a")
        || chars_eq_str(e, "m4b")
        || chars_eq_str(e, "ogg")
        || chars_eq_str(e, "oga")
        || chars_eq_str(e, "opus")
        || chars_eq_str(e, "wma")
        || chars_eq_str(e, "aiff")
        || chars_eq_str(e, "aif")
        || chars_eq_str(e, "aifc")
        || chars_eq_str(e, "alac")
        || chars_eq_str(e, "ape")
        || chars_eq_str(e, "amr")
        || chars_eq_str(e, "mid")
        || chars_eq_str(e, "midi")
        || chars_eq_str(e, "mka")
        || chars_eq_str(e, "ac3")
        || chars_eq_str(e, "dts")
        || chars_eq_str(e, "caf")
        || chars_eq_str(e, "au")
        || chars_eq_str(e, "ra")
        || chars_eq_str(e, "ram")
}

/// The extensions of the `Documents` category.
pub open spec fn is_document_ext(e: Seq<char>) -> bool {
    ||| e == "pdf"@
    ||| e == "doc"@
    ||| e == "docx"@
    ||| e == "docm"@
    ||| e == "dot"@
    ||| e == "dotx"@
    ||| e == "dotm"@
    ||| e == "odt"@
    ||| e == "ott"@
    ||| e == "rtf"@
    ||| e == "txt"@
    ||| e == "md"@
    ||| e == "markdown"@
    ||| e == "tex"@
    ||| e == "pages"@
    ||| e == "wpd"@
    ||| e == "wps"@
    ||| e == "csv"@
    ||| e == "tsv"@
    ||| e == "xls"@
    ||| e == "xlsx"@
    ||| e == "xlsm"@
    ||| e == "xlsb"@
    ||| e == "xlt"@
    ||| e == "xltx"@
    ||| e == "xltm"@
    ||| e == "ods"@
    ||| e == "ots"@
    ||| e == "ppt"@
    ||| e == "pptx"@
    ||| e == "pptm"@
    ||| e == "pps"@
    ||| e == "ppsx"@
    ||| e == "odp"@
    ||| e == "otp"@
    ||| e == "key"@
}

fn is_document_ext_of(e: &Vec<char>) -> (r: bool)
    ensures
        r == is_document_ext(e@),
{
    chars_eq_str(e, "pdf")
        || chars_eq_str(e, "doc")
        || chars_eq_str(e, "docx")
        || chars_eq_str(e, "docm")
        || chars_eq_str(e, "dot")
        || chars_eq_str(e, "dotx")
        || chars_eq_str(e, "dotm")
        || chars_eq_str(e, "odt")
        || chars_eq_str(e, "ott")
        || chars_eq_str(e, "rtf")
        || chars_eq_str(e, "txt")
        || chars_eq_str(e, "md")
        || chars_eq_str(e, "markdown")
        || chars_eq_str(e, "tex")
        || chars_eq_str(e, "pages")
        || chars_eq_str(e, "wpd")
        || chars_eq_str(e, "wps")
        || chars_eq_str(e, "csv")
        || chars_eq_str(e, "tsv")
        || chars_eq_str(e, "xls")
        || chars_eq_str(e, "xlsx")
        || chars_eq_str(e, "xlsm")
        || chars_eq_str(e, "xlsb")
        || chars_eq_str(e, "xlt")
        || chars_eq_str(e, "xltx")
        || chars_eq_str(e, "xltm")
        || chars_eq_str(e, "ods")
        || chars_eq_str(e, "ots")
        || chars_eq_str(e, "ppt")
        || chars_eq_str(e, "pptx")
        || chars_eq_str(e, "pptm")
        || chars_eq_str(e, "pps")
        || chars_eq_str(e, "ppsx")
        || chars_eq_str(e, "odp")
        || chars_eq_str(e, "otp")
        || chars_eq_str(e, "key")
}

/// The extensions of the `Archives` category.
pub open spec fn is_archive_ext(e: Seq<char>) -> bool {
    ||| e == "zip"@
    ||| e == "rar"@
    ||| e == "7z"@
    ||| e == "tar"@
    ||| e == "gz"@
    ||| e == "bz2"@
    ||| e == "xz"@
    ||| e == "zst"@
    ||| e == "tgz"@
    ||| e == "tbz2"@
}

fn is_archive_ext_of(e: &Vec<char>) -> (r: bool)
    ensures
        r == is_archive_ext(e@),
{
    chars_eq_str(e, "zip")
        || chars_eq_str(e, "rar")
        || chars_eq_str(e, "7z")
        || chars_eq_str(e, "tar")
        || chars_eq_str(e, "gz")
        || chars_eq_str(e, "bz2")
        || chars_eq_str(e, "xz")
        || chars_eq_str(e, "zst")
        || chars_eq_str(e, "tgz")
        || chars_eq_str(e, "tbz2")
}

/// The extensions of the `Applications` category.
pub open spec fn is_application_ext(e: Seq<char>) -> bool {
    ||| e == "exe"@
    ||| e == "msi"@
    ||| e == "msix"@
    ||| e == "msixbundle"@
    ||| e == "appx"@
    ||| e == "appxbundle"@
    ||| e == "com"@
    ||| e == "bat"@
    ||| e == "cmd"@
    ||| e == "scr"@
}

fn is_application_ext_of(e: &Vec<char>) -> (r: bool)
    ensures
        r == is_application_ext(e@),
{
    chars_eq_str(e, "exe")
        || chars_eq_str(e, "msi")
        || chars_eq_str(e, "msix")
        || chars_eq_str(e, "msixbundle")
        || chars_eq_str(e, "appx")
        || chars_eq_str(e, "appxbundle")
        || chars_eq_str(e, "com")
        || chars_eq_str(e, "bat")
        || chars_eq_str(e, "cmd")
        || chars_eq_str(e, "scr")
}

/// The extensions of the `Code` category.
pub open spec fn is_code_ext(e: Seq<char>) -> bool {
    ||| e == "rs"@
    ||| e == "js"@
    ||| e == "jsx"@
    ||| e == "ts"@
    ||| e == "tsx"@
    ||| e == "py"@
    ||| e == "java"@
    ||| e == "c"@
    ||| e == "h"@
    ||| e == "cpp"@
    ||| e == "hpp"@
    ||| e == "cs"@
    ||| e == "go"@
    ||| e == "rb"@
    ||| e == "php"@
    ||| e == "swift"@
    ||| e == "kt"@
    ||| e == "kts"@
    ||| e == "dart"@
    ||| e == "lua"@
    ||| e == "r"@
    ||| e == "sql"@
    ||| e == "html"@
    ||| e == "htm"@
    ||| e == "css"@
    ||| e == "scss"@
    ||| e == "sass"@
    ||| e == "less"@
    ||| e == "vue"@
    ||| e == "svelte"@
    ||| e == "astro"@
    ||| e == "json"@
    ||| e == "xml"@
    ||| e == "yaml"@
    ||| e == "yml"@
    ||| e == "toml"@
    ||| e == "ini"@
    ||| e == "env"@
    ||| e == "sh"@
    ||| e == "ps1"@
    ||| e == "fish"@
}

fn is_code_ext_of(e: &Vec<char>) -> (r: bool)
    ensures
        r == is_code_ext(e@),
{
    chars_eq_str(e, "rs")
        || chars_eq_str(e, "js")
        || chars_eq_str(e, "jsx")
        || chars_eq_str(e, "ts")
        || chars_eq_str(e, "tsx")
        || chars_eq_str(e, "py")
        || chars_eq_str(e, "java")
        || chars_eq_str(e, "c")
        || chars_eq_str(e, "h")
        || chars_eq_str(e, "cpp")
        || chars_eq_str(e, "hpp")
        || chars_eq_str(e, "cs")
        || chars_eq_str(e, "go")
        || chars_eq_str(e, "rb")
        || chars_eq_str(e, "php")
        || chars_eq_str(e, "swift")
        || chars_eq_str(e, "kt")
        || chars_eq_str(e, "kts")
        || chars_eq_str(e, "dart")
        || chars_eq_str(e, "lua")
        || chars_eq_str(e, "r")
        || chars_eq_str(e, "sql")
        || chars_eq_str(e, "html")
        || chars_eq_str(e, "htm")
        || chars_eq_str(e, "css")
        || chars_eq_str(e, "scss")
        || chars_eq_str(e, "sass")
        || chars_eq_str(e, "less")
        || chars_eq_str(e, "vue")
        || chars_eq_str(e, "svelte")
        || chars_eq_str(e, "astro")
        || chars_eq_str(e, "json")
        || chars_eq_str(e, "xml")
        || chars_eq_str(e, "yaml")
        || chars_eq_str(e, "yml")
        || chars_eq_str(e, "toml")
        || chars_eq_str(e, "ini")
        || chars_eq_str(e, "env")
        || chars_eq_str(e, "sh")
        || chars_eq_str(e, "ps1")
        || chars_eq_str(e, "fish")
}

/// The extensions of the `Fonts` category.
pub open spec fn is_font_ext(e: Seq<char>) -> bool {
    ||| e == "ttf"@
    ||| e == "otf"@
    ||| e == "woff"@
    ||| e == "woff2"@
    ||| e == "eot"@
}

fn is_font_ext_of(e: &Vec<char>) -> (r: bool)
    ensures
        r == is_font_ext(e@),
{
    chars_eq_str(e, "ttf")
        || chars_eq_str(e, "otf")
        || chars_eq_str(e, "woff")
        || chars_eq_str(e, "woff2")
        || chars_eq_str(e, "eot")
}

/// The extensions of the `DiskImages` category.
pub open spec fn is_disk_image_ext(e: Seq<char>) -> bool {
    ||| e == "iso"@
    ||| e == "img"@
    ||| e == "dmg"@
    ||| e == "vhd"@
    ||| e == "vhdx"@
    ||| e == "vmdk"@
    ||| e == "qcow"@
    ||| e == "qcow2"@
}

fn is_disk_image_ext_of(e: &Vec<char>) -> (r: bool)
    ensures
        r == is_disk_image_ext(e@),
{
    chars_eq_str(e, "iso")
        || chars_eq_str(e, "img")
        || chars_eq_str(e, "dmg")
        || chars_eq_str(e, "vhd")
        || chars_eq_str(e, "vhdx")
        || chars_eq_str(e, "vmdk")
        || chars_eq_str(e, "qcow")
        || chars_eq_str(e, "qcow2")
}

/// The extensions of the `Shortcuts` category.
pub open spec fn is_shortcut_ext(e: Seq<char>) -> bool {
    ||| e == "lnk"@
    ||| e == "url"@
    ||| e == "webloc"@
}

fn is_shortcut_ext_of(e: &Vec<char>) -> (r: bool)
    ensures
        r == is_shortcut_ext(e@),
{
    chars_eq_str(e, "lnk")
        || chars_eq_str(e, "url")
        || chars_eq_str(e, "webloc")
}

/// The extensions of the `EBooks` category.
pub open spec fn is_ebook_ext(e: Seq<char>) -> bool {
    ||| e == "epub"@
    ||| e == "mobi"@
    ||| e == "azw"@
    ||| e == "azw3"@
    ||| e == "fb2"@
    ||| e == "djvu"@
}

fn is_ebook_ext_of(e: &Vec<char>) -> (r: bool)
    ensures
        r == is_ebook_ext(e@),
{
    chars_eq_str(e, "epub")
        || chars_eq_str(e, "mobi")
        || chars_eq_str(e, "azw")
        || chars_eq_str(e, "azw3")
        || chars_eq_str(e, "fb2")
        || chars_eq_str(e, "djvu")
}

/// The extensions of the `AndroidBuilds` category.
pub open spec fn is_android_build_ext(e: Seq<char>) -> bool {
    ||| e == "apk"@
    ||| e == "aab"@
}

fn is_android_build_ext_of(e: &Vec<char>) -> (r: bool)
    ensures
        r == is_android_build_ext(e@),
{
    chars_eq_str(e, "apk")
        || chars_eq_str(e, "aab")
}

/// The extensions of the `IosBuilds` category.
pub open spec fn is_ios_build_ext(e: Seq<char>) -> bool {
    ||| e == "ipa"@
}

fn is_ios_build_ext_of(e: &Vec<char>) -> (r: bool)
    ensures
        r == is_ios_build_ext(e@),
{
    chars_eq_str(e, "ipa")
}

/// The category of a file with extension `ext` (lowercase expected;
/// matching is case-sensitive). Unknown and missing extensions are `Other`.
pub open spec fn classify(ext: Option<Seq<char>>) -> Category {
    match ext {
        None => Category::Other,
        Some(e) => if is_image_ext(e) {
            Category::Images
        } else if is_video_ext(e) {
            Category::Videos
        } else if is_audio_ext(e) {
            Category::Audio
        } else if is_document_ext(e) {
            Category::Documents
        } else if is_archive_ext(e) {
            Category::Archives
        } else if is_application_ext(e) {
            Category::Applications
        } else if is_code_ext(e) {
            Category::Code
        } else if is_font_ext(e) {
            Category::Fonts
        } else if is_disk_image_ext(e) {
            Category::DiskImages
        } else if is_shortcut_ext(e) {
            Category::Shortcuts
        } else if is_ebook_ext(e) {
            Category::EBooks
        } else if is_android_build_ext(e) {
            Category::AndroidBuilds
        } else if is_ios_build_ext(e) {
            Category::IosBuilds
        } else {
            Category::Other
        },
    }
}

pub fn classify_file(extension: Option<&str>) -> (c: Category)
    ensures
        c == classify(match extension {
            Some(e) => Some(e@),
            None => None,
        }),
{
    match extension {
        None => Category::Other,
        Some(e) => {
            let v = chars_of(e);
            if is_image_ext_of(&v) {
                Category::Images
            } else if is_video_ext_of(&v) {
                Category::Videos
            } else if is_audio_ext_of(&v) {
                Category::Audio
            } else if is_document_ext_of(&v) {
                Category::Documents
            } else if is_archive_ext_of(&v) {
                Category::Archives
            } else if is_application_ext_of(&v) {
                Category::Applications
            } else if is_code_ext_of(&v) {
                Category::Code
            } else if is_font_ext_of(&v) {
                Category::Fonts
            } else if is_disk_image_ext_of(&v) {
                Category::DiskImages
            } else if is_shortcut_ext_of(&v) {
                Category::Shortcuts
            } else if is_ebook_ext_of(&v) {
                Category::EBooks
            } else if is_android_build_ext_of(&v) {
                Category::AndroidBuilds
            } else if is_ios_build_ext_of(&v) {
                Category::IosBuilds
            } else {
                Category::Other
            }
        },
    }
}

/// How the images extensions are spelled, letter by letter.
proof fn lemma_images_spelled()
    ensures
        "arw"@.len() == 3 && "arw"@[0] == 'a' && "arw"@[1] == 'r' && "arw"@[2] == 'w',
        "avif"@.len() == 4 && "avif"@[0] == 'a' && "avif"@[1] == 'v' && "avif"@[2] == 'i' && "avif"@[3] == 'f',
        "bmp"@.len() == 3 && "bmp"@[0] == 'b' && "bmp"@[1] == 'm' && "bmp"@[2] == 'p',
        "cr2"@.len() == 3 && "cr2"@[0] == 'c' && "cr2"@[1] == 'r' && "cr2"@[2] == '2',
        "cr3"@.len() == 3 && "cr3"@[0] == 'c' && "cr3"@[1] == 'r' && "cr3"@[2] == '3',
        "dib"@.len() == 3 && "dib"@[0] == 'd' && "dib"@[1] == 'i' && "dib"@[2] == 'b',
        "dng"@.len() == 3 && "dng"@[0] == 'd' && "dng"@[1] == 'n' && "dng"@[2] == 'g',
        "gif"@.len() == 3 && "gif"@[0] == 'g' && "gif"@[1] == 'i' && "gif"@[2] == 'f',
        "heic"@.len() == 4 && "heic"@[0] == 'h' && "heic"@[1] == 'e' && "heic"@[2] == 'i' && "heic"@[3] == 'c',
        "heif"@.len() == 4 && "heif"@[0] == 'h' && "heif"@[1] == 'e' && "heif"@[2] == 'i' && "heif"@[3] == 'f',
        "ico"@.len() == 3 && "ico"@[0] == 'i' && "ico"@[1] == 'c' && "ico"@[2] == 'o',
        "jpe"@.len() == 3 && "jpe"@[0] == 'j' && "jpe"@[1] == 'p' && "jpe"@[2] == 'e',
        "jpeg"@.len() == 4 && "jpeg"@[0] == 'j' && "jpeg"@[1] == 'p' && "jpeg"@[2] == 'e' && "jpeg"@[3] == 'g',
        "jpg"@.len() == 3 && "jpg"@[0] == 'j' && "jpg"@[1] == 'p' && "jpg"@[2] == 'g',
        "nef"@.len() == 3 && "nef"@[0] == 'n' && "nef"@[1] == 'e' && "nef"@[2] == 'f',
        "nrw"@.len() == 3 && "nrw"@[0] == 'n' && "nrw"@[1] == 'r' && "nrw"@[2] == 'w',
        "orf"@.len() == 3 && "orf"@[0] == 'o' && "orf"@[1] == 'r' && "orf"@[2] == 'f',
        "pef"@.len() == 3 && "pef"@[0] == 'p' && "pef"@[1] == 'e' && "pef"@[2] == 'f',
        "png"@.len() == 3 && "png"@[0] == 'p' && "png"@[1] == 'n' && "png"@[2] == 'g',
        "raf"@.len() == 3 && "raf"@[0] == 'r' && "raf"@[1] == 'a' && "raf"@[2] == 'f',
        "raw"@.len() == 3 && "raw"@[0] == 'r' && "raw"@[1] == 'a' && "raw"@[2] == 'w',
        "rw2"@.len() == 3 && "rw2"@[0] == 'r' && "rw2"@[1] == 'w' && "rw2"@[2] == '2',
        "sr2"@.len() == 3 && "sr2"@[0] == 's' && "sr2"@[1] == 'r' && "sr2"@[2] == '2',
        "svg"@.len() == 3 && "svg"@[0] == 's' && "svg"@[1] == 'v' && "svg"@[2] == 'g',
        "tif"@.len() == 3 && "tif"@[0] == 't' && "tif"@[1] == 'i' && "tif"@[2] == 'f',
        "tiff"@.len() == 4 && "tiff"@[0] == 't' && "tiff"@[1] == 'i' && "tiff"@[2] == 'f' && "tiff"@[3] == 'f',
        "webp"@.len() == 4 && "webp"@[0] == 'w' && "webp"@[1] == 'e' && "webp"@[2] == 'b' && "webp"@[3] == 'p',
{
    reveal_strlit("arw");
    reveal_strlit("avif");
    reveal_strlit("bmp");
    reveal_strlit("cr2");
    reveal_strlit("cr3");
    reveal_strlit("dib");
    reveal_strlit("dng");
    reveal_strlit("gif");
    reveal_strlit("heic");
    reveal_strlit("heif");
    reveal_strlit("ico");
    reveal_strlit("jpe");
    reveal_strlit("jpeg");
    reveal_strlit("jpg");
    reveal_strlit("nef");
    reveal_strlit("nrw");
    reveal_strlit("orf");
    reveal_strlit("pef");
    reveal_strlit("png");
    reveal_strlit("raf");
    reveal_strlit("raw");
    reveal_strlit("rw2");
    reveal_strlit("sr2");
    reveal_strlit("svg");
    reveal_strlit("tif");
    reveal_strlit("tiff");
    reveal_strlit("webp");
}

/// Every extension the table lists for images sorts into `Images`.
pub proof fn lemma_images_table()
    ensures
        classify(Some("arw"@)) == Category::Images,
        classify(Some("avif"@)) == Category::Images,
        classify(Some("bmp"@)) == Category::Images,
        classify(Some("cr2"@)) == Category::Images,
        classify(Some("cr3"@)) == Category::Images,
        classify(Some("dib"@)) == Category::Images,
        classify(Some("dng"@)) == Category::Images,
        classify(Some("gif"@)) == Category::Images,
        classify(Some("heic"@)) == Category::Images,
        classify(Some("heif"@)) == Category::Images,
        classify(Some("ico"@)) == Category::Images,
        classify(Some("jpe"@)) == Category::Images,
        classify(Some("jpeg"@)) == Category::Images,
        classify(Some("jpg"@)) == Category::Images,
        classify(Some("nef"@)) == Category::Images,
        classify(Some("nrw"@)) == Category::Images,
        classify(Some("orf"@)) == Category::Images,
        classify(Some("pef"@)) == Category::Images,
        classify(Some("png"@)) == Category::Images,
        classify(Some("raf"@)) == Category::Images,
        classify(Some("raw"@)) == Category::Images,
        classify(Some("rw2"@)) == Category::Images,
        classify(Some("sr2"@)) == Category::Images,
        classify(Some("svg"@)) == Category::Images,
        classify(Some("tif"@)) == Category::Images,
        classify(Some("tiff"@)) == Category::Images,
        classify(Some("webp"@)) == Category::Images,
{
    lemma_images_spelled();
}

/// How the videos extensions are spelled, letter by letter.
proof fn lemma_videos_spelled()
    ensures
        "3g2"@.len() == 3 && "3g2"@[0] == '3' && "3g2"@[1] == 'g' && "3g2"@[2] == '2',
        "3gp"@.len() == 3 && "3gp"@[0] == '3' && "3gp"@[1] == 'g' && "3gp"@[2] == 'p',
        "asf"@.len() == 3 && "asf"@[0] == 'a' && "asf"@[1] == 's' && "asf"@[2] == 'f',
        "avi"@.len() == 3 && "avi"@[0] == 'a' && "avi"@[1] == 'v' && "avi"@[2] == 'i',
        "divx"@.len() == 4 && "divx"@[0] == 'd' && "divx"@[1] == 'i' && "divx"@[2] == 'v' && "divx"@[3] == 'x',
        "f4a"@.len() == 3 && "f4a"@[0] == 'f' && "f4a"@[1] == '4' && "f4a"@[2] == 'a',
        "f4b"@.len() == 3 && "f4b"@[0] == 'f' && "f4b"@[1] == '4' && "f4b"@[2] == 'b',
        "f4p"@.len() == 3 && "f4p"@[0] == 'f' && "f4p"@[1] == '4' && "f4p"@[2] == 'p',
        "f4v"@.len() == 3 && "f4v"@[0] == 'f' && "f4v"@[1] == '4' && "f4v"@[2] == 'v',
        "flv"@.len() == 3 && "flv"@[0] == 'f' && "flv"@[1] == 'l' && "flv"@[2] == 'v',
        "m2ts"@.len() == 4 && "m2ts"@[0] == 'm' && "m2ts"@[1] == '2' && "m2ts"@[2] == 't' && "m2ts"@[3] == 's',
        "m2v"@.len() == 3 && "m2v"@[0] == 'm' && "m2v"@[1] == '2' && "m2v"@[2] == 'v',
        "m4v"@.len() == 3 && "m4v"@[0] == 'm' && "m4v"@[1] == '4' && "m4v"@[2] == 'v',
        "mkv"@.len() == 3 && "mkv"@[0] == 'm' && "mkv"@[1] == 'k' && "mkv"@[2] == 'v',
        "mov"@.len() == 3 && "mov"@[0] == 'm' && "mov"@[1] == 'o' && "mov"@[2] == 'v',
        "mp4"@.len() == 3 && "mp4"@[0] == 'm' && "mp4"@[1] == 'p' && "mp4"@[2] == '4',
        "mpe"@.len() == 3 && "mpe"@[0] == 'm' && "mpe"@[1] == 'p' && "mpe"@[2] == 'e',
        "mpeg"@.len() == 4 && "mpeg"@[0] == 'm' && "mpeg"@[1] == 'p' && "mpeg"@[2] == 'e' && "mpeg"@[3] == 'g',
        "mpg"@.len() == 3 && "mpg"@[0] == 'm' && "mpg"@[1] == 'p' && "mpg"@[2] == 'g',
        "mpv"@.len() == 3 && "mpv"@[0] == 'm' && "mpv"@[1] == 'p' && "mpv"@[2] == 'v',
        "mts"@.len() == 3 && "mts"@[0] == 'm' && "mts"@[1] == 't' && "mts"@[2] == 's',
        "ogv"@.len() == 3 && "ogv"@[0] == 'o' && "ogv"@[1] == 'g' && "ogv"@[2] == 'v',
        "rm"@.len() == 2 && "rm"@[0] == 'r' && "rm"@[1] == 'm',
        "rmvb"@.len() == 4 && "rmvb"@[0] == 'r' && "rmvb"@[1] == 'm' && "rmvb"@[2] == 'v' && "rmvb"@[3] == 'b',
        "vob"@.len() == 3 && "vob"@[0] == 'v' && "vob"@[1] == 'o' && "vob"@[2] == 'b',
        "webm"@.len() == 4 && "webm"@[0] == 'w' && "webm"@[1] == 'e' && "webm"@[2] == 'b' && "webm"@[3] == 'm',
        "wmv"@.len() == 3 && "wmv"@[0] == 'w' && "wmv"@[1] == 'm' && "wmv"@[2] == 'v',
{
    reveal_strlit("3g2");
    reveal_strlit("3gp");
    reveal_strlit("asf");
    reveal_strlit("avi");
    reveal_strlit("divx");
    reveal_strlit("f4a");
    reveal_strlit("f4b");
    reveal_strlit("f4p");
    reveal_strlit("f4v");
    reveal_strlit("flv");
    reveal_strlit("m2ts");
    reveal_strlit("m2v");
    reveal_strlit("m4v");
    reveal_strlit("mkv");
    reveal_strlit("mov");
    reveal_strlit("mp4");
    reveal_strlit("mpe");
    reveal_strlit("mpeg");
    reveal_strlit("mpg");
    reveal_strlit("mpv");
    reveal_strlit("mts");
    reveal_strlit("ogv");
    reveal_strlit("rm");
    reveal_strlit("rmvb");
    reveal_strlit("vob");
    reveal_strlit("webm");
    reveal_strlit("wmv");
}

/// Every extension the table lists for videos sorts into `Videos`.
pub proof fn lemma_videos_table()
    ensures
        classify(Some("3g2"@)) == Category::Videos,
        classify(Some("3gp"@)) == Category::Videos,
        classify(Some("asf"@)) == Category::Videos,
        classify(Some("avi"@)) == Category::Videos,
        classify(Some("divx"@)) == Category::Videos,
        classify(Some("f4a"@)) == Category::Videos,
        classify(Some("f4b"@)) == Category::Videos,
        classify(Some("f4p"@)) == Category::Videos,
        classify(Some("f4v"@)) == Category::Videos,
        classify(Some("flv"@)) == Category::Videos,
        classify(Some("m2ts"@)) == Category::Videos,
        classify(Some("m2v"@)) == Category::Videos,
        classify(Some("m4v"@)) == Category::Videos,
        classify(Some("mkv"@)) == Category::Videos,
        classify(Some("mov"@)) == Category::Videos,
        classify(Some("mp4"@)) == Category::Videos,
        classify(Some("mpe"@)) == Category::Videos,
        classify(Some("mpeg"@)) == Category::Videos,
        classify(Some("mpg"@)) == Category::Videos,
        classify(Some("mpv"@)) == Category::Videos,
        classify(Some("mts"@)) == Category::Videos,
        classify(Some("ogv"@)) == Category::Videos,
        classify(Some("rm"@)) == Category::Videos,
        classify(Some("rmvb"@)) == Category::Videos,
        classify(Some("vob"@)) == Category::Videos,
        classify(Some("webm"@)) == Category::Videos,
        classify(Some("wmv"@)) == Category::Videos,
{
    lemma_images_spelled();
    lemma_videos_spelled();
}

/// How the audio extensions are spelled, letter by letter.
proof fn lemma_audio_spelled()
    ensures
        "aac"@.len() == 3 && "aac"@[0] == 'a' && "aac"@[1] == 'a' && "aac"@[2] == 'c',
        "ac3"@.len() == 3 && "ac3"@[0] == 'a' && "ac3"@[1] == 'c' && "ac3"@[2] == '3',
        "aif"@.len() == 3 && "aif"@[0] == 'a' && "aif"@[1] == 'i' && "aif"@[2] == 'f',
        "aifc"@.len() == 4 && "aifc"@[0] == 'a' && "aifc"@[1] == 'i' && "aifc"@[2] == 'f' && "aifc"@[3] == 'c',
        "aiff"@.len() == 4 && "aiff"@[0] == 'a' && "aiff"@[1] == 'i' && "aiff"@[2] == 'f' && "aiff"@[3] == 'f',
        "alac"@.len() == 4 && "alac"@[0] == 'a' && "alac"@[1] == 'l' && "alac"@[2] == 'a' && "alac"@[3] == 'c',
        "amr"@.len() == 3 && "amr"@[0] == 'a' && "amr"@[1] == 'm' && "amr"@[2] == 'r',
        "ape"@.len() == 3 && "ape"@[0] == 'a' && "ape"@[1] == 'p' && "ape"@[2] == 'e',
        "au"@.len() == 2 && "au"@[0] == 'a' && "au"@[1] == 'u',
        "caf"@.len() == 3 && "caf"@[0] == 'c' && "caf"@[1] == 'a' && "caf"@[2] == 'f',
        "dts"@.len() == 3 && "dts"@[0] == 'd' && "dts"@[1] == 't' && "dts"@[2] == 's',
        "flac"@.len() == 4 && "flac"@[0] == 'f' && "flac"@[1] == 'l' && "flac"@[2] == 'a' && "flac"@[3] == 'c',
        "m4a"@.len() == 3 && "m4a"@[0] == 'm' && "m4a"@[1] == '4' && "m4a"@[2] == 'a',
        "m4b"@.len() == 3 && "m4b"@[0] == 'm' && "m4b"@[1] == '4' && "m4b"@[2] == 'b',
        "mid"@.len() == 3 && "mid"@[0] == 'm' && "mid"@[1] == 'i' && "mid"@[2] == 'd',
        "midi"@.len() == 4 && "midi"@[0] == 'm' && "midi"@[1] == 'i' && "midi"@[2] == 'd' && "midi"@[3] == 'i',
        "mka"@.len() == 3 && "mka"@[0] == 'm' && "mka"@[1] == 'k' && "mka"@[2] == 'a',
        "mp3"@.len() == 3 && "mp3"@[0] == 'm' && "mp3"@[1] == 'p' && "mp3"@[2] == '3',
        "oga"@.len() == 3 && "oga"@[0] == 'o' && "oga"@[1] == 'g' && "oga"@[2] == 'a',
        "ogg"@.len() == 3 && "ogg"@[0] == 'o' && "ogg"@[1] == 'g' && "ogg"@[2] == 'g',
        "opus"@.len() == 4 && "opus"@[0] == 'o' && "opus"@[1] == 'p' && "opus"@[2] == 'u' && "opus"@[3] == 's',
        "ra"@.len() == 2 && "ra"@[0] == 'r' && "ra"@[1] == 'a',
        "ram"@.len() == 3 && "ram"@[0] == 'r' && "ram"@[1] == 'a' && "ram"@[2] == 'm',
        "wav"@.len() == 3 && "wav"@[0] == 'w' && "wav"@[1] == 'a' && "wav"@[2] == 'v',
        "wma"@.len() == 3 && "wma"@[0] == 'w' && "wma"@[1] == 'm' && "wma"@[2] == 'a',
{
    reveal_strlit("aac");
    reveal_strlit("ac3");
    reveal_strlit("aif");
    reveal_strlit("aifc");
    reveal_strlit("aiff");
    reveal_strlit("alac");
    reveal_strlit("amr");
    reveal_strlit("ape");
    reveal_strlit("au");
    reveal_strlit("caf");
    reveal_strlit("dts");
    reveal_strlit("flac");
    reveal_strlit("m4a");
    reveal_strlit("m4b");
    reveal_strlit("mid");
    reveal_strlit("midi");
    reveal_strlit("mka");
    reveal_strlit("mp3");
    reveal_strlit("oga");
    reveal_strlit("ogg");
    reveal_strlit("opus");
    reveal_strlit("ra");
    reveal_strlit("ram");
    reveal_strlit("wav");
    reveal_strlit("wma");
}

/// Every extension the table lists for audio sorts into `Audio`.
pub proof fn lemma_audio_table()
    ensures
        classify(Some("aac"@)) == Category::Audio,
        classify(Some("ac3"@)) == Category::Audio,
        classify(Some("aif"@)) == Category::Audio,
        classify(Some("aifc"@)) == Category::Audio,
        classify(Some("aiff"@)) == Category::Audio,
        classify(Some("alac"@)) == Category::Audio,
        classify(Some("amr"@)) == Category::Audio,
        classify(Some("ape"@)) == Category::Audio,
        classify(Some("au"@)) == Category::Audio,
        classify(Some("caf"@)) == Category::Audio,
        classify(Some("dts"@)) == Category::Audio,
        classify(Some("flac"@)) == Category::Audio,
        classify(Some("m4a"@)) == Category::Audio,
        classify(Some("m4b"@)) == Category::Audio,
        classify(Some("mid"@)) == Category::Audio,
        classify(Some("midi"@)) == Category::Audio,
        classify(Some("mka"@)) == Category::Audio,
        classify(Some("mp3"@)) == Category::Audio,
        classify(Some("oga"@)) == Category::Audio,
        classify(Some("ogg"@)) == Category::Audio,
        classify(Some("opus"@)) == Category::Audio,
        classify(Some("ra"@)) == Category::Audio,
        classify(Some("ram"@)) == Category::Audio,
        classify(Some("wav"@)) == Category::Audio,
        classify(Some("wma"@)) == Category::Audio,
{
    lemma_images_spelled();
    lemma_videos_spelled();
    lemma_audio_spelled();
}

/// How the documents extensions are spelled, letter by letter.
proof fn lemma_documents_spelled()
    ensures
        "csv"@.len() == 3 && "csv"@[0] == 'c' && "csv"@[1] == 's' && "csv"@[2] == 'v',
        "doc"@.len() == 3 && "doc"@[0] == 'd' && "doc"@[1] == 'o' && "doc"@[2] == 'c',
        "docm"@.len() == 4 && "docm"@[0] == 'd' && "docm"@[1] == 'o' && "docm"@[2] == 'c' && "docm"@[3] == 'm',
        "docx"@.len() == 4 && "docx"@[0] == 'd' && "docx"@[1] == 'o' && "docx"@[2] == 'c' && "docx"@[3] == 'x',
        "dot"@.len() == 3 && "dot"@[0] == 'd' && "dot"@[1] == 'o' && "dot"@[2] == 't',
        "dotm"@.len() == 4 && "dotm"@[0] == 'd' && "dotm"@[1] == 'o' && "dotm"@[2] == 't' && "dotm"@[3] == 'm',
        "dotx"@.len() == 4 && "dotx"@[0] == 'd' && "dotx"@[1] == 'o' && "dotx"@[2] == 't' && "dotx"@[3] == 'x',
        "key"@.len() == 3 && "key"@[0] == 'k' && "key"@[1] == 'e' && "key"@[2] == 'y',
        "markdown"@.len() == 8 && "markdown"@[0] == 'm' && "markdown"@[1] == 'a' && "markdown"@[2] == 'r' && "markdown"@[3] == 'k' && "markdown"@[4] == 'd' && "markdown"@[5] == 'o' && "markdown"@[6] == 'w' && "markdown"@[7] == 'n',
        "md"@.len() == 2 && "md"@[0] == 'm' && "md"@[1] == 'd',
        "odp"@.len() == 3 && "odp"@[0] == 'o' && "odp"@[1] == 'd' && "odp"@[2] == 'p',
        "ods"@.len() == 3 && "ods"@[0] == 'o' && "ods"@[1] == 'd' && "ods"@[2] == 's',
        "odt"@.len() == 3 && "odt"@[0] == 'o' && "odt"@[1] == 'd' && "odt"@[2] == 't',
        "otp"@.len() == 3 && "otp"@[0] == 'o' && "otp"@[1] == 't' && "otp"@[2] == 'p',
        "ots"@.len() == 3 && "ots"@[0] == 'o' && "ots"@[1] == 't' && "ots"@[2] == 's',
        "ott"@.len() == 3 && "ott"@[0] == 'o' && "ott"@[1] == 't' && "ott"@[2] == 't',
        "pages"@.len() == 5 && "pages"@[0] == 'p' && "pages"@[1] == 'a' && "pages"@[2] == 'g' && "pages"@[3] == 'e' && "pages"@[4] == 's',
        "pdf"@.len() == 3 && "pdf"@[0] == 'p' && "pdf"@[1] == 'd' && "pdf"@[2] == 'f',
        "pps"@.len() == 3 && "pps"@[0] == 'p' && "pps"@[1] == 'p' && "pps"@[2] == 's',
        "ppsx"@.len() == 4 && "ppsx"@[0] == 'p' && "ppsx"@[1] == 'p' && "ppsx"@[2] == 's' && "ppsx"@[3] == 'x',
        "ppt"@.len() == 3 && "ppt"@[0] == 'p' && "ppt"@[1] == 'p' && "ppt"@[2] == 't',
        "pptm"@.len() == 4 && "pptm"@[0] == 'p' && "pptm"@[1] == 'p' && "pptm"@[2] == 't' && "pptm"@[3] == 'm',
        "pptx"@.len() == 4 && "pptx"@[0] == 'p' && "pptx"@[1] == 'p' && "pptx"@[2] == 't' && "pptx"@[3] == 'x',
        "rtf"@.len() == 3 && "rtf"@[0] == 'r' && "rtf"@[1] == 't' && "rtf"@[2] == 'f',
        "tex"@.len() == 3 && "tex"@[0] == 't' && "tex"@[1] == 'e' && "tex"@[2] == 'x',
        "tsv"@.len() == 3 && "tsv"@[0] == 't' && "tsv"@[1] == 's' && "tsv"@[2] == 'v',
        "txt"@.len() == 3 && "txt"@[0] == 't' && "txt"@[1] == 'x' && "txt"@[2] == 't',
        "wpd"@.len() == 3 && "wpd"@[0] == 'w' && "wpd"@[1] == 'p' && "wpd"@[2] == 'd',
        "wps"@.len() == 3 && "wps"@[0] == 'w' && "wps"@[1] == 'p' && "wps"@[2] == 's',
        "xls"@.len() == 3 && "xls"@[0] == 'x' && "xls"@[1] == 'l' && "xls"@[2] == 's',
        "xlsb"@.len() == 4 && "xlsb"@[0] == 'x' && "xlsb"@[1] == 'l' && "xlsb"@[2] == 's' && "xlsb"@[3] == 'b',
        "xlsm"@.len() == 4 && "xlsm"@[0] == 'x' && "xlsm"@[1] == 'l' && "xlsm"@[2] == 's' && "xlsm"@[3] == 'm',
        "xlsx"@.len() == 4 && "xlsx"@[0] == 'x' && "xlsx"@[1] == 'l' && "xlsx"@[2] == 's' && "xlsx"@[3] == 'x',
        "xlt"@.len() == 3 && "xlt"@[0] == 'x' && "xlt"@[1] == 'l' && "xlt"@[2] == 't',
        "xltm"@.len() == 4 && "xltm"@[0] == 'x' && "xltm"@[1] == 'l' && "xltm"@[2] == 't' && "xltm"@[3] == 'm',
        "xltx"@.len() == 4 && "xltx"@[0] == 'x' && "xltx"@[1] == 'l' && "xltx"@[2] == 't' && "xltx"@[3] == 'x',
{
    reveal_strlit("csv");
    reveal_strlit("doc");
    reveal_strlit("docm");
    reveal_strlit("docx");
    reveal_strlit("dot");
    reveal_strlit("dotm");
    reveal_strlit("dotx");
    reveal_strlit("key");
    reveal_strlit("markdown");
    reveal_strlit("md");
    reveal_strlit("odp");
    reveal_strlit("ods");
    reveal_strlit("odt");
    reveal_strlit("otp");
    reveal_strlit("ots");
    reveal_strlit("ott");
    reveal_strlit("pages");
    reveal_strlit("pdf");
    reveal_strlit("pps");
    reveal_strlit("ppsx");
    reveal_strlit("ppt");
    reveal_strlit("pptm");
    reveal_strlit("pptx");
    reveal_strlit("rtf");
    reveal_strlit("tex");
    reveal_strlit("tsv");
    reveal_strlit("txt");
    reveal_strlit("wpd");
    reveal_strlit("wps");
    reveal_strlit("xls");
    reveal_strlit("xlsb");
    reveal_strlit("xlsm");
    reveal_strlit("xlsx");
    reveal_strlit("xlt");
    reveal_strlit("xltm");
    reveal_strlit("xltx");
}

/// Every extension the table lists for documents sorts into `Documents`.
#[verifier::spinoff_prover]
#[verifier::rlimit(50)]
pub proof fn lemma_documents_table()
    ensures
        classify(Some("csv"@)) == Category::Documents,
        classify(Some("doc"@)) == Category::Documents,
        classify(Some("docm"@)) == Category::Documents,
        classify(Some("docx"@)) == Category::Documents,
        classify(Some("dot"@)) == Category::Documents,
        classify(Some("dotm"@)) == Category::Documents,
        classify(Some("dotx"@)) == Category::Documents,
        classify(Some("key"@)) == Category::Documents,
        classify(Some("markdown"@)) == Category::Documents,
        classify(Some("md"@)) == Category::Documents,
        classify(Some("odp"@)) == Category::Documents,
        classify(Some("ods"@)) == Category::Documents,
        classify(Some("odt"@)) == Category::Documents,
        classify(Some("otp"@)) == Category::Documents,
        classify(Some("ots"@)) == Category::Documents,
        classify(Some("ott"@)) == Category::Documents,
        classify(Some("pages"@)) == Category::Documents,
        classify(Some("pdf"@)) == Category::Documents,
        classify(Some("pps"@)) == Category::Documents,
        classify(Some("ppsx"@)) == Category::Documents,
        classify(Some("ppt"@)) == Category::Documents,
        classify(Some("pptm"@)) == Category::Documents,
        classify(Some("pptx"@)) == Category::Documents,
        classify(Some("rtf"@)) == Category::Documents,
        classify(Some("tex"@)) == Category::Documents,
        classify(Some("tsv"@)) == Category::Documents,
        classify(Some("txt"@)) == Category::Documents,
        classify(Some("wpd"@)) == Category::Documents,
        classify(Some("wps"@)) == Category::Documents,
        classify(Some("xls"@)) == Category::Documents,
        classify(Some("xlsb"@)) == Category::Documents,
        classify(Some("xlsm"@)) == Category::Documents,
        classify(Some("xlsx"@)) == Category::Documents,
        classify(Some("xlt"@)) == Category::Documents,
        classify(Some("xltm"@)) == Category::Documents,
        classify(Some("xltx"@)) == Category::Documents,
{
    lemma_images_spelled();
    lemma_videos_spelled();
    lemma_audio_spelled();
    lemma_documents_spelled();
}

/// How the archives extensions are spelled, letter by letter.
proof fn lemma_archives_spelled()
    ensures
        "7z"@.len() == 2 && "7z"@[0] == '7' && "7z"@[1] == 'z',
        "bz2"@.len() == 3 && "bz2"@[0] == 'b' && "bz2"@[1] == 'z' && "bz2"@[2] == '2',
        "gz"@.len() == 2 && "gz"@[0] == 'g' && "gz"@[1] == 'z',
        "rar"@.len() == 3 && "rar"@[0] == 'r' && "rar"@[1] == 'a' && "rar"@[2] == 'r',
        "tar"@.len() == 3 && "tar"@[0] == 't' && "tar"@[1] == 'a' && "tar"@[2] == 'r',
        "tbz2"@.len() == 4 && "tbz2"@[0] == 't' && "tbz2"@[1] == 'b' && "tbz2"@[2] == 'z' && "tbz2"@[3] == '2',
        "tgz"@.len() == 3 && "tgz"@[0] == 't' && "tgz"@[1] == 'g' && "tgz"@[2] == 'z',
        "xz"@.len() == 2 && "xz"@[0] == 'x' && "xz"@[1] == 'z',
        "zip"@.len() == 3 && "zip"@[0] == 'z' && "zip"@[1] == 'i' && "zip"@[2] == 'p',
        "zst"@.len() == 3 && "zst"@[0] == 'z' && "zst"@[1] == 's' && "zst"@[2] == 't',
{
    reveal_strlit("7z");
    reveal_strlit("bz2");
    reveal_strlit("gz");
    reveal_strlit("rar");
    reveal_strlit("tar");
    reveal_strlit("tbz2");
    reveal_strlit("tgz");
    reveal_strlit("xz");
    reveal_strlit("zip");
    reveal_strlit("zst");
}

/// Every extension the table lists for archives sorts into `Archives`.
#[verifier::spinoff_prover]
#[verifier::rlimit(50)]
pub proof fn lemma_archives_table()
    ensures
        classify(Some("7z"@)) == Category::Archives,
        classify(Some("bz2"@)) == Category::Archives,
        classify(Some("gz"@)) == Category::Archives,
        classify(Some("rar"@)) == Category::Archives,
        classify(Some("tar"@)) == Category::Archives,
        classify(Some("tbz2"@)) == Category::Archives,
        classify(Some("tgz"@)) == Category::Archives,
        classify(Some("xz"@)) == Category::Archives,
        classify(Some("zip"@)) == Category::Archives,
        classify(Some("zst"@)) == Category::Archives,
{
    lemma_images_spelled();
    lemma_videos_spelled();
    lemma_audio_spelled();
    lemma_documents_spelled();
    lemma_archives_spelled();
}

/// How the applications extensions are spelled, letter by letter.
proof fn lemma_applications_spelled()
    ensures
        "appx"@.len() == 4 && "appx"@[0] == 'a' && "appx"@[1] == 'p' && "appx"@[2] == 'p' && "appx"@[3] == 'x',
        "appxbundle"@.len() == 10 && "appxbundle"@[0] == 'a' && "appxbundle"@[1] == 'p' && "appxbundle"@[2] == 'p' && "appxbundle"@[3] == 'x' && "appxbundle"@[4] == 'b' && "appxbundle"@[5] == 'u' && "appxbundle"@[6] == 'n' && "appxbundle"@[7] == 'd' && "appxbundle"@[8] == 'l' && "appxbundle"@[9] == 'e',
        "bat"@.len() == 3 && "bat"@[0] == 'b' && "bat"@[1] == 'a' && "bat"@[2] == 't',
        "cmd"@.len() == 3 && "cmd"@[0] == 'c' && "cmd"@[1] == 'm' && "cmd"@[2] == 'd',
        "com"@.len() == 3 && "com"@[0] == 'c' && "com"@[1] == 'o' && "com"@[2] == 'm',
        "exe"@.len() == 3 && "exe"@[0] == 'e' && "exe"@[1] == 'x' && "exe"@[2] == 'e',
        "msi"@.len() == 3 && "msi"@[0] == 'm' && "msi"@[1] == 's' && "msi"@[2] == 'i',
        "msix"@.len() == 4 && "msix"@[0] == 'm' && "msix"@[1] == 's' && "msix"@[2] == 'i' && "msix"@[3] == 'x',
        "msixbundle"@.len() == 10 && "msixbundle"@[0] == 'm' && "msixbundle"@[1] == 's' && "msixbundle"@[2] == 'i' && "msixbundle"@[3] == 'x' && "msixbundle"@[4] == 'b' && "msixbundle"@[5] == 'u' && "msixbundle"@[6] == 'n' && "msixbundle"@[7] == 'd' && "msixbundle"@[8] == 'l' && "msixbundle"@[9] == 'e',
        "scr"@.len() == 3 && "scr"@[0] == 's' && "scr"@[1] == 'c' && "scr"@[2] == 'r',
{
    reveal_strlit("appx");
    reveal_strlit("appxbundle");
    reveal_strlit("bat");
    reveal_strlit("cmd");
    reveal_strlit("com");
    reveal_strlit("exe");
    reveal_strlit("msi");
    reveal_strlit("msix");
    reveal_strlit("msixbundle");
    reveal_strlit("scr");
}

/// Every extension the table lists for applications sorts into `Applications`.
#[verifier::spinoff_prover]
#[verifier::rlimit(50)]
pub proof fn lemma_applications_table()
    ensures
        classify(Some("appx"@)) == Category::Applications,
        classify(Some("appxbundle"@)) == Category::Applications,
        classify(Some("bat"@)) == Category::Applications,
        classify(Some("cmd"@)) == Category::Applications,
        classify(Some("com"@)) == Category::Applications,
        classify(Some("exe"@)) == Category::Applications,
        classify(Some("msi"@)) == Category::Applications,
        classify(Some("msix"@)) == Category::Applications,
        classify(Some("msixbundle"@)) == Category::Applications,
        classify(Some("scr"@)) == Category::Applications,
{
    lemma_images_spelled();
    lemma_videos_spelled();
    lemma_audio_spelled();
    lemma_documents_spelled();
    lemma_archives_spelled();
    lemma_applications_spelled();
}

/// How the source code and configuration extensions are spelled, letter by letter.
proof fn lemma_code_spelled()
    ensures
        "astro"@.len() == 5 && "astro"@[0] == 'a' && "astro"@[1] == 's' && "astro"@[2] == 't' && "astro"@[3] == 'r' && "astro"@[4] == 'o',
        "c"@.len() == 1 && "c"@[0] == 'c',
        "cpp"@.len() == 3 && "cpp"@[0] == 'c' && "cpp"@[1] == 'p' && "cpp"@[2] == 'p',
        "cs"@.len() == 2 && "cs"@[0] == 'c' && "cs"@[1] == 's',
        "css"@.len() == 3 && "css"@[0] == 'c' && "css"@[1] == 's' && "css"@[2] == 's',
        "dart"@.len() == 4 && "dart"@[0] == 'd' && "dart"@[1] == 'a' && "dart"@[2] == 'r' && "dart"@[3] == 't',
        "env"@.len() == 3 && "env"@[0] == 'e' && "env"@[1] == 'n' && "env"@[2] == 'v',
        "fish"@.len() == 4 && "fish"@[0] == 'f' && "fish"@[1] == 'i' && "fish"@[2] == 's' && "fish"@[3] == 'h',
        "go"@.len() == 2 && "go"@[0] == 'g' && "go"@[1] == 'o',
        "h"@.len() == 1 && "h"@[0] == 'h',
        "hpp"@.len() == 3 && "hpp"@[0] == 'h' && "hpp"@[1] == 'p' && "hpp"@[2] == 'p',
        "htm"@.len() == 3 && "htm"@[0] == 'h' && "htm"@[1] == 't' && "htm"@[2] == 'm',
        "html"@.len() == 4 && "html"@[0] == 'h' && "html"@[1] == 't' && "html"@[2] == 'm' && "html"@[3] == 'l',
        "ini"@.len() == 3 && "ini"@[0] == 'i' && "ini"@[1] == 'n' && "ini"@[2] == 'i',
        "java"@.len() == 4 && "java"@[0] == 'j' && "java"@[1] == 'a' && "java"@[2] == 'v' && "java"@[3] == 'a',
        "js"@.len() == 2 && "js"@[0] == 'j' && "js"@[1] == 's',
        "json"@.len() == 4 && "json"@[0] == 'j' && "json"@[1] == 's' && "json"@[2] == 'o' && "json"@[3] == 'n',
        "jsx"@.len() == 3 && "jsx"@[0] == 'j' && "jsx"@[1] == 's' && "jsx"@[2] == 'x',
        "kt"@.len() == 2 && "kt"@[0] == 'k' && "kt"@[1] == 't',
        "kts"@.len() == 3 && "kts"@[0] == 'k' && "kts"@[1] == 't' && "kts"@[2] == 's',
        "less"@.len() == 4 && "less"@[0] == 'l' && "less"@[1] == 'e' && "less"@[2] == 's' && "less"@[3] == 's',
        "lua"@.len() == 3 && "lua"@[0] == 'l' && "lua"@[1] == 'u' && "lua"@[2] == 'a',
        "php"@.len() == 3 && "php"@[0] == 'p' && "php"@[1] == 'h' && "php"@[2] == 'p',
        "ps1"@.len() == 3 && "ps1"@[0] == 'p' && "ps1"@[1] == 's' && "ps1"@[2] == '1',
        "py"@.len() == 2 && "py"@[0] == 'p' && "py"@[1] == 'y',
        "r"@.len() == 1 && "r"@[0] == 'r',
        "rb"@.len() == 2 && "rb"@[0] == 'r' && "rb"@[1] == 'b',
        "rs"@.len() == 2 && "rs"@[0] == 'r' && "rs"@[1] == 's',
        "sass"@.len() == 4 && "sass"@[0] == 's' && "sass"@[1] == 'a' && "sass"@[2] == 's' && "sass"@[3] == 's',
        "scss"@.len() == 4 && "scss"@[0] == 's' && "scss"@[1] == 'c' && "scss"@[2] == 's' && "scss"@[3] == 's',
        "sh"@.len() == 2 && "sh"@[0] == 's' && "sh"@[1] == 'h',
        "sql"@.len() == 3 && "sql"@[0] == 's' && "sql"@[1] == 'q' && "sql"@[2] == 'l',
        "svelte"@.len() == 6 && "svelte"@[0] == 's' && "svelte"@[1] == 'v' && "svelte"@[2] == 'e' && "svelte"@[3] == 'l' && "svelte"@[4] == 't' && "svelte"@[5] == 'e',
        "swift"@.len() == 5 && "swift"@[0] == 's' && "swift"@[1] == 'w' && "swift"@[2] == 'i' && "swift"@[3] == 'f' && "swift"@[4] == 't',
        "toml"@.len() == 4 && "toml"@[0] == 't' && "toml"@[1] == 'o' && "toml"@[2] == 'm' && "toml"@[3] == 'l',
        "ts"@.len() == 2 && "ts"@[0] == 't' && "ts"@[1] == 's',
        "tsx"@.len() == 3 && "tsx"@[0] == 't' && "tsx"@[1] == 's' && "tsx"@[2] == 'x',
        "vue"@.len() == 3 && "vue"@[0] == 'v' && "vue"@[1] == 'u' && "vue"@[2] == 'e',
        "xml"@.len() == 3 && "xml"@[0] == 'x' && "xml"@[1] == 'm' && "xml"@[2] == 'l',
        "yaml"@.len() == 4 && "yaml"@[0] == 'y' && "yaml"@[1] == 'a' && "yaml"@[2] == 'm' && "yaml"@[3] == 'l',
        "yml"@.len() == 3 && "yml"@[0] == 'y' && "yml"@[1] == 'm' && "yml"@[2] == 'l',
{
    reveal_strlit("astro");
    reveal_strlit("c");
    reveal_strlit("cpp");
    reveal_strlit("cs");
    reveal_strlit("css");
    reveal_strlit("dart");
    reveal_strlit("env");
    reveal_strlit("fish");
    reveal_strlit("go");
    reveal_strlit("h");
    reveal_strlit("hpp");
    reveal_strlit("htm");
    reveal_strlit("html");
    reveal_strlit("ini");
    reveal_strlit("java");
    reveal_strlit("js");
    reveal_strlit("json");
    reveal_strlit("jsx");
    reveal_strlit("kt");
    reveal_strlit("kts");
    reveal_strlit("less");
    reveal_strlit("lua");
    reveal_strlit("php");
    reveal_strlit("ps1");
    reveal_strlit("py");
    reveal_strlit("r");
    reveal_strlit("rb");
    reveal_strlit("rs");
    reveal_strlit("sass");
    reveal_strlit("scss");
    reveal_strlit("sh");
    reveal_strlit("sql");
    reveal_strlit("svelte");
    reveal_strlit("swift");
    reveal_strlit("toml");
    reveal_strlit("ts");
    reveal_strlit("tsx");
    reveal_strlit("vue");
    reveal_strlit("xml");
    reveal_strlit("yaml");
    reveal_strlit("yml");
}

/// Every extension the table lists for source code and configuration sorts into `Code`.
#[verifier::spinoff_prover]
#[verifier::rlimit(50)]
pub proof fn lemma_code_table()
    ensures
        classify(Some("astro"@)) == Category::Code,
        classify(Some("c"@)) == Category::Code,
        classify(Some("cpp"@)) == Category::Code,
        classify(Some("cs"@)) == Category::Code,
        classify(Some("css"@)) == Category::Code,
        classify(Some("dart"@)) == Category::Code,
        classify(Some("env"@)) == Category::Code,
        classify(Some("fish"@)) == Category::Code,
        classify(Some("go"@)) == Category::Code,
        classify(Some("h"@)) == Category::Code,
        classify(Some("hpp"@)) == Category::Code,
        classify(Some("htm"@)) == Category::Code,
        classify(Some("html"@)) == Category::Code,
        classify(Some("ini"@)) == Category::Code,
        classify(Some("java"@)) == Category::Code,
        classify(Some("js"@)) == Category::Code,
        classify(Some("json"@)) == Category::Code,
        classify(Some("jsx"@)) == Category::Code,
        classify(Some("kt"@)) == Category::Code,
        classify(Some("kts"@)) == Category::Code,
        classify(Some("less"@)) == Category::Code,
        classify(Some("lua"@)) == Category::Code,
        classify(Some("php"@)) == Category::Code,
        classify(Some("ps1"@)) == Category::Code,
        classify(Some("py"@)) == Category::Code,
        classify(Some("r"@)) == Category::Code,
        classify(Some("rb"@)) == Category::Code,
        classify(Some("rs"@)) == Category::Code,
        classify(Some("sass"@)) == Category::Code,
        classify(Some("scss"@)) == Category::Code,
        classify(Some("sh"@)) == Category::Code,
        classify(Some("sql"@)) == Category::Code,
        classify(Some("svelte"@)) == Category::Code,
        classify(Some("swift"@)) == Category::Code,
        classify(Some("toml"@)) == Category::Code,
        classify(Some("ts"@)) == Category::Code,
        classify(Some("tsx"@)) == Category::Code,
        classify(Some("vue"@)) == Category::Code,
        classify(Some("xml"@)) == Category::Code,
        classify(Some("yaml"@)) == Category::Code,
        classify(Some("yml"@)) == Category::Code,
{
    lemma_images_spelled();
    lemma_videos_spelled();
    lemma_audio_spelled();
    lemma_documents_spelled();
    lemma_archives_spelled();
    lemma_applications_spelled();
    lemma_code_spelled();
}

/// How the fonts extensions are spelled, letter by letter.
proof fn lemma_fonts_spelled()
    ensures
        "eot"@.len() == 3 && "eot"@[0] == 'e' && "eot"@[1] == 'o' && "eot"@[2] == 't',
        "otf"@.len() == 3 && "otf"@[0] == 'o' && "otf"@[1] == 't' && "otf"@[2] == 'f',
        "ttf"@.len() == 3 && "ttf"@[0] == 't' && "ttf"@[1] == 't' && "ttf"@[2] == 'f',
        "woff"@.len() == 4 && "woff"@[0] == 'w' && "woff"@[1] == 'o' && "woff"@[2] == 'f' && "woff"@[3] == 'f',
        "woff2"@.len() == 5 && "woff2"@[0] == 'w' && "woff2"@[1] == 'o' && "woff2"@[2] == 'f' && "woff2"@[3] == 'f' && "woff2"@[4] == '2',
{
    reveal_strlit("eot");
    reveal_strlit("otf");
    reveal_strlit("ttf");
    reveal_strlit("woff");
    reveal_strlit("woff2");
}

/// Every extension the table lists for fonts sorts into `Fonts`.
#[verifier::spinoff_prover]
#[verifier::rlimit(50)]
pub proof fn lemma_fonts_table()
    ensures
        classify(Some("eot"@)) == Category::Fonts,
        classify(Some("otf"@)) == Category::Fonts,
        classify(Some("ttf"@)) == Category::Fonts,
        classify(Some("woff"@)) == Category::Fonts,
        classify(Some("woff2"@)) == Category::Fonts,
{
    lemma_images_spelled();
    lemma_videos_spelled();
    lemma_audio_spelled();
    lemma_documents_spelled();
    lemma_archives_spelled();
    lemma_applications_spelled();
    lemma_code_spelled();
    lemma_fonts_spelled();
}

/// How the disk images extensions are spelled, letter by letter.
proof fn lemma_disk_images_spelled()
    ensures
        "dmg"@.len() == 3 && "dmg"@[0] == 'd' && "dmg"@[1] == 'm' && "dmg"@[2] == 'g',
        "img"@.len() == 3 && "img"@[0] == 'i' && "img"@[1] == 'm' && "img"@[2] == 'g',
        "iso"@.len() == 3 && "iso"@[0] == 'i' && "iso"@[1] == 's' && "iso"@[2] == 'o',
        "qcow"@.len() == 4 && "qcow"@[0] == 'q' && "qcow"@[1] == 'c' && "qcow"@[2] == 'o' && "qcow"@[3] == 'w',
        "qcow2"@.len() == 5 && "qcow2"@[0] == 'q' && "qcow2"@[1] == 'c' && "qcow2"@[2] == 'o' && "qcow2"@[3] == 'w' && "qcow2"@[4] == '2',
        "vhd"@.len() == 3 && "vhd"@[0] == 'v' && "vhd"@[1] == 'h' && "vhd"@[2] == 'd',
        "vhdx"@.len() == 4 && "vhdx"@[0] == 'v' && "vhdx"@[1] == 'h' && "vhdx"@[2] == 'd' && "vhdx"@[3] == 'x',
        "vmdk"@.len() == 4 && "vmdk"@[0] == 'v' && "vmdk"@[1] == 'm' && "vmdk"@[2] == 'd' && "vmdk"@[3] == 'k',
{
    reveal_strlit("dmg");
    reveal_strlit("img");
    reveal_strlit("iso");
    reveal_strlit("qcow");
    reveal_strlit("qcow2");
    reveal_strlit("vhd");
    reveal_strlit("vhdx");
    reveal_strlit("vmdk");
}

/// Every extension the table lists for disk images sorts into `DiskImages`.
#[verifier::spinoff_prover]
#[verifier::rlimit(50)]
pub proof fn lemma_disk_images_table()
    ensures
        classify(Some("dmg"@)) == Category::DiskImages,
        classify(Some("img"@)) == Category::DiskImages,
        classify(Some("iso"@)) == Category::DiskImages,
        classify(Some("qcow"@)) == Category::DiskImages,
        classify(Some("qcow2"@)) == Category::DiskImages,
        classify(Some("vhd"@)) == Category::DiskImages,
        classify(Some("vhdx"@)) == Category::DiskImages,
        classify(Some("vmdk"@)) == Category::DiskImages,
{
    lemma_images_spelled();
    lemma_videos_spelled();
    lemma_audio_spelled();
    lemma_documents_spelled();
    lemma_archives_spelled();
    lemma_applications_spelled();
    lemma_code_spelled();
    lemma_fonts_spelled();
    lemma_disk_images_spelled();
}

/// How the shortcuts extensions are spelled, letter by letter.
proof fn lemma_shortcuts_spelled()
    ensures
        "lnk"@.len() == 3 && "lnk"@[0] == 'l' && "lnk"@[1] == 'n' && "lnk"@[2] == 'k',
        "url"@.len() == 3 && "url"@[0] == 'u' && "url"@[1] == 'r' && "url"@[2] == 'l',
        "webloc"@.len() == 6 && "webloc"@[0] == 'w' && "webloc"@[1] == 'e' && "webloc"@[2] == 'b' && "webloc"@[3] == 'l' && "webloc"@[4] == 'o' && "webloc"@[5] == 'c',
{
    reveal_strlit("lnk");
    reveal_strlit("url");
    reveal_strlit("webloc");
}

/// Every extension the table lists for shortcuts sorts into `Shortcuts`.
#[verifier::spinoff_prover]
#[verifier::rlimit(50)]
pub proof fn lemma_shortcuts_table()
    ensures
        classify(Some("lnk"@)) == Category::Shortcuts,
        classify(Some("url"@)) == Category::Shortcuts,
        classify(Some("webloc"@)) == Category::Shortcuts,
{
    lemma_images_spelled();
    lemma_videos_spelled();
    lemma_audio_spelled();
    lemma_documents_spelled();
    lemma_archives_spelled();
    lemma_applications_spelled();
    lemma_code_spelled();
    lemma_fonts_spelled();
    lemma_disk_images_spelled();
    lemma_shortcuts_spelled();
}

/// How the e-books extensions are spelled, letter by letter.
proof fn lemma_ebooks_spelled()
    ensures
        "azw"@.len() == 3 && "azw"@[0] == 'a' && "azw"@[1] == 'z' && "azw"@[2] == 'w',
        "azw3"@.len() == 4 && "azw3"@[0] == 'a' && "azw3"@[1] == 'z' && "azw3"@[2] == 'w' && "azw3"@[3] == '3',
        "djvu"@.len() == 4 && "djvu"@[0] == 'd' && "djvu"@[1] == 'j' && "djvu"@[2] == 'v' && "djvu"@[3] == 'u',
        "epub"@.len() == 4 && "epub"@[0] == 'e' && "epub"@[1] == 'p' && "epub"@[2] == 'u' && "epub"@[3] == 'b',
        "fb2"@.len() == 3 && "fb2"@[0] == 'f' && "fb2"@[1] == 'b' && "fb2"@[2] == '2',
        "mobi"@.len() == 4 && "mobi"@[0] == 'm' && "mobi"@[1] == 'o' && "mobi"@[2] == 'b' && "mobi"@[3] == 'i',
{
    reveal_strlit("azw");
    reveal_strlit("azw3");
    reveal_strlit("djvu");
    reveal_strlit("epub");
    reveal_strlit("fb2");
    reveal_strlit("mobi");
}

/// Every extension the table lists for e-books sorts into `EBooks`.
#[verifier::spinoff_prover]
#[verifier::rlimit(50)]
pub proof fn lemma_ebooks_table()
    ensures
        classify(Some("azw"@)) == Category::EBooks,
        classify(Some("azw3"@)) == Category::EBooks,
        classify(Some("djvu"@)) == Category::EBooks,
        classify(Some("epub"@)) == Category::EBooks,
        classify(Some("fb2"@)) == Category::EBooks,
        classify(Some("mobi"@)) == Category::EBooks,
{
    lemma_images_spelled();
    lemma_videos_spelled();
    lemma_audio_spelled();
    lemma_documents_spelled();
    lemma_archives_spelled();
    lemma_applications_spelled();
    lemma_code_spelled();
    lemma_fonts_spelled();
    lemma_disk_images_spelled();
    lemma_shortcuts_spelled();
    lemma_ebooks_spelled();
}

/// How the Android builds extensions are spelled, letter by letter.
proof fn lemma_android_builds_spelled()
    ensures
        "aab"@.len() == 3 && "aab"@[0] == 'a' && "aab"@[1] == 'a' && "aab"@[2] == 'b',
        "apk"@.len() == 3 && "apk"@[0] == 'a' && "apk"@[1] == 'p' && "apk"@[2] == 'k',
{
    reveal_strlit("aab");
    reveal_strlit("apk");
}

/// Every extension the table lists for Android builds sorts into `AndroidBuilds`.
#[verifier::spinoff_prover]
#[verifier::rlimit(50)]
pub proof fn lemma_android_builds_table()
    ensures
        classify(Some("aab"@)) == Category::AndroidBuilds,
        classify(Some("apk"@)) == Category::AndroidBuilds,
{
    lemma_images_spelled();
    lemma_videos_spelled();
    lemma_audio_spelled();
    lemma_documents_spelled();
    lemma_archives_spelled();
    lemma_applications_spelled();
    lemma_code_spelled();
    lemma_fonts_spelled();
    lemma_disk_images_spelled();
    lemma_shortcuts_spelled();
    lemma_ebooks_spelled();
    lemma_android_builds_spelled();
}

/// How the iOS builds extensions are spelled, letter by letter.
proof fn lemma_ios_builds_spelled()
    ensures
        "ipa"@.len() == 3 && "ipa"@[0] == 'i' && "ipa"@[1] == 'p' && "ipa"@[2] == 'a',
{
    reveal_strlit("ipa");
}

/// Every extension the table lists for iOS builds sorts into `IosBuilds`.
#[verifier::spinoff_prover]
#[verifier::rlimit(50)]
pub proof fn lemma_ios_builds_table()
    ensures
        classify(Some("ipa"@)) == Category::IosBuilds,
{
    lemma_images_spelled();
    lemma_videos_spelled();
    lemma_audio_spelled();
    lemma_documents_spelled();
    lemma_archives_spelled();
    lemma_applications_spelled();
    lemma_code_spelled();
    lemma_fonts_spelled();
    lemma_disk_images_spelled();
    lemma_shortcuts_spelled();
    lemma_ebooks_spelled();
    lemma_android_builds_spelled();
    lemma_ios_builds_spelled();
}

/// Only the extensions of the table sort into a category: every other
/// extension, and a missing one, is `Other`.
pub proof fn lemma_unlisted_is_other(ext: Option<Seq<char>>)
    ensures
        ext is None ==> classify(ext) == Category::Other,
        classify(ext) != Category::Other ==> {
            ||| ext->0 == "3g2"@
            ||| ext->0 == "3gp"@
            ||| ext->0 == "7z"@
            ||| ext->0 == "aab"@
            ||| ext->0 == "aac"@
            ||| ext->0 == "ac3"@
            ||| ext->0 == "aif"@
            ||| ext->0 == "aifc"@
            ||| ext->0 == "aiff"@
            ||| ext->0 == "alac"@
            ||| ext->0 == "amr"@
            ||| ext->0 == "ape"@
            ||| ext->0 == "apk"@
            ||| ext->0 == "appx"@
            ||| ext->0 == "appxbundle"@
            ||| ext->0 == "arw"@
            ||| ext->0 == "asf"@
            ||| ext->0 == "astro"@
            ||| ext->0 == "au"@
            ||| ext->0 == "avi"@
            ||| ext->0 == "avif"@
            ||| ext->0 == "azw"@
            ||| ext->0 == "azw3"@
            ||| ext->0 == "bat"@
            ||| ext->0 == "bmp"@
            ||| ext->0 == "bz2"@
            ||| ext->0 == "c"@
            ||| ext->0 == "caf"@
            ||| ext->0 == "cmd"@
            ||| ext->0 == "com"@
            ||| ext->0 == "cpp"@
            ||| ext->0 == "cr2"@
            ||| ext->0 == "cr3"@
            ||| ext->0 == "cs"@
            ||| ext->0 == "css"@
            ||| ext->0 == "csv"@
            ||| ext->0 == "dart"@
            ||| ext->0 == "dib"@
            ||| ext->0 == "divx"@
            ||| ext->0 == "djvu"@
            ||| ext->0 == "dmg"@
            ||| ext->0 == "dng"@
            ||| ext->0 == "doc"@
            ||| ext->0 == "docm"@
            ||| ext->0 == "docx"@
            ||| ext->0 == "dot"@
            ||| ext->0 == "dotm"@
            ||| ext->0 == "dotx"@
            ||| ext->0 == "dts"@
            ||| ext->0 == "env"@
            ||| ext->0 == "eot"@
            ||| ext->0 == "epub"@
            ||| ext->0 == "exe"@
            ||| ext->0 == "f4a"@
            ||| ext->0 == "f4b"@
            ||| ext->0 == "f4p"@
            ||| ext->0 == "f4v"@
            ||| ext->0 == "fb2"@
            ||| ext->0 == "fish"@
            ||| ext->0 == "flac"@
            ||| ext->0 == "flv"@
            ||| ext->0 == "gif"@
            ||| ext->0 == "go"@
            ||| ext->0 == "gz"@
            ||| ext->0 == "h"@
            ||| ext->0 == "heic"@
            ||| ext->0 == "heif"@
            ||| ext->0 == "hpp"@
            ||| ext->0 == "htm"@
            ||| ext->0 == "html"@
            ||| ext->0 == "ico"@
            ||| ext->0 == "img"@
            ||| ext->0 == "ini"@
            ||| ext->0 == "ipa"@
            ||| ext->0 == "iso"@
            ||| ext->0 == "java"@
            ||| ext->0 == "jpe"@
            ||| ext->0 == "jpeg"@
            ||| ext->0 == "jpg"@
            ||| ext->0 == "js"@
            ||| ext->0 == "json"@
            ||| ext->0 == "jsx"@
            ||| ext->0 == "key"@
            ||| ext->0 == "kt"@
            ||| ext->0 == "kts"@
            ||| ext->0 == "less"@
            ||| ext->0 == "lnk"@
            ||| ext->0 == "lua"@
            ||| ext->0 == "m2ts"@
            ||| ext->0 == "m2v"@
            ||| ext->0 == "m4a"@
            ||| ext->0 == "m4b"@
            ||| ext->0 == "m4v"@
            ||| ext->0 == "markdown"@
            ||| ext->0 == "md"@
            ||| ext->0 == "mid"@
            ||| ext->0 == "midi"@
            ||| ext->0 == "mka"@
            ||| ext->0 == "mkv"@
            ||| ext->0 == "mobi"@
            ||| ext->0 == "mov"@
            ||| ext->0 == "mp3"@
            ||| ext->0 == "mp4"@
            ||| ext->0 == "mpe"@
            ||| ext->0 == "mpeg"@
            ||| ext->0 == "mpg"@
            ||| ext->0 == "mpv"@
            ||| ext->0 == "msi"@
            ||| ext->0 == "msix"@
            ||| ext->0 == "msixbundle"@
            ||| ext->0 == "mts"@
            ||| ext->0 == "nef"@
            ||| ext->0 == "nrw"@
            ||| ext->0 == "odp"@
            ||| ext->0 == "ods"@
            ||| ext->0 == "odt"@
            ||| ext->0 == "oga"@
            ||| ext->0 == "ogg"@
            ||| ext->0 == "ogv"@
            ||| ext->0 == "opus"@
            ||| ext->0 == "orf"@
            ||| ext->0 == "otf"@
            ||| ext->0 == "otp"@
            ||| ext->0 == "ots"@
            ||| ext->0 == "ott"@
            ||| ext->0 == "pages"@
            ||| ext->0 == "pdf"@
            ||| ext->0 == "pef"@
            ||| ext->0 == "php"@
            ||| ext->0 == "png"@
            ||| ext->0 == "pps"@
            ||| ext->0 == "ppsx"@
            ||| ext->0 == "ppt"@
            ||| ext->0 == "pptm"@
            ||| ext->0 == "pptx"@
            ||| ext->0 == "ps1"@
            ||| ext->0 == "py"@
            ||| ext->0 == "qcow"@
            ||| ext->0 == "qcow2"@
            ||| ext->0 == "r"@
            ||| ext->0 == "ra"@
            ||| ext->0 == "raf"@
            ||| ext->0 == "ram"@
            ||| ext->0 == "rar"@
            ||| ext->0 == "raw"@
            ||| ext->0 == "rb"@
            ||| ext->0 == "rm"@
            ||| ext->0 == "rmvb"@
            ||| ext->0 == "rs"@
            ||| ext->0 == "rtf"@
            ||| ext->0 == "rw2"@
            ||| ext->0 == "sass"@
            ||| ext->0 == "scr"@
            ||| ext->0 == "scss"@
            ||| ext->0 == "sh"@
            ||| ext->0 == "sql"@
            ||| ext->0 == "sr2"@
            ||| ext->0 == "svelte"@
            ||| ext->0 == "svg"@
            ||| ext->0 == "swift"@
            ||| ext->0 == "tar"@
            ||| ext->0 == "tbz2"@
            ||| ext->0 == "tex"@
            ||| ext->0 == "tgz"@
            ||| ext->0 == "tif"@
            ||| ext->0 == "tiff"@
            ||| ext->0 == "toml"@
            ||| ext->0 == "ts"@
            ||| ext->0 == "tsv"@
            ||| ext->0 == "tsx"@
            ||| ext->0 == "ttf"@
            ||| ext->0 == "txt"@
            ||| ext->0 == "url"@
            ||| ext->0 == "vhd"@
            ||| ext->0 == "vhdx"@
            ||| ext->0 == "vmdk"@
            ||| ext->0 == "vob"@
            ||| ext->0 == "vue"@
            ||| ext->0 == "wav"@
            ||| ext->0 == "webloc"@
            ||| ext->0 == "webm"@
            ||| ext->0 == "webp"@
            ||| ext->0 == "wma"@
            ||| ext->0 == "wmv"@
            ||| ext->0 == "woff"@
            ||| ext->0 == "woff2"@
            ||| ext->0 == "wpd"@
            ||| ext->0 == "wps"@
            ||| ext->0 == "xls"@
            ||| ext->0 == "xlsb"@
            ||| ext->0 == "xlsm"@
            ||| ext->0 == "xlsx"@
            ||| ext->0 == "xlt"@
            ||| ext->0 == "xltm"@
            ||| ext->0 == "xltx"@
            ||| ext->0 == "xml"@
            ||| ext->0 == "xz"@
            ||| ext->0 == "yaml"@
            ||| ext->0 == "yml"@
            ||| ext->0 == "zip"@
            ||| ext->0 == "zst"@
        },
{
}

} // verus!
