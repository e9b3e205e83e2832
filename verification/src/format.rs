use vstd::prelude::*;

use crate::error::{err, ConvertError};
use crate::text::{lower_seq, push_str, trim_end_ws, trim_lowercase, trim_start_ws, trim_ws};

verus! {

/// The image formats the converter can write.
#[derive(Debug, Clone, Copy, PartialEq, Eq, Structural)]
pub enum OutputFormat {
    Webp,
    Avif,
    Jpeg,
    Jpg,
    Png,
    Gif,
    Bmp,
    Tiff,
}

/// The file extension of files written in format `f`.
pub open spec fn extension_of(f: OutputFormat) -> Seq<char> {
    match f {
        OutputFormat::Webp => seq!['w', 'e', 'b', 'p'],
        OutputFormat::Avif => seq!['a', 'v', 'i', 'f'],
        OutputFormat::Jpeg | OutputFormat::Jpg => seq!['j', 'p', 'g'],
        OutputFormat::Png => seq!['p', 'n', 'g'],
        OutputFormat::Gif => seq!['g', 'i', 'f'],
        OutputFormat::Bmp => seq!['b', 'm', 'p'],
        OutputFormat::Tiff => seq!['t', 'i', 'f', 'f'],
    }
}

/// Formats whose files keep an alpha channel.
pub open spec fn alpha_supported(f: OutputFormat) -> bool {
    f is Webp || f is Avif || f is Png || f is Gif
}

/// Formats that have a lossless encoding.
pub open spec fn lossless_supported(f: OutputFormat) -> bool {
    f is Webp || f is Avif || f is Png || f is Bmp || f is Tiff
}

/// The format named by an already normalised (trimmed, lower-case) name.
pub open spec fn format_named(t: Seq<char>) -> Option<OutputFormat> {
    if t == seq!['w', 'e', 'b', 'p'] {
        Some(OutputFormat::Webp)
    } else if t == seq!['a', 'v', 'i', 'f'] {
        Some(OutputFormat::Avif)
    } else if t == seq!['j', 'p', 'e', 'g'] {
        Some(OutputFormat::Jpeg)
    } else if t == seq!['j', 'p', 'g'] {
        Some(OutputFormat::Jpg)
    } else if t == seq!['p', 'n', 'g'] {
        Some(OutputFormat::Png)
    } else if t == seq!['g', 'i', 'f'] {
        Some(OutputFormat::Gif)
    } else if t == seq!['b', 'm', 'p'] {
        Some(OutputFormat::Bmp)
    } else if t == seq!['t', 'i', 'f', 'f'] || t == seq!['t', 'i', 'f'] {
        Some(OutputFormat::Tiff)
    } else {
        None
    }
}

/// A user-supplied format name with surrounding whitespace removed and ASCII
/// letters lower-cased.
pub open spec fn normalized_name(s: Seq<char>) -> Seq<char> {
    lower_seq(trim_ws(s))
}

/// The format a user-supplied name denotes, if any.
pub open spec fn parse_format(s: Seq<char>) -> Option<OutputFormat> {
    format_named(normalized_name(s))
}

/// The message given for a format name that denotes no format.
pub open spec fn unsupported_format_message(s: Seq<char>) -> Seq<char> {
    "Unsupported output format: "@ + normalized_name(s)
}

fn same_text(a: &String, b: &str) -> (r: bool)
    ensures
        r == (a@ == b@),
{
    let other = String::from_str(b);
    *a == other
}

impl OutputFormat {
    /// The file extension of files written in this format.
    pub fn extension(&self) -> (r: &'static str)
        ensures
            r@ == extension_of(*self),
    {
        match self {
            OutputFormat::Webp => {
                proof {
                    reveal_strlit("webp");
                }
                "webp"
            },
            OutputFormat::Avif => {
                proof {
                    reveal_strlit("avif");
                }
                "avif"
            },
            OutputFormat::Jpeg | OutputFormat::Jpg => {
                proof {
                    reveal_strlit("jpg");
                }
                "jpg"
            },
            OutputFormat::Png => {
                proof {
                    reveal_strlit("png");
                }
                "png"
            },
            OutputFormat::Gif => {
                proof {
                    reveal_strlit("gif");
                }
                "gif"
            },
            OutputFormat::Bmp => {
                proof {
                    reveal_strlit("bmp");
                }
                "bmp"
            },
            OutputFormat::Tiff => {
                proof {
                    reveal_strlit("tiff");
                }
                "tiff"
            },
        }
    }

    /// Whether files in this format keep an alpha channel.
    pub fn supports_alpha(&self) -> (r: bool)
        ensures
            r == alpha_supported(*self),
    {
        match self {
            OutputFormat::Webp | OutputFormat::Avif | OutputFormat::Png | OutputFormat::Gif => true,
            _ => false,
        }
    }

    /// Whether this format has a lossless encoding.
    pub fn supports_lossless(&self) -> (r: bool)
        ensures
            r == lossless_supported(*self),
    {
        match self {
            OutputFormat::Webp
            | OutputFormat::Avif
            | OutputFormat::Png
            | OutputFormat::Bmp
            | OutputFormat::Tiff => true,
            _ => false,
        }
    }

    /// Reads a format name, ignoring surrounding whitespace and ASCII case;
    /// "tif" is accepted for TIFF, and "jpeg" and "jpg" are told apart.
    pub fn from_str_loose(s: &str) -> (r: Result<OutputFormat, ConvertError>)
        ensures
            parse_format(s@) matches Some(f) ==> r == Ok::<OutputFormat, ConvertError>(f),
            parse_format(s@) is None ==> (r matches Err(e) && e.text()
                == unsupported_format_message(s@)),
    {
        let name = trim_lowercase(s);
        proof {
            reveal_strlit("webp");
            reveal_strlit("avif");
            reveal_strlit("jpeg");
            reveal_strlit("jpg");
            reveal_strlit("png");
            reveal_strlit("gif");
            reveal_strlit("bmp");
            reveal_strlit("tiff");
            reveal_strlit("tif");
            assert("webp"@ =~= seq!['w', 'e', 'b', 'p']);
            assert("avif"@ =~= seq!['a', 'v', 'i', 'f']);
            assert("jpeg"@ =~= seq!['j', 'p', 'e', 'g']);
            assert("jpg"@ =~= seq!['j', 'p', 'g']);
            assert("png"@ =~= seq!['p', 'n', 'g']);
            assert("gif"@ =~= seq!['g', 'i', 'f']);
            assert("bmp"@ =~= seq!['b', 'm', 'p']);
            assert("tiff"@ =~= seq!['t', 'i', 'f', 'f']);
            assert("tif"@ =~= seq!['t', 'i', 'f']);
        }
        if same_text(&name, "webp") {
            Ok(OutputFormat::Webp)
        } else if same_text(&name, "avif") {
            Ok(OutputFormat::Avif)
        } else if same_text(&name, "jpeg") {
            Ok(OutputFormat::Jpeg)
        } else if same_text(&name, "jpg") {
            Ok(OutputFormat::Jpg)
        } else if same_text(&name, "png") {
            Ok(OutputFormat::Png)
        } else if same_text(&name, "gif") {
            Ok(OutputFormat::Gif)
        } else if same_text(&name, "bmp") {
            Ok(OutputFormat::Bmp)
        } else if same_text(&name, "tiff") || same_text(&name, "tif") {
            Ok(OutputFormat::Tiff)
        } else {
            let mut msg = String::from_str("Unsupported output format: ");
            push_str(&mut msg, name.as_str());
            Err(err(msg))
        }
    }
}


/// Reading back the extension of a format gives a format with the same
/// extension: the format itself, except that JPEG's "jpg" reads as `Jpg`.
pub proof fn law_extension_reads_back(f: OutputFormat)
    ensures
        parse_format(extension_of(f)) == Some(
            if f is Jpeg {
                OutputFormat::Jpg
            } else {
                f
            },
        ),
        extension_of(
            if f is Jpeg {
                OutputFormat::Jpg
            } else {
                f
            },
        ) == extension_of(f),
{
    let e = extension_of(f);
    assert(trim_start_ws(e) == e);
    assert(trim_end_ws(e) == e);
    assert(lower_seq(e) =~= e);
}


/// A format name reads the same after it has been normalised: reading is
/// insensitive to surrounding whitespace and to ASCII case.
pub proof fn law_parse_normalized(s: Seq<char>)
    ensures
        parse_format(normalized_name(s)) == parse_format(s),
        normalized_name(normalized_name(s)) == normalized_name(s),
{
    crate::text::law_trim_lower_idempotent(s);
}


/// The names read as formats (after trimming and ASCII lower-casing), and
/// which formats keep alpha and which have a lossless mode.
pub proof fn law_format_table(f: OutputFormat)
    ensures
        parse_format(seq!['w', 'e', 'b', 'p']) == Some(OutputFormat::Webp),
        parse_format(seq!['a', 'v', 'i', 'f']) == Some(OutputFormat::Avif),
        parse_format(seq!['j', 'p', 'e', 'g']) == Some(OutputFormat::Jpeg),
        parse_format(seq!['j', 'p', 'g']) == Some(OutputFormat::Jpg),
        parse_format(seq!['p', 'n', 'g']) == Some(OutputFormat::Png),
        parse_format(seq!['g', 'i', 'f']) == Some(OutputFormat::Gif),
        parse_format(seq!['b', 'm', 'p']) == Some(OutputFormat::Bmp),
        parse_format(seq!['t', 'i', 'f', 'f']) == Some(OutputFormat::Tiff),
        parse_format(seq!['t', 'i', 'f']) == Some(OutputFormat::Tiff),
        lossless_supported(f) <==> (f is Webp || f is Avif || f is Png || f is Bmp || f is Tiff),
        alpha_supported(f) <==> (f is Webp || f is Avif || f is Png || f is Gif),
{
    law_extension_reads_back(OutputFormat::Webp);
    law_extension_reads_back(OutputFormat::Avif);
    law_extension_reads_back(OutputFormat::Jpg);
    law_extension_reads_back(OutputFormat::Png);
    law_extension_reads_back(OutputFormat::Gif);
    law_extension_reads_back(OutputFormat::Bmp);
    law_extension_reads_back(OutputFormat::Tiff);
    let jpeg = seq!['j', 'p', 'e', 'g'];
    assert(trim_start_ws(jpeg) == jpeg);
    assert(trim_end_ws(jpeg) == jpeg);
    assert(lower_seq(jpeg) =~= jpeg);
    let tif = seq!['t', 'i', 'f'];
    assert(trim_start_ws(tif) == tif);
    assert(trim_end_ws(tif) == tif);
    assert(lower_seq(tif) =~= tif);
}

} // verus!
