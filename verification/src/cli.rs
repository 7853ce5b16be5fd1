//! The command line of the downloader.
//!
//! After the program's name come options. An option that takes a value takes
//! it from the next argument, or, in its long form, from its own argument
//! after a `=`. Only `-H` / `--header` may be given more than once.

use crate::text::{
    decimal_value, find_char, first_index, parse_decimal, same_text, text_of, texts,
};
use vstd::prelude::*;
use vstd::string::*;

verus! {

/// What a run is asked to do.
#[derive(Debug, Clone, PartialEq, Eq)]
pub struct Args {
    /// The URL of the playlist.
    pub url: String,
    /// The directory under which the run's segments are kept.
    pub output_dir: String,
    /// The name of the merged video.
    pub output_video: String,
    /// How many segments may be under way at once.
    pub threads: usize,
    /// The merger to run, where it is not the one on the search path.
    pub ffmpeg_path: Option<String>,
    /// Leave the segments unmerged.
    pub no_merge: bool,
    /// Keep the segments after the merge.
    pub keep_segments: bool,
    /// Request headers, each as `Name: Value`.
    pub headers: Vec<String>,
}

/// Why a command line was not taken.
#[derive(Clone, Copy, Debug, PartialEq, Eq)]
pub enum CliError {
    /// `-h` or `--help` was given.
    HelpRequested,
    /// `-V` or `--version` was given.
    VersionRequested,
    /// The argument at `index` is no option.
    UnknownArgument { index: usize },
    /// The option at `index` takes no value but was given one.
    UnexpectedValue { index: usize },
    /// The option at `index` takes a value but is the last argument.
    MissingValue { index: usize },
    /// The option at `index` was given before.
    Repeated { index: usize },
    /// The value of the option at `index` is no number that fits.
    InvalidThreads { index: usize },
    /// No URL was given.
    MissingUrl,
}

/// The options.
#[derive(Clone, Copy, Debug, PartialEq, Eq)]
pub enum CliOption {
    Url,
    OutputDir,
    OutputVideo,
    Threads,
    FfmpegPath,
    Header,
    NoMerge,
    KeepSegments,
    Help,
    Version,
}

/// The option that `name` stands for.
pub open spec fn option_named(name: Seq<char>) -> Option<CliOption> {
    if name == "-u"@ || name == "--url"@ {
        Some(CliOption::Url)
    } else if name == "-o"@ || name == "--output-dir"@ {
        Some(CliOption::OutputDir)
    } else if name == "--output-video"@ {
        Some(CliOption::OutputVideo)
    } else if name == "-t"@ || name == "--threads"@ {
        Some(CliOption::Threads)
    } else if name == "--ffmpeg-path"@ {
        Some(CliOption::FfmpegPath)
    } else if name == "-H"@ || name == "--header"@ {
        Some(CliOption::Header)
    } else if name == "--no-merge"@ {
        Some(CliOption::NoMerge)
    } else if name == "--keep-segments"@ {
        Some(CliOption::KeepSegments)
    } else if name == "-h"@ || name == "--help"@ {
        Some(CliOption::Help)
    } else if name == "-V"@ || name == "--version"@ {
        Some(CliOption::Version)
    } else {
        None
    }
}

/// Whether `option` takes a value.
pub open spec fn takes_value(option: CliOption) -> bool {
    match option {
        CliOption::Url
        | CliOption::OutputDir
        | CliOption::OutputVideo
        | CliOption::Threads
        | CliOption::FfmpegPath
        | CliOption::Header => true,
        _ => false,
    }
}

/// The name in an argument and the value that it brings along: a long option
/// ends at its first `=`, and what follows is its value.
pub open spec fn name_and_value(arg: Seq<char>) -> (Seq<char>, Option<Seq<char>>) {
    let eq = first_index(arg, '=');
    if arg.len() >= 2 && arg[0] == '-' && arg[1] == '-' && eq < arg.len() {
        (arg.subrange(0, eq), Some(arg.subrange(eq + 1, arg.len() as int)))
    } else {
        (arg, None)
    }
}

/// What was read of a command line so far.
pub struct Partial {
    pub url: Option<Seq<char>>,
    pub output_dir: Option<Seq<char>>,
    pub output_video: Option<Seq<char>>,
    pub threads: Option<nat>,
    pub ffmpeg_path: Option<Seq<char>>,
    pub no_merge: bool,
    pub keep_segments: bool,
    pub headers: Seq<Seq<char>>,
}

/// Nothing read yet.
pub open spec fn nothing() -> Partial {
    Partial {
        url: None,
        output_dir: None,
        output_video: None,
        threads: None,
        ffmpeg_path: None,
        no_merge: false,
        keep_segments: false,
        headers: Seq::empty(),
    }
}

/// `so_far` with the option at `index` taken in. `value` is the option's
/// value, where it takes one.
pub open spec fn with_option(so_far: Partial, option: CliOption, value: Seq<char>, index: usize)
    -> Result<Partial, CliError> {
    match option {
        CliOption::Help => Err(CliError::HelpRequested),
        CliOption::Version => Err(CliError::VersionRequested),
        CliOption::Url => if so_far.url is Some {
            Err(CliError::Repeated { index })
        } else {
            Ok(Partial { url: Some(value), ..so_far })
        },
        CliOption::OutputDir => if so_far.output_dir is Some {
            Err(CliError::Repeated { index })
        } else {
            Ok(Partial { output_dir: Some(value), ..so_far })
        },
        CliOption::OutputVideo => if so_far.output_video is Some {
            Err(CliError::Repeated { index })
        } else {
            Ok(Partial { output_video: Some(value), ..so_far })
        },
        CliOption::Threads => if so_far.threads is Some {
            Err(CliError::Repeated { index })
        } else {
            match decimal_value(value) {
                Some(n) => if n <= usize::MAX {
                    Ok(Partial { threads: Some(n), ..so_far })
                } else {
                    Err(CliError::InvalidThreads { index })
                },
                None => Err(CliError::InvalidThreads { index }),
            }
        },
        CliOption::FfmpegPath => if so_far.ffmpeg_path is Some {
            Err(CliError::Repeated { index })
        } else {
            Ok(Partial { ffmpeg_path: Some(value), ..so_far })
        },
        CliOption::Header => Ok(Partial { headers: so_far.headers.push(value), ..so_far }),
        CliOption::NoMerge => if so_far.no_merge {
            Err(CliError::Repeated { index })
        } else {
            Ok(Partial { no_merge: true, ..so_far })
        },
        CliOption::KeepSegments => if so_far.keep_segments {
            Err(CliError::Repeated { index })
        } else {
            Ok(Partial { keep_segments: true, ..so_far })
        },
    }
}

/// Reads the argument at `index`, and the one after it where that is its
/// value; gives the place to go on from and what is read by then.
pub open spec fn read_one(argv: Seq<Seq<char>>, index: usize, so_far: Partial) -> Result<
    (int, Partial),
    CliError,
> {
    let (name, inline) = name_and_value(argv[index as int]);
    match option_named(name) {
        None => Err(CliError::UnknownArgument { index }),
        Some(option) => if !takes_value(option) {
            if inline is Some {
                Err(CliError::UnexpectedValue { index })
            } else {
                match with_option(so_far, option, Seq::empty(), index) {
                    Ok(p) => Ok((index + 1, p)),
                    Err(e) => Err(e),
                }
            }
        } else {
            match inline {
                Some(value) => match with_option(so_far, option, value, index) {
                    Ok(p) => Ok((index + 1, p)),
                    Err(e) => Err(e),
                },
                None => if index + 1 < argv.len() {
                    match with_option(so_far, option, argv[index + 1], index) {
                        Ok(p) => Ok((index + 2, p)),
                        Err(e) => Err(e),
                    }
                } else {
                    Err(CliError::MissingValue { index })
                },
            }
        },
    }
}

/// Reads the arguments from `index` on.
pub open spec fn read_from(argv: Seq<Seq<char>>, index: int, so_far: Partial) -> Result<
    Partial,
    CliError,
>
    decreases argv.len() - index,
{
    if index < 0 || index >= argv.len() || index > usize::MAX {
        Ok(so_far)
    } else {
        match read_one(argv, index as usize, so_far) {
            Err(e) => Err(e),
            Ok((next, p)) => if next > index {
                read_from(argv, next, p)
            } else {
                Ok(p)
            },
        }
    }
}

/// A run's settings as plain values.
pub struct ArgsModel {
    pub url: Seq<char>,
    pub output_dir: Seq<char>,
    pub output_video: Seq<char>,
    pub threads: nat,
    pub ffmpeg_path: Option<Seq<char>>,
    pub no_merge: bool,
    pub keep_segments: bool,
    pub headers: Seq<Seq<char>>,
}

impl View for Args {
    type V = ArgsModel;

    open spec fn view(&self) -> ArgsModel {
        ArgsModel {
            url: self.url@,
            output_dir: self.output_dir@,
            output_video: self.output_video@,
            threads: self.threads as nat,
            ffmpeg_path: text_of(self.ffmpeg_path),
            no_merge: self.no_merge,
            keep_segments: self.keep_segments,
            headers: texts(self.headers@),
        }
    }
}

/// The settings that a command line read to its end stands for: the URL is
/// required; the directory is `output`, the video `output_video.mp4` and the
/// number of segments under way 10 where they are not given.
pub open spec fn settled(read: Partial) -> Result<ArgsModel, CliError> {
    match read.url {
        None => Err(CliError::MissingUrl),
        Some(url) => Ok(
            ArgsModel {
                url,
                output_dir: match read.output_dir {
                    Some(dir) => dir,
                    None => "output"@,
                },
                output_video: match read.output_video {
                    Some(video) => video,
                    None => "output_video.mp4"@,
                },
                threads: match read.threads {
                    Some(n) => n,
                    None => 10,
                },
                ffmpeg_path: read.ffmpeg_path,
                no_merge: read.no_merge,
                keep_segments: read.keep_segments,
                headers: read.headers,
            },
        ),
    }
}

/// What the command line `argv` asks for. Its first argument is the
/// program's name and is passed over.
pub open spec fn parsed_args(argv: Seq<Seq<char>>) -> Result<ArgsModel, CliError> {
    match read_from(argv, 1, nothing()) {
        Err(e) => Err(e),
        Ok(read) => settled(read),
    }
}

struct Reading {
    url: Option<String>,
    output_dir: Option<String>,
    output_video: Option<String>,
    threads: Option<usize>,
    ffmpeg_path: Option<String>,
    no_merge: bool,
    keep_segments: bool,
    headers: Vec<String>,
}

impl View for Reading {
    type V = Partial;

    closed spec fn view(&self) -> Partial {
        Partial {
            url: text_of(self.url),
            output_dir: text_of(self.output_dir),
            output_video: text_of(self.output_video),
            threads: match self.threads {
                Some(n) => Some(n as nat),
                None => None,
            },
            ffmpeg_path: text_of(self.ffmpeg_path),
            no_merge: self.no_merge,
            keep_segments: self.keep_segments,
            headers: texts(self.headers@),
        }
    }
}

fn option_of(name: &str) -> (r: Option<CliOption>)
    ensures
        r == option_named(name@),
{
    if same_text(name, "-u") || same_text(name, "--url") {
        Some(CliOption::Url)
    } else if same_text(name, "-o") || same_text(name, "--output-dir") {
        Some(CliOption::OutputDir)
    } else if same_text(name, "--output-video") {
        Some(CliOption::OutputVideo)
    } else if same_text(name, "-t") || same_text(name, "--threads") {
        Some(CliOption::Threads)
    } else if same_text(name, "--ffmpeg-path") {
        Some(CliOption::FfmpegPath)
    } else if same_text(name, "-H") || same_text(name, "--header") {
        Some(CliOption::Header)
    } else if same_text(name, "--no-merge") {
        Some(CliOption::NoMerge)
    } else if same_text(name, "--keep-segments") {
        Some(CliOption::KeepSegments)
    } else if same_text(name, "-h") || same_text(name, "--help") {
        Some(CliOption::Help)
    } else if same_text(name, "-V") || same_text(name, "--version") {
        Some(CliOption::Version)
    } else {
        None
    }
}

fn split_argument(arg: &str) -> (r: (&str, Option<&str>))
    ensures
        (r.0@, match r.1 {
            Some(v) => Some(v@),
            None => None,
        }) == name_and_value(arg@),
{
    let n = arg.unicode_len();
    if n >= 2 && arg.get_char(0) == '-' && arg.get_char(1) == '-' {
        match find_char(arg, '=') {
            Some(eq) => (arg.substring_char(0, eq), Some(arg.substring_char(eq + 1, n))),
            None => (arg, None),
        }
    } else {
        (arg, None)
    }
}

fn take(reading: Reading, option: CliOption, value: &str, index: usize) -> (r: Result<
    Reading,
    CliError,
>)
    ensures
        match r {
            Ok(next) => with_option(reading@, option, value@, index) == Ok::<Partial, CliError>(
                next@,
            ),
            Err(e) => with_option(reading@, option, value@, index) == Err::<Partial, CliError>(e),
        },
{
    let mut reading = reading;
    match option {
        CliOption::Help => Err(CliError::HelpRequested),
        CliOption::Version => Err(CliError::VersionRequested),
        CliOption::Url => {
            if reading.url.is_some() {
                return Err(CliError::Repeated { index });
            }
            reading.url = Some(value.to_owned());
            Ok(reading)
        },
        CliOption::OutputDir => {
            if reading.output_dir.is_some() {
                return Err(CliError::Repeated { index });
            }
            reading.output_dir = Some(value.to_owned());
            Ok(reading)
        },
        CliOption::OutputVideo => {
            if reading.output_video.is_some() {
                return Err(CliError::Repeated { index });
            }
            reading.output_video = Some(value.to_owned());
            Ok(reading)
        },
        CliOption::Threads => {
            if reading.threads.is_some() {
                return Err(CliError::Repeated { index });
            }
            match parse_decimal(value) {
                Some(n) => {
                    reading.threads = Some(n);
                    Ok(reading)
                },
                None => Err(CliError::InvalidThreads { index }),
            }
        },
        CliOption::FfmpegPath => {
            if reading.ffmpeg_path.is_some() {
                return Err(CliError::Repeated { index });
            }
            reading.ffmpeg_path = Some(value.to_owned());
            Ok(reading)
        },
        CliOption::Header => {
            let ghost before = reading.headers@;
            reading.headers.push(value.to_owned());
            assert(texts(reading.headers@) =~= texts(before).push(value@));
            Ok(reading)
        },
        CliOption::NoMerge => {
            if reading.no_merge {
                return Err(CliError::Repeated { index });
            }
            reading.no_merge = true;
            Ok(reading)
        },
        CliOption::KeepSegments => {
            if reading.keep_segments {
                return Err(CliError::Repeated { index });
            }
            reading.keep_segments = true;
            Ok(reading)
        },
    }
}

fn settle(reading: Reading) -> (r: Result<Args, CliError>)
    ensures
        match r {
            Ok(args) => settled(reading@) == Ok::<ArgsModel, CliError>(args@),
            Err(e) => settled(reading@) == Err::<ArgsModel, CliError>(e),
        },
{
    match reading.url {
        None => Err(CliError::MissingUrl),
        Some(url) => Ok(
            Args {
                url,
                output_dir: match reading.output_dir {
                    Some(dir) => dir,
                    None => "output".to_owned(),
                },
                output_video: match reading.output_video {
                    Some(video) => video,
                    None => "output_video.mp4".to_owned(),
                },
                threads: match reading.threads {
                    Some(n) => n,
                    None => 10,
                },
                ffmpeg_path: reading.ffmpeg_path,
                no_merge: reading.no_merge,
                keep_segments: reading.keep_segments,
                headers: reading.headers,
            },
        ),
    }
}

/// Reads a command line. The first argument is the program's name.
pub fn parse_args(argv: &[String]) -> (r: Result<Args, CliError>)
    ensures
        match r {
            Ok(args) => parsed_args(texts(argv@)) == Ok::<ArgsModel, CliError>(args@),
            Err(e) => parsed_args(texts(argv@)) == Err::<ArgsModel, CliError>(e),
        },
{
    let total = argv.len();
    let ghost all = texts(argv@);
    let mut reading = Reading {
        url: None,
        output_dir: None,
        output_video: None,
        threads: None,
        ffmpeg_path: None,
        no_merge: false,
        keep_segments: false,
        headers: Vec::new(),
    };
    assert(reading@.headers =~= nothing().headers);
    let mut i: usize = 1;
    while i < total
        invariant
            1 <= i,
            total == argv@.len(),
            all == texts(argv@),
            read_from(all, 1, nothing()) == read_from(all, i as int, reading@),
        decreases total - i,
    {
        let (name, inline) = split_argument(argv[i].as_str());
        let option = match option_of(name) {
            Some(option) => option,
            None => {
                return Err(CliError::UnknownArgument { index: i });
            },
        };
        let with_value = match option {
            CliOption::Url
            | CliOption::OutputDir
            | CliOption::OutputVideo
            | CliOption::Threads
            | CliOption::FfmpegPath
            | CliOption::Header => true,
            _ => false,
        };
        if !with_value {
            if inline.is_some() {
                return Err(CliError::UnexpectedValue { index: i });
            }
            match take(reading, option, "", i) {
                Ok(next) => {
                    reading = next;
                },
                Err(e) => {
                    return Err(e);
                },
            }
            proof {
                reveal_strlit("");
                assert(""@ =~= Seq::<char>::empty());
            }
            i = i + 1;
        } else {
            match inline {
                Some(value) => {
                    match take(reading, option, value, i) {
                        Ok(next) => {
                            reading = next;
                        },
                        Err(e) => {
                            return Err(e);
                        },
                    }
                    i = i + 1;
                },
                None => {
                    if i + 1 < total {
                        match take(reading, option, argv[i + 1].as_str(), i) {
                            Ok(next) => {
                                reading = next;
                            },
                            Err(e) => {
                                return Err(e);
                            },
                        }
                        i = i + 2;
                    } else {
                        return Err(CliError::MissingValue { index: i });
                    }
                },
            }
        }
    }
    settle(reading)
}

} // verus!
