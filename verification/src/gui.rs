//! The state behind the download form: what the user entered, whether a
//! download is under way, and what there is to say about it.

use crate::cli::{Args, ArgsModel};
use crate::text::{find_char, first_index, lemma_first_index, texts, trim, trimmed};
use vstd::prelude::*;
use vstd::string::*;

verus! {

/// What the form says about the download.
#[derive(Debug, Clone, PartialEq, Eq)]
pub enum Status {
    /// Nothing was started.
    Ready,
    /// A download was asked for without a URL.
    MissingUrl,
    /// A download is under way.
    Downloading,
    /// The download ended well.
    Completed,
    /// The download failed, for this reason.
    Failed(String),
}

/// The download form.
#[derive(Debug, Clone, PartialEq, Eq)]
pub struct M3u8DownloaderApp {
    /// The URL of the playlist.
    pub url: String,
    /// The directory under which the run's segments are kept.
    pub output_dir: String,
    /// The name of the merged video.
    pub output_video: String,
    /// How many segments may be under way at once.
    pub threads: usize,
    /// The merger to run; empty for the one on the search path.
    pub ffmpeg_path: String,
    /// Leave the segments unmerged.
    pub no_merge: bool,
    /// Keep the segments after the merge.
    pub keep_segments: bool,
    /// Request headers, one `Name: Value` to the line.
    pub headers: String,
    /// What the form says about the download.
    pub status: Status,
    /// Whether a download is under way.
    pub is_downloading: bool,
}

/// The headers that the lines of `text` give: each line without the white
/// space around it, and no line that is empty then.
pub open spec fn header_lines(text: Seq<char>) -> Seq<Seq<char>>
    decreases text.len(),
{
    let end = first_index(text, '\n');
    let line = trimmed(text.subrange(0, end));
    let first = if line.len() > 0 {
        seq![line]
    } else {
        Seq::empty()
    };
    if 0 <= end < text.len() {
        first + header_lines(text.subrange(end + 1, text.len() as int))
    } else {
        first
    }
}

/// Splits the header field of the form into headers.
pub fn split_lines(text: &str) -> (r: Vec<String>)
    ensures
        texts(r@) == header_lines(text@),
{
    let n = text.unicode_len();
    let mut lines: Vec<String> = Vec::new();
    let mut start: usize = 0;
    let mut done = false;
    assert(text@.subrange(0, n as int) =~= text@);
    assert(texts(lines@) + header_lines(text@) =~= header_lines(text@));
    while !done
        invariant
            start <= n,
            n == text@.len(),
            !done ==> texts(lines@) + header_lines(text@.subrange(start as int, n as int))
                == header_lines(text@),
            done ==> texts(lines@) == header_lines(text@),
        decreases n - start + (if done { 0int } else { 1int }),
    {
        let rest = text.substring_char(start, n);
        let ghost before = texts(lines@);
        proof {
            lemma_first_index(rest@, '\n');
        }
        let (end, last) = match find_char(rest, '\n') {
            Some(at) => (at, false),
            None => (n - start, true),
        };
        let line = trim(rest.substring_char(0, end));
        if line.unicode_len() > 0 {
            lines.push(line.to_owned());
            assert(texts(lines@) =~= before + seq![line@]);
        }
        if last {
            done = true;
        } else {
            proof {
                assert(rest@.subrange(end + 1, rest@.len() as int) =~= text@.subrange(
                    start + end + 1,
                    n as int,
                ));
                let tail = header_lines(rest@.subrange(end + 1, rest@.len() as int));
                if line@.len() > 0 {
                    assert(before + (seq![line@] + tail) =~= (before + seq![line@]) + tail);
                } else {
                    assert(before + (Seq::<Seq<char>>::empty() + tail) =~= before + tail);
                }
            }
            start = start + end + 1;
        }
        proof {
            if last {
                if line@.len() > 0 {
                    assert(header_lines(rest@) == seq![line@]);
                } else {
                    assert(header_lines(rest@) == Seq::<Seq<char>>::empty());
                    assert(before + Seq::<Seq<char>>::empty() =~= before);
                }
            }
        }
    }
    lines
}

impl Default for M3u8DownloaderApp {
    /// The form as it opens: the settings that the command line has where an
    /// option is not given, but for the segments, which are kept.
    fn default() -> (r: Self)
        ensures
            r.url@.len() == 0,
            r.output_dir@ == "output"@,
            r.output_video@ == "output_video.mp4"@,
            r.threads == 10,
            r.ffmpeg_path@.len() == 0,
            !r.no_merge,
            r.keep_segments,
            r.headers@.len() == 0,
            r.status == Status::Ready,
            !r.is_downloading,
    {
        M3u8DownloaderApp {
            url: String::new(),
            output_dir: "output".to_owned(),
            output_video: "output_video.mp4".to_owned(),
            threads: 10,
            ffmpeg_path: String::new(),
            no_merge: false,
            keep_segments: true,
            headers: String::new(),
            status: Status::Ready,
            is_downloading: false,
        }
    }
}

impl M3u8DownloaderApp {
    /// The form as it opens.
    pub fn new() -> (r: Self)
        ensures
            r.url@.len() == 0,
            r.output_dir@ == "output"@,
            r.output_video@ == "output_video.mp4"@,
            r.threads == 10,
            r.ffmpeg_path@.len() == 0,
            !r.no_merge,
            r.keep_segments,
            r.headers@.len() == 0,
            r.status == Status::Ready,
            !r.is_downloading,
    {
        M3u8DownloaderApp {
            url: String::new(),
            output_dir: "output".to_owned(),
            output_video: "output_video.mp4".to_owned(),
            threads: 10,
            ffmpeg_path: String::new(),
            no_merge: false,
            keep_segments: true,
            headers: String::new(),
            status: Status::Ready,
            is_downloading: false,
        }
    }

    /// The settings that the form stands for.
    pub open spec fn settings(&self) -> ArgsModel {
        ArgsModel {
            url: self.url@,
            output_dir: self.output_dir@,
            output_video: self.output_video@,
            threads: self.threads as nat,
            ffmpeg_path: if self.ffmpeg_path@.len() == 0 {
                None
            } else {
                Some(self.ffmpeg_path@)
            },
            no_merge: self.no_merge,
            keep_segments: self.keep_segments,
            headers: header_lines(self.headers@),
        }
    }

    /// Starts a download from what the form holds, and gives the settings to
    /// run it with.
    ///
    /// Without a URL nothing starts, and the form says so. The fields of the
    /// form stay as they are.
    pub fn start_download(&mut self) -> (r: Option<Args>)
        ensures
            final(self).settings() == old(self).settings(),
            old(self).url@.len() == 0 ==> {
                &&& r is None
                &&& final(self).status == Status::MissingUrl
                &&& final(self).is_downloading == old(self).is_downloading
            },
            old(self).url@.len() > 0 ==> {
                &&& r matches Some(args)
                &&& args@ == old(self).settings()
                &&& final(self).status == Status::Downloading
                &&& final(self).is_downloading
            },
    {
        if self.url.as_str().unicode_len() == 0 {
            self.status = Status::MissingUrl;
            return None;
        }
        self.is_downloading = true;
        self.status = Status::Downloading;
        let headers = split_lines(self.headers.as_str());
        let ffmpeg_path = if self.ffmpeg_path.as_str().unicode_len() == 0 {
            None
        } else {
            Some(self.ffmpeg_path.clone())
        };
        Some(
            Args {
                url: self.url.clone(),
                output_dir: self.output_dir.clone(),
                output_video: self.output_video.clone(),
                threads: self.threads,
                ffmpeg_path,
                no_merge: self.no_merge,
                keep_segments: self.keep_segments,
                headers,
            },
        )
    }

    /// Takes note of how the download stands: `None` while it runs, its
    /// outcome once it has ended. An outcome ends the download.
    pub fn check_download_status(&mut self, outcome: Option<Result<(), String>>)
        ensures
            final(self).settings() == old(self).settings(),
            match outcome {
                None => {
                    &&& final(self).status == old(self).status
                    &&& final(self).is_downloading == old(self).is_downloading
                },
                Some(Ok(_)) => {
                    &&& final(self).status == Status::Completed
                    &&& !final(self).is_downloading
                },
                Some(Err(reason)) => {
                    &&& final(self).status == Status::Failed(reason)
                    &&& !final(self).is_downloading
                },
            },
    {
        match outcome {
            None => {},
            Some(Ok(_)) => {
                self.status = Status::Completed;
                self.is_downloading = false;
            },
            Some(Err(reason)) => {
                self.status = Status::Failed(reason);
                self.is_downloading = false;
            },
        }
    }
}

} // verus!
