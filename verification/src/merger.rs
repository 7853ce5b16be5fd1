//! The hand-over to the merger: the list of segment files that it reads, the
//! command that runs it, and the removal of the segments afterwards.

use crate::downloader::{segment_file, segment_file_name};
use crate::text::texts;
use vstd::prelude::*;
use vstd::string::*;

verus! {

/// The name of the list of segment files, inside the run's directory.
pub const FILE_LIST_NAME: &'static str = "filelist.txt";

/// The merger that is run where none is named.
pub const DEFAULT_MERGER: &'static str = "ffmpeg";

/// What merging takes: the list to write and the command to run, both inside
/// the run's directory.
#[derive(Debug, Clone, PartialEq, Eq)]
pub struct MergePlan {
    /// The content of the list of segment files.
    pub file_list: String,
    /// The program to run.
    pub program: String,
    /// Its arguments.
    pub arguments: Vec<String>,
}

/// The merger ended without success.
#[derive(Clone, Copy, Debug, PartialEq, Eq)]
pub struct MergeError {
    /// Its exit code, where it has one.
    pub code: Option<i32>,
}

/// The line that names the segment at `index` to the merger.
pub open spec fn file_list_line(index: nat) -> Seq<char> {
    "file '"@ + segment_file_name(index) + "'"@ + "\n"@
}

/// The list of the first `count` segment files, one line each, in playlist
/// order.
pub open spec fn file_list(count: nat) -> Seq<char>
    decreases count,
{
    if count == 0 {
        Seq::empty()
    } else {
        file_list((count - 1) as nat) + file_list_line((count - 1) as nat)
    }
}

/// The merger's arguments: join the files of the list, copy the streams as
/// they are, fix the audio stream's framing, put the index first, and
/// overwrite `output_path`.
pub open spec fn merge_arguments(output_path: Seq<char>) -> Seq<Seq<char>> {
    seq![
        "-f"@,
        "concat"@,
        "-safe"@,
        "0"@,
        "-i"@,
        FILE_LIST_NAME@,
        "-c"@,
        "copy"@,
        "-bsf:a"@,
        "aac_adtstoasc"@,
        "-movflags"@,
        "+faststart"@,
        "-y"@,
        output_path,
    ]
}

/// Lists the segment files for the merger.
pub fn write_file_list(segment_count: usize) -> (r: String)
    ensures
        r@ == file_list(segment_count as nat),
{
    let mut list = String::new();
    let mut i: usize = 0;
    while i < segment_count
        invariant
            i <= segment_count,
            list@ == file_list(i as nat),
        decreases segment_count - i,
    {
        let name = segment_file(i);
        let ghost before = list@;
        list.append("file '");
        list.append(name.as_str());
        list.append("'");
        list.append("\n");
        assert(list@ =~= before + file_list_line(i as nat));
        i = i + 1;
    }
    list
}

/// Plans the merge of `segment_count` segments into `output_path`, with the
/// merger at `ffmpeg_path` or, where none is named, the one on the search
/// path.
pub fn merge_segments(output_path: &str, ffmpeg_path: Option<&str>, segment_count: usize) -> (r:
    MergePlan)
    ensures
        r.file_list@ == file_list(segment_count as nat),
        r.program@ == match ffmpeg_path {
            Some(path) => path@,
            None => DEFAULT_MERGER@,
        },
        texts(r.arguments@) == merge_arguments(output_path@),
{
    let program = match ffmpeg_path {
        Some(path) => path.to_owned(),
        None => DEFAULT_MERGER.to_owned(),
    };
    let mut arguments: Vec<String> = Vec::new();
    arguments.push("-f".to_owned());
    arguments.push("concat".to_owned());
    arguments.push("-safe".to_owned());
    arguments.push("0".to_owned());
    arguments.push("-i".to_owned());
    arguments.push(FILE_LIST_NAME.to_owned());
    arguments.push("-c".to_owned());
    arguments.push("copy".to_owned());
    arguments.push("-bsf:a".to_owned());
    arguments.push("aac_adtstoasc".to_owned());
    arguments.push("-movflags".to_owned());
    arguments.push("+faststart".to_owned());
    arguments.push("-y".to_owned());
    arguments.push(output_path.to_owned());
    assert(texts(arguments@) =~= merge_arguments(output_path@));
    MergePlan { file_list: write_file_list(segment_count), program, arguments }
}

/// Judges how the merger ended: anything but success is an error that
/// carries the exit code.
pub fn merge_outcome(success: bool, code: Option<i32>) -> (r: Result<(), MergeError>)
    ensures
        success ==> r is Ok,
        !success ==> r == Err::<(), MergeError>(MergeError { code }),
{
    if success {
        Ok(())
    } else {
        Err(MergeError { code })
    }
}

/// A file name with the extension `ts`: it ends in `.ts`, and something
/// stands before that.
pub open spec fn is_segment_name(name: Seq<char>) -> bool {
    &&& name.len() > 3
    &&& name[name.len() - 3] == '.'
    &&& name[name.len() - 2] == 't'
    &&& name[name.len() - 1] == 's'
}

/// Tells whether a file of this name is removed with the segments.
pub fn is_segment_file(name: &str) -> (r: bool)
    ensures
        r == is_segment_name(name@),
{
    let n = name.unicode_len();
    n > 3 && name.get_char(n - 3) == '.' && name.get_char(n - 2) == 't' && name.get_char(n - 1)
        == 's'
}

/// Those of the first `count` names that have the extension `ts`, in order.
pub open spec fn segment_names(names: Seq<Seq<char>>, count: nat) -> Seq<Seq<char>>
    decreases count,
{
    if count == 0 {
        Seq::empty()
    } else {
        let before = segment_names(names, (count - 1) as nat);
        if is_segment_name(names[count - 1]) {
            before.push(names[count - 1])
        } else {
            before
        }
    }
}

/// What is picked has the extension `ts`, and what has it is picked.
pub proof fn lemma_segment_names(names: Seq<Seq<char>>, count: nat)
    requires
        count <= names.len(),
    ensures
        segment_names(names, count).len() <= count,
        forall|k: int|
            0 <= k < segment_names(names, count).len() ==> is_segment_name(
                #[trigger] segment_names(names, count)[k],
            ),
        forall|i: int|
            0 <= i < count && is_segment_name(names[i]) ==> segment_names(names, count).contains(
                #[trigger] names[i],
            ),
    decreases count,
{
    if count > 0 {
        let before = segment_names(names, (count - 1) as nat);
        let now = segment_names(names, count);
        lemma_segment_names(names, (count - 1) as nat);
        assert forall|i: int| 0 <= i < count && is_segment_name(names[i]) implies now.contains(
            #[trigger] names[i],
        ) by {
            if i < count - 1 {
                let k = choose|k: int| 0 <= k < before.len() && before[k] == names[i];
                assert(now[k] == names[i]);
            } else {
                assert(now[now.len() - 1] == names[i]);
            }
        }
    }
}

/// Picks, among the names of the files in the run's directory, those to
/// remove: the ones with the extension `ts`.
pub fn cleanup_segments(entries: &[String]) -> (r: Vec<String>)
    ensures
        texts(r@) == segment_names(texts(entries@), entries@.len()),
{
    let total = entries.len();
    let ghost all = texts(entries@);
    let mut chosen: Vec<String> = Vec::new();
    let mut i: usize = 0;
    assert(texts(chosen@) =~= segment_names(all, 0));
    while i < total
        invariant
            i <= total,
            total == entries@.len(),
            all == texts(entries@),
            texts(chosen@) == segment_names(all, i as nat),
        decreases total - i,
    {
        if is_segment_file(entries[i].as_str()) {
            let ghost before = texts(chosen@);
            chosen.push(entries[i].clone());
            assert(texts(chosen@) =~= before.push(all[i as int]));
        }
        i = i + 1;
    }
    chosen
}

/// Some segments could not be removed.
#[derive(Debug, Clone, PartialEq, Eq)]
pub struct CleanupError {
    /// What was reported of each of them.
    pub failures: Vec<String>,
}

/// Judges a clean-up by the failures it met: none is success.
pub fn cleanup_outcome(failures: Vec<String>) -> (r: Result<(), CleanupError>)
    ensures
        failures@.len() == 0 ==> r is Ok,
        failures@.len() > 0 ==> (r matches Err(e) && e.failures == failures),
{
    if failures.len() == 0 {
        Ok(())
    } else {
        Err(CleanupError { failures })
    }
}

} // verus!
