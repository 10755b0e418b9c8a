//! Host identity facts, parsed from the text of the host's identity sources.

use vstd::prelude::*;
use vstd::string::StringExecFns;
use crate::counter::{parsed_times, CpuTime};
use crate::error::SourceError;
use crate::text::{
    after_prefix, has_prefix, lines, lines_of, split_whitespace, strip_prefix, tokens_of, trim,
    trimmed, views_of, CharClass,
};

verus! {

/// How many leading words of the kernel's version line make up the reported
/// kernel version.
pub const KERNEL_VERSION_WORDS: usize = 3;

/// The host name that the host-name source gives: its text without
/// surrounding white space.
pub open spec fn host_name_of(text: Seq<char>) -> Seq<char> {
    trimmed(text, CharClass::Whitespace)
}

/// The index of the first line at or after `from` that begins with `label`.
pub open spec fn first_labelled(all: Seq<Seq<char>>, label: Seq<char>, from: int) -> Option<int>
    decreases all.len() - from,
{
    if 0 <= from < all.len() {
        if has_prefix(all[from], label) {
            Some(from)
        } else {
            first_labelled(all, label, from + 1)
        }
    } else {
        None
    }
}

/// The operating system's name that the release source gives: what follows
/// `PRETTY_NAME=` on the first line that begins so, without the double quotes
/// at its ends; `Unknown OS` if no line begins so.
pub open spec fn os_name_of(text: Seq<char>) -> Seq<char> {
    let all = lines_of(text);
    match first_labelled(all, "PRETTY_NAME="@, 0) {
        Some(i) => trimmed(after_prefix(all[i], "PRETTY_NAME="@).unwrap(), CharClass::Quote),
        None => "Unknown OS"@,
    }
}

/// The words of `parts` with one space between each two.
pub open spec fn joined(parts: Seq<Seq<char>>) -> Seq<char>
    decreases parts.len(),
{
    if parts.len() == 0 {
        Seq::empty()
    } else if parts.len() == 1 {
        parts[0]
    } else {
        joined(parts.drop_last()) + seq![' '] + parts.last()
    }
}

/// The kernel version that the version source gives: its first three words,
/// or all of them if there are fewer, with one space between each two.
pub open spec fn kernel_version_of(text: Seq<char>) -> Seq<char> {
    let words = tokens_of(text);
    if words.len() <= KERNEL_VERSION_WORDS {
        joined(words)
    } else {
        joined(words.subrange(0, KERNEL_VERSION_WORDS as int))
    }
}

/// `first_labelled` finds the least index at or after `from` whose line
/// begins with the label, and finds none only if there is none.
pub proof fn first_labelled_is_least(all: Seq<Seq<char>>, label: Seq<char>, from: int)
    requires
        0 <= from,
    ensures
        match first_labelled(all, label, from) {
            Some(i) => {
                &&& from <= i < all.len()
                &&& has_prefix(all[i], label)
                &&& forall|j: int| from <= j < i ==> !has_prefix(#[trigger] all[j], label)
            },
            None => forall|j: int| from <= j < all.len() ==> !has_prefix(#[trigger] all[j], label),
        },
    decreases all.len() - from,
{
    if from < all.len() && !has_prefix(all[from], label) {
        first_labelled_is_least(all, label, from + 1);
    }
}

/// Extracts the host name from the text of the host-name source.
pub fn get_hostname(text: &str) -> (name: String)
    ensures
        name@ == host_name_of(text@),
{
    String::from_str(trim(text, CharClass::Whitespace))
}

/// Extracts the operating system's name from the text of the release source.
pub fn get_os_name(os_release: &str) -> (name: String)
    ensures
        name@ == os_name_of(os_release@),
{
    let all = lines(os_release);
    let mut i: usize = 0;
    while i < all.len()
        invariant
            i <= all.len(),
            views_of(all@) == lines_of(os_release@),
            first_labelled(lines_of(os_release@), "PRETTY_NAME="@, 0) == first_labelled(
                lines_of(os_release@),
                "PRETTY_NAME="@,
                i as int,
            ),
        decreases all.len() - i,
    {
        match strip_prefix(all[i], "PRETTY_NAME=") {
            Some(rest) => {
                return String::from_str(trim(rest, CharClass::Quote));
            },
            None => {},
        }
        i = i + 1;
    }
    String::from_str("Unknown OS")
}

/// Extracts the kernel version from the text of the version source.
pub fn get_kernel_version(proc_version: &str) -> (version: String)
    ensures
        version@ == kernel_version_of(proc_version@),
{
    let words = split_whitespace(proc_version);
    let count = if words.len() <= KERNEL_VERSION_WORDS {
        words.len()
    } else {
        KERNEL_VERSION_WORDS
    };
    let ghost spelled = tokens_of(proc_version@).subrange(0, count as int);
    let mut version = String::new();
    let mut i: usize = 0;
    while i < count
        invariant
            i <= count <= words.len(),
            views_of(words@) == tokens_of(proc_version@),
            spelled == tokens_of(proc_version@).subrange(0, count as int),
            version@ == joined(spelled.subrange(0, i as int)),
        decreases count - i,
    {
        let ghost next = spelled.subrange(0, i + 1);
        assert(next.drop_last() == spelled.subrange(0, i as int));
        if i > 0 {
            proof {
                reveal_strlit(" ");
            }
            version.append(" ");
        }
        version.append(words[i]);
        i = i + 1;
    }
    assert(spelled.subrange(0, count as int) == spelled);
    assert(words.len() <= KERNEL_VERSION_WORDS ==> spelled == tokens_of(proc_version@));
    version
}

/// What was read from the host's identity sources, before any parsing. A
/// source that could not be read is `None`.
#[derive(Debug)]
pub struct HostSources {
    /// The text of the host-name source.
    pub hostname: Option<String>,
    /// The text of the operating system's release source.
    pub os_release: Option<String>,
    /// The text of the kernel's version source.
    pub proc_version: Option<String>,
    /// The text of the CPU-time counter source.
    pub proc_stat: Option<String>,
    /// The number of cores available to the process.
    pub cpu_cores: Option<usize>,
    /// The name of the CPU architecture.
    pub cpu_arch: String,
}

impl HostSources {
    /// Every source could be read.
    pub open spec fn complete(self) -> bool {
        &&& self.hostname is Some
        &&& self.os_release is Some
        &&& self.proc_version is Some
        &&& self.proc_stat is Some
        &&& self.cpu_cores is Some
    }
}

/// The facts that identify the host, and the counter snapshot taken when they
/// were gathered.
#[derive(Debug)]
pub struct System {
    pub host_name: String,
    pub os_name: String,
    pub kernel_version: String,
    /// The counter snapshot taken with the facts: the sampler's first baseline.
    pub cpu_time: CpuTime,
    pub cpu_cores: usize,
    pub cpu_arch: String,
}

impl System {
    /// Whether `self` holds exactly what `sources` give, with `total` and
    /// `work` as the times of its snapshot.
    pub open spec fn describes(self, sources: HostSources, total: nat, work: nat) -> bool {
        &&& sources.complete()
        &&& self.host_name@ == host_name_of(sources.hostname.unwrap()@)
        &&& self.os_name@ == os_name_of(sources.os_release.unwrap()@)
        &&& self.kernel_version@ == kernel_version_of(sources.proc_version.unwrap()@)
        &&& self.cpu_cores == sources.cpu_cores.unwrap()
        &&& self.cpu_arch@ == sources.cpu_arch@
        &&& self.cpu_time.total() == total
        &&& self.cpu_time.work() == work
        &&& self.cpu_time.wf()
    }

    /// Gathers the host's facts from what was read of its sources.
    ///
    /// A source that could not be read makes the whole unavailable. Of the
    /// sources that were read only the counter source can be malformed: a
    /// release source without a name gives `Unknown OS`.
    pub fn new(sources: &HostSources) -> (system: Result<System, SourceError>)
        ensures
            !sources.complete() ==> system == Err::<System, SourceError>(
                SourceError::SourceUnavailable,
            ),
            sources.complete() ==> match parsed_times(sources.proc_stat.unwrap()@, 0) {
                Some((total, work)) => system matches Ok(s) && s.describes(*sources, total, work),
                None => system == Err::<System, SourceError>(SourceError::MalformedSource),
            },
    {
        let hostname = match &sources.hostname {
            Some(text) => text.as_str(),
            None => { return Err(SourceError::SourceUnavailable); },
        };
        let os_release = match &sources.os_release {
            Some(text) => text.as_str(),
            None => { return Err(SourceError::SourceUnavailable); },
        };
        let proc_version = match &sources.proc_version {
            Some(text) => text.as_str(),
            None => { return Err(SourceError::SourceUnavailable); },
        };
        let proc_stat = match &sources.proc_stat {
            Some(text) => text.as_str(),
            None => { return Err(SourceError::SourceUnavailable); },
        };
        let cpu_cores = match sources.cpu_cores {
            Some(cores) => cores,
            None => { return Err(SourceError::SourceUnavailable); },
        };
        let cpu_time = match CpuTime::new(Some(proc_stat), 0) {
            Ok(snapshot) => snapshot,
            Err(error) => { return Err(error); },
        };
        Ok(
            System {
                host_name: get_hostname(hostname),
                os_name: get_os_name(os_release),
                kernel_version: get_kernel_version(proc_version),
                cpu_time,
                cpu_cores,
                cpu_arch: sources.cpu_arch.clone(),
            },
        )
    }
}

} // verus!
